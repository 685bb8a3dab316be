# ffsynth

The verified core of a terminal audio spectrum visualizer, written in Verus.

- `src/color.rs`: the RGBA color type, its `R,G,B[,A]` text form, and the
  gradient that spreads the user's colors over any number of bars.
- `src/text.rs`: trimming, comma splitting and unsigned decimal numbers over
  characters, with their specifications.
- `src/cli.rs`: the command-line settings and what each argument does to them.
- `src/selection.rs`: the menus that pick the audio host and input device.
- `src/controls.rs`: the live controls of the spectrum view and its bar layout.
- `src/capture.rs`: the capture source named by the user.

`app/` is the program around it: terminal drawing and key reading, audio
capture, and the floating-point signal processing that turns samples into bar
heights.
