use ffsynth::{ArgOutcome, ColorError, MyColor, CLI};

fn applied(args: &[&str]) -> CLI {
    let mut cli = CLI::new();
    for a in args {
        assert!(matches!(cli.apply_arg(a), ArgOutcome::Applied), "argument {} refused", a);
    }
    cli
}

#[test]
fn defaults() {
    let cli = CLI::new();
    assert!(!cli.dbg);
    assert_eq!(cli.bars, 5);
    assert!(cli.src.is_none());
    assert!(cli.colors.is_empty());
    assert!(cli.stereo);
}

#[test]
fn debug_flags() {
    for flag in ["-d", "--debug", " --DEBUG", "-D"] {
        assert!(applied(&[flag]).dbg);
    }
}

#[test]
fn help_flags_and_unknown_arguments() {
    for flag in ["-h", "--help", " --HELP", "-H", "--DEBUG", "--bars=3", "-x", ""] {
        let mut cli = CLI::new();
        assert!(matches!(cli.apply_arg(flag), ArgOutcome::ShowHelp), "{}", flag);
        assert_eq!(cli.bars, 5);
    }
}

#[test]
fn debug_mode_with_twenty_bars() {
    let cli = applied(&["-d", "-n=20"]);
    assert!(cli.dbg);
    assert_eq!(cli.bars, 20);
}

#[test]
fn long_bar_option() {
    assert_eq!(applied(&["--n_bars=30"]).bars, 30);
    assert_eq!(applied(&["-n=+7"]).bars, 7);
}

#[test]
fn bad_bar_counts() {
    for arg in ["-n=abc", "-n=", "-n=-3", "-n=5=6", "-n= 5", "-n=99999999999999999999999"] {
        let mut cli = CLI::new();
        assert!(matches!(cli.apply_arg(arg), ArgOutcome::InvalidBars), "{}", arg);
        assert_eq!(cli.bars, 5);
    }
}

#[test]
fn amplification_text_is_handed_back() {
    let mut cli = CLI::new();
    match cli.apply_arg("-amp=1.5") {
        ArgOutcome::Amplification(t) => assert_eq!(t, "1.5"),
        _ => panic!("expected an amplification"),
    }
    match cli.apply_arg("--amplification=0.25") {
        ArgOutcome::Amplification(t) => assert_eq!(t, "0.25"),
        _ => panic!("expected an amplification"),
    }
}

#[test]
fn source_device() {
    assert_eq!(applied(&["-src=default"]).src.as_deref(), Some("default"));
    assert_eq!(applied(&["--src_audio=hw:0"]).src.as_deref(), Some("hw:0"));
    assert_eq!(applied(&["-src=a=b"]).src.as_deref(), Some("a=b"));
}

#[test]
fn red_to_blue_gradient() {
    let cli = applied(&["-c=255,0,0", "-c=0,0,255"]);
    assert_eq!(cli.colors, vec![MyColor::new(255, 0, 0, 255), MyColor::new(0, 0, 255, 255)]);
}

#[test]
fn complex_gradient_with_fifteen_bars() {
    let cli = applied(&["-c=128,0,128", "--color=0,255,255", "-c=255,255,0", "-n=15"]);
    assert_eq!(cli.bars, 15);
    assert_eq!(
        cli.colors,
        vec![
            MyColor::new(128, 0, 128, 255),
            MyColor::new(0, 255, 255, 255),
            MyColor::new(255, 255, 0, 255)
        ]
    );
}

#[test]
fn semi_transparent_color() {
    assert_eq!(applied(&["-c=0,255,0,128"]).colors, vec![MyColor::new(0, 255, 0, 128)]);
}

#[test]
fn bad_colors() {
    let mut cli = CLI::new();
    assert!(matches!(
        cli.apply_arg("-c=1,2"),
        ArgOutcome::InvalidColor(ColorError::WrongChannelCount)
    ));
    assert!(matches!(
        cli.apply_arg("-c=300,2,1"),
        ArgOutcome::InvalidColor(ColorError::InvalidChannel)
    ));
    assert!(cli.colors.is_empty());
}

#[test]
fn mono_and_stereo() {
    assert!(!applied(&["--mono"]).stereo);
    assert!(!applied(&["-m"]).stereo);
    assert!(applied(&["-m", "--stereo"]).stereo);
    assert!(applied(&["-m", "-s"]).stereo);
}
