//! Where the sound is captured from.
use vstd::prelude::*;
use crate::text::{chars_of, is_text};

verus! {

/// The source of the captured sound.
#[derive(Debug)]
pub enum CaptureSource {
    /// The system's default input device.
    DefaultInput,
    /// The PipeWire monitor of what is playing.
    PipeWireMonitor,
    /// An input device named by the user.
    NamedDevice(String),
}

impl CaptureSource {
    /// The source a name stands for: `Default` and `Pipewire` name the two
    /// built-in sources, any other name a device.
    pub fn from(value: &str) -> (res: CaptureSource)
        ensures
            value@ == "Default"@ ==> res is DefaultInput,
            value@ == "Pipewire"@ ==> res is PipeWireMonitor,
            value@ != "Default"@ && value@ != "Pipewire"@ ==> (res matches CaptureSource::NamedDevice(
                name,
            ) && name@ == value@),
    {
        let v = chars_of(value);
        proof {
            reveal_strlit("Default");
            reveal_strlit("Pipewire");
            assert("Default"@.len() != "Pipewire"@.len());
        }
        if is_text(&v, "Default") {
            CaptureSource::DefaultInput
        } else if is_text(&v, "Pipewire") {
            CaptureSource::PipeWireMonitor
        } else {
            CaptureSource::NamedDevice(value.to_owned())
        }
    }
}

} // verus!
