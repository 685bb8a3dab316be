use ffsynth::CaptureSource;

#[test]
fn default_names_the_default_input() {
    assert!(matches!(CaptureSource::from("Default"), CaptureSource::DefaultInput));
}

#[test]
fn pipewire_names_the_monitor() {
    assert!(matches!(CaptureSource::from("Pipewire"), CaptureSource::PipeWireMonitor));
}

#[test]
fn other_names_are_devices() {
    match CaptureSource::from("default") {
        CaptureSource::NamedDevice(name) => assert_eq!(name, "default"),
        _ => panic!("expected a named device"),
    }
    match CaptureSource::from("hw:1,0") {
        CaptureSource::NamedDevice(name) => assert_eq!(name, "hw:1,0"),
        _ => panic!("expected a named device"),
    }
    match CaptureSource::from("") {
        CaptureSource::NamedDevice(name) => assert_eq!(name, ""),
        _ => panic!("expected a named device"),
    }
}
