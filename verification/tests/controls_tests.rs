use ffsynth::{
    bar_fills_row, decide_input, spectrum_layout, Adjust, ControlKey, ControlSelection,
    InputAction,
};

#[test]
fn selection_cycles() {
    let a = ControlSelection::Amp_and_Bars;
    let f = ControlSelection::Fall_and_Rise;
    assert_eq!(a.next(), f);
    assert_eq!(f.next(), a);
    assert_eq!(a.prev(), f);
    assert_eq!(f.prev(), a);
    assert_eq!(a.next().prev(), a);
    assert_eq!(f.prev().next(), f);
}

#[test]
fn selection_default_and_names() {
    assert_eq!(ControlSelection::default(), ControlSelection::Amp_and_Bars);
    assert_eq!(ControlSelection::Amp_and_Bars.name(), "Amp=⇅,Bars=⇄");
    assert_eq!(ControlSelection::Fall_and_Rise.name(), "RiseSpeed=⇅,FallSpeed=⇄");
}

#[test]
fn left_and_right_change_the_bar_count() {
    let a = ControlSelection::Amp_and_Bars;
    assert_eq!(decide_input(a, 5, ControlKey::Left), InputAction::SetBars(4));
    assert_eq!(decide_input(a, 5, ControlKey::Right), InputAction::SetBars(6));
    assert_eq!(decide_input(a, 0, ControlKey::Left), InputAction::SetBars(0));
    assert_eq!(decide_input(a, usize::MAX, ControlKey::Right), InputAction::SetBars(usize::MAX));
}

#[test]
fn removing_and_adding_a_bar_restores_the_count() {
    let a = ControlSelection::Amp_and_Bars;
    for bars in [1usize, 2, 17, usize::MAX] {
        let InputAction::SetBars(fewer) = decide_input(a, bars, ControlKey::Left) else { panic!() };
        assert_eq!(decide_input(a, fewer, ControlKey::Right), InputAction::SetBars(bars));
    }
}

#[test]
fn arrow_keys_by_selection() {
    let a = ControlSelection::Amp_and_Bars;
    let f = ControlSelection::Fall_and_Rise;
    assert_eq!(decide_input(a, 3, ControlKey::Up), InputAction::Amplification(Adjust::Raise));
    assert_eq!(decide_input(a, 3, ControlKey::Down), InputAction::Amplification(Adjust::Lower));
    assert_eq!(decide_input(f, 3, ControlKey::Up), InputAction::RiseSpeed(Adjust::Raise));
    assert_eq!(decide_input(f, 3, ControlKey::Down), InputAction::RiseSpeed(Adjust::Lower));
    assert_eq!(decide_input(f, 3, ControlKey::Left), InputAction::FallSpeed(Adjust::Lower));
    assert_eq!(decide_input(f, 3, ControlKey::Right), InputAction::FallSpeed(Adjust::Raise));
}

#[test]
fn tab_keys_switch_the_selection() {
    let a = ControlSelection::Amp_and_Bars;
    let f = ControlSelection::Fall_and_Rise;
    assert_eq!(decide_input(a, 3, ControlKey::Tab), InputAction::SetControls(f));
    assert_eq!(decide_input(f, 3, ControlKey::BackTab), InputAction::SetControls(a));
    assert_eq!(decide_input(a, 3, ControlKey::Other), InputAction::Ignore);
}

#[test]
fn layout_of_wide_bars() {
    let l = spectrum_layout(100, 20, 5);
    assert_eq!((l.bar_width, l.cell_width, l.max_height, l.solid), (20, 20, 18, true));
    assert_eq!(l.bar_glyph(), "█");
}

#[test]
fn layout_of_narrow_bars() {
    let l = spectrum_layout(10, 2, 7);
    assert_eq!((l.bar_width, l.cell_width, l.max_height, l.solid), (1, 1, 0, false));
    assert_eq!(l.bar_glyph(), "│");
    let l = spectrum_layout(3, 10, 7);
    assert_eq!((l.bar_width, l.cell_width, l.max_height, l.solid), (0, 1, 8, false));
}

#[test]
fn bar_rows_fill_up_to_the_level_and_the_top() {
    assert!(bar_fills_row(0, 1, 10));
    assert!(!bar_fills_row(1, 1, 10));
    assert!(bar_fills_row(9, 50, 10));
    assert!(!bar_fills_row(10, 50, 10));
    assert!(!bar_fills_row(0, 0, 10));
}
