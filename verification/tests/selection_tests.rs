use ffsynth::{MenuAction, MenuKey, MenuKind, SelectionState};

fn menu(n: usize) -> SelectionState {
    SelectionState::new((0..n).map(|i| format!("item {}", i)).collect())
}

#[test]
fn new_selects_the_first_item() {
    let s = menu(3);
    assert_eq!(s.selected, 0);
    assert_eq!(s.items.len(), 3);
    assert_eq!(s.get_selected(), Some(&"item 0".to_string()));
}

#[test]
fn next_wraps_around() {
    let mut s = menu(3);
    s.next();
    assert_eq!(s.selected, 1);
    s.next();
    s.next();
    assert_eq!(s.selected, 0);
}

#[test]
fn prev_wraps_around() {
    let mut s = menu(3);
    s.prev();
    assert_eq!(s.selected, 2);
    s.prev();
    assert_eq!(s.selected, 1);
}

#[test]
fn next_then_prev_returns() {
    for start in 0..4 {
        let mut s = menu(4);
        s.selected = start;
        s.next();
        s.prev();
        assert_eq!(s.selected, start);
        s.prev();
        s.next();
        assert_eq!(s.selected, start);
    }
}

#[test]
fn empty_menu_does_not_move() {
    let mut s = menu(0);
    s.next();
    assert_eq!(s.selected, 0);
    s.prev();
    assert_eq!(s.selected, 0);
    assert_eq!(s.get_selected(), None);
}

#[test]
fn out_of_range_selection_gives_nothing() {
    let mut s = menu(2);
    s.selected = 5;
    assert_eq!(s.get_selected(), None);
}

#[test]
fn host_menu_keys() {
    let mut s = menu(3);
    assert_eq!(s.handle_key(MenuKind::Host, MenuKey::Down), MenuAction::Stay);
    assert_eq!(s.selected, 1);
    assert_eq!(s.handle_key(MenuKind::Host, MenuKey::BackTab), MenuAction::Stay);
    assert_eq!(s.selected, 2);
    assert_eq!(s.handle_key(MenuKind::Host, MenuKey::Tab), MenuAction::Stay);
    assert_eq!(s.selected, 1);
    assert_eq!(s.handle_key(MenuKind::Host, MenuKey::Up), MenuAction::Stay);
    assert_eq!(s.selected, 0);
    assert_eq!(s.handle_key(MenuKind::Host, MenuKey::Enter), MenuAction::Choose(0));
}

#[test]
fn device_menu_keys() {
    let mut s = menu(3);
    assert_eq!(s.handle_key(MenuKind::Device, MenuKey::Tab), MenuAction::Stay);
    assert_eq!(s.selected, 1);
    assert_eq!(s.handle_key(MenuKind::Device, MenuKey::BackTab), MenuAction::Stay);
    assert_eq!(s.selected, 0);
    assert_eq!(s.handle_key(MenuKind::Device, MenuKey::Up), MenuAction::Stay);
    assert_eq!(s.selected, 2);
    assert_eq!(s.handle_key(MenuKind::Device, MenuKey::Enter), MenuAction::Choose(2));
}

#[test]
fn quit_and_other_keys() {
    let mut s = menu(3);
    assert_eq!(s.handle_key(MenuKind::Device, MenuKey::Quit), MenuAction::Quit);
    assert_eq!(s.handle_key(MenuKind::Host, MenuKey::Other), MenuAction::Stay);
    assert_eq!(s.selected, 0);
}

#[test]
fn enter_on_an_empty_menu_stays() {
    let mut s = menu(0);
    assert_eq!(s.handle_key(MenuKind::Host, MenuKey::Enter), MenuAction::Stay);
}
