//! The list menus that pick an audio host and an input device.
use vstd::prelude::*;

verus! {

/// A list of names and the place of the highlighted one.
#[derive(Debug)]
pub struct SelectionState {
    pub items: Vec<String>,
    pub selected: usize,
}

/// The place after `selected` in a list of `len` items, wrapping around;
/// an empty list keeps its place.
pub open spec fn place_after(selected: usize, len: nat) -> usize {
    if len == 0 {
        selected
    } else {
        ((selected + 1) % (len as int)) as usize
    }
}

/// The place before `selected` in a list of `len` items, wrapping around;
/// an empty list keeps its place.
pub open spec fn place_before(selected: usize, len: nat) -> usize {
    if len == 0 {
        selected
    } else if selected == 0 {
        (len - 1) as usize
    } else {
        (selected - 1) as usize
    }
}

impl SelectionState {
    /// The highlighted place is on an item, or the list is empty.
    pub open spec fn well_formed(&self) -> bool {
        self.items.len() == 0 || self.selected < self.items.len()
    }

    /// Whether the highlight can move forward without counting past
    /// `usize::MAX`.
    pub open spec fn can_advance(&self) -> bool {
        self.items.len() == 0 || self.selected < usize::MAX
    }

    pub fn new(items: Vec<String>) -> (s: Self)
        ensures
            s.items == items,
            s.selected == 0,
    {
        Self { items, selected: 0 }
    }

    pub fn next(&mut self)
        requires
            old(self).can_advance(),
        ensures
            final(self).items == old(self).items,
            final(self).selected == place_after(old(self).selected, old(self).items@.len()),
            old(self).well_formed() ==> final(self).well_formed(),
            old(self).items.len() > 0 && old(self).selected + 1 < old(self).items.len() ==> final(self).selected == old(self).selected + 1,
            old(self).items.len() > 0 && old(self).selected + 1 == old(self).items.len() ==> final(self).selected == 0,
    {
        if !self.items.is_empty() {
            proof {
                if self.selected < self.items.len() {
                    lemma_after_wraps(self.selected, self.items@.len());
                }
            }
            self.selected = (self.selected + 1) % self.items.len();
        }
    }

    pub fn prev(&mut self)
        ensures
            final(self).items == old(self).items,
            final(self).selected == place_before(old(self).selected, old(self).items@.len()),
            old(self).well_formed() ==> final(self).well_formed(),
            old(self).items.len() > 0 && old(self).selected == 0 ==> final(self).selected == old(self).items.len() - 1,
            old(self).items.len() > 0 && old(self).selected > 0 ==> final(self).selected == old(self).selected - 1,
    {
        if !self.items.is_empty() {
            self.selected = if self.selected == 0 {
                self.items.len() - 1
            } else {
                self.selected - 1
            };
        }
    }

    pub fn get_selected(&self) -> (res: Option<&String>)
        ensures
            match res {
                Some(item) => self.selected < self.items.len() && *item == self.items@[self.selected as int],
                None => self.selected >= self.items.len(),
            },
    {
        if self.selected < self.items.len() {
            Some(&self.items[self.selected])
        } else {
            None
        }
    }

    /// Applies a key press to the menu: it moves the highlight, chooses the
    /// highlighted item, gives up, or does nothing.
    pub fn handle_key(&mut self, kind: MenuKind, key: MenuKey) -> (action: MenuAction)
        requires
            old(self).can_advance(),
        ensures
            final(self).items == old(self).items,
            old(self).well_formed() ==> final(self).well_formed(),
            key == MenuKey::Down ==> action == MenuAction::Stay && final(self).selected
                == place_after(old(self).selected, old(self).items@.len()),
            key == MenuKey::Up ==> action == MenuAction::Stay && final(self).selected
                == place_before(old(self).selected, old(self).items@.len()),
            key == MenuKey::Tab ==> action == MenuAction::Stay && final(self).selected == (
            if kind == MenuKind::Host {
                place_before(old(self).selected, old(self).items@.len())
            } else {
                place_after(old(self).selected, old(self).items@.len())
            }),
            key == MenuKey::BackTab ==> action == MenuAction::Stay && final(self).selected == (
            if kind == MenuKind::Host {
                place_after(old(self).selected, old(self).items@.len())
            } else {
                place_before(old(self).selected, old(self).items@.len())
            }),
            moves_back(kind, key) ==> action == MenuAction::Stay && final(self).selected
                == place_before(old(self).selected, old(self).items@.len()),
            moves_forward(kind, key) ==> action == MenuAction::Stay && final(self).selected
                == place_after(old(self).selected, old(self).items@.len()),
            key == MenuKey::Enter ==> final(self).selected == old(self).selected && action == (
            if old(self).selected < old(self).items.len() {
                MenuAction::Choose(old(self).selected)
            } else {
                MenuAction::Stay
            }),
            key == MenuKey::Quit ==> action == MenuAction::Quit && final(self).selected == old(self).selected,
            key == MenuKey::Other ==> action == MenuAction::Stay && final(self).selected == old(self).selected,
    {
        if moves_back_key(kind, key) {
            self.prev();
            MenuAction::Stay
        } else if moves_forward_key(kind, key) {
            self.next();
            MenuAction::Stay
        } else {
            match key {
                MenuKey::Enter => {
                    if self.selected < self.items.len() {
                        MenuAction::Choose(self.selected)
                    } else {
                        MenuAction::Stay
                    }
                },
                MenuKey::Quit => MenuAction::Quit,
                _ => MenuAction::Stay,
            }
        }
    }
}

/// Moving forward and then back through a non-empty menu returns to the
/// same item, and so does moving back and then forward; both keep the
/// highlight on an item.
pub proof fn lemma_menu_round_trip(selected: usize, len: nat)
    requires
        0 < len <= usize::MAX,
        selected < len,
    ensures
        place_after(selected, len) < len,
        place_before(selected, len) < len,
        place_before(place_after(selected, len), len) == selected,
        place_after(place_before(selected, len), len) == selected,
{
    lemma_after_wraps(selected, len);
    lemma_after_wraps(place_before(selected, len), len);
}

/// In a non-empty list, the place after an item is the next one, or the
/// first after the last; the place before it is the previous one, or the
/// last before the first.
pub proof fn lemma_after_wraps(selected: usize, len: nat)
    requires
        0 < len <= usize::MAX,
        selected < len,
    ensures
        place_after(selected, len) == (if selected + 1 < len {
            selected + 1
        } else {
            0
        }),
        place_before(selected, len) == (if selected == 0 {
            len - 1
        } else {
            selected - 1
        }),
{
    if selected + 1 < len {
        vstd::arithmetic::div_mod::lemma_small_mod((selected + 1) as nat, len);
    } else {
        vstd::arithmetic::div_mod::lemma_mod_self_0(len as int);
    }
}

/// Down always moves the highlight forward and Up back; Tab moves it back
/// in the host menu and forward in the device menu, BackTab the other way.
pub proof fn lemma_menu_key_directions(kind: MenuKind)
    ensures
        moves_forward(kind, MenuKey::Down) && !moves_back(kind, MenuKey::Down),
        moves_back(kind, MenuKey::Up) && !moves_forward(kind, MenuKey::Up),
        kind == MenuKind::Host ==> moves_back(kind, MenuKey::Tab) && !moves_forward(kind, MenuKey::Tab)
            && moves_forward(kind, MenuKey::BackTab) && !moves_back(kind, MenuKey::BackTab),
        kind == MenuKind::Device ==> moves_forward(kind, MenuKey::Tab) && !moves_back(kind, MenuKey::Tab)
            && moves_back(kind, MenuKey::BackTab) && !moves_forward(kind, MenuKey::BackTab),
        !moves_forward(kind, MenuKey::Enter) && !moves_back(kind, MenuKey::Enter),
        !moves_forward(kind, MenuKey::Quit) && !moves_back(kind, MenuKey::Quit),
        !moves_forward(kind, MenuKey::Other) && !moves_back(kind, MenuKey::Other),
{
}

/// Which menu a key press goes to: the two menus bind Tab and BackTab the
/// other way round.
#[derive(Debug, PartialEq, Eq, Clone, Copy, Structural)]
pub enum MenuKind {
    Host,
    Device,
}

/// A key that a menu reacts to.
#[derive(Debug, PartialEq, Eq, Clone, Copy, Structural)]
pub enum MenuKey {
    Up,
    Down,
    Tab,
    BackTab,
    Enter,
    Quit,
    Other,
}

/// What a key press in a menu asks for.
#[derive(Debug, PartialEq, Eq, Clone, Copy, Structural)]
pub enum MenuAction {
    /// Keep showing the menu.
    Stay,
    /// The item at this place was chosen.
    Choose(usize),
    /// Leave the program.
    Quit,
}

/// Keys that move the highlight back: Up, and Tab in the host menu or
/// BackTab in the device menu.
pub open spec fn moves_back(kind: MenuKind, key: MenuKey) -> bool {
    key == MenuKey::Up || (kind == MenuKind::Host && key == MenuKey::Tab) || (kind
        == MenuKind::Device && key == MenuKey::BackTab)
}

/// Keys that move the highlight forward: Down, and BackTab in the host menu
/// or Tab in the device menu.
pub open spec fn moves_forward(kind: MenuKind, key: MenuKey) -> bool {
    key == MenuKey::Down || (kind == MenuKind::Host && key == MenuKey::BackTab) || (kind
        == MenuKind::Device && key == MenuKey::Tab)
}

fn moves_back_key(kind: MenuKind, key: MenuKey) -> (res: bool)
    ensures
        res == moves_back(kind, key),
{
    match (kind, key) {
        (_, MenuKey::Up) => true,
        (MenuKind::Host, MenuKey::Tab) => true,
        (MenuKind::Device, MenuKey::BackTab) => true,
        _ => false,
    }
}

fn moves_forward_key(kind: MenuKind, key: MenuKey) -> (res: bool)
    ensures
        res == moves_forward(kind, key),
{
    match (kind, key) {
        (_, MenuKey::Down) => true,
        (MenuKind::Host, MenuKey::BackTab) => true,
        (MenuKind::Device, MenuKey::Tab) => true,
        _ => false,
    }
}

} // verus!
