//! The live controls of the spectrum view: which pair of settings the arrow
//! keys change, what a key press asks for, and how the bars are laid out.
use vstd::prelude::*;

verus! {

/// The pair of settings that the arrow keys currently change.
#[allow(non_camel_case_types)]
#[derive(Debug, PartialEq, Eq, Clone, Copy, Structural)]
pub enum ControlSelection {
    /// Up/down change the amplification, left/right the number of bars.
    Amp_and_Bars,
    /// Up/down change the rise speed, left/right the fall speed.
    Fall_and_Rise,
}

impl ControlSelection {
    /// Every selection, in the order the Tab key goes through them.
    pub const ALL: [ControlSelection; 2] = [
        ControlSelection::Amp_and_Bars,
        ControlSelection::Fall_and_Rise,
    ];

    /// The place of the selection in the cycle of selections.
    pub open spec fn position(self) -> int {
        match self {
            ControlSelection::Amp_and_Bars => 0,
            ControlSelection::Fall_and_Rise => 1,
        }
    }

    /// The number of selections in the cycle.
    pub open spec fn count() -> int {
        2
    }

    /// The selection at a place of the cycle.
    pub open spec fn at(i: int) -> ControlSelection {
        if i == 0 {
            ControlSelection::Amp_and_Bars
        } else {
            ControlSelection::Fall_and_Rise
        }
    }

    /// The selection after this one, wrapping around.
    pub open spec fn following(self) -> ControlSelection {
        Self::at((self.position() + 1) % Self::count())
    }

    /// The selection before this one, wrapping around.
    pub open spec fn preceding(self) -> ControlSelection {
        Self::at((self.position() + Self::count() - 1) % Self::count())
    }

    pub fn next(&self) -> (res: ControlSelection)
        ensures
            res == self.following(),
    {
        match self {
            ControlSelection::Amp_and_Bars => ControlSelection::Fall_and_Rise,
            ControlSelection::Fall_and_Rise => ControlSelection::Amp_and_Bars,
        }
    }

    /// The label of the selection shown in the title bar.
    pub fn name(&self) -> (res: &'static str)
        ensures
            res@ == (match self {
                ControlSelection::Amp_and_Bars => "Amp=⇅,Bars=⇄"@,
                ControlSelection::Fall_and_Rise => "RiseSpeed=⇅,FallSpeed=⇄"@,
            }),
    {
        match self {
            ControlSelection::Amp_and_Bars => "Amp=⇅,Bars=⇄",
            ControlSelection::Fall_and_Rise => "RiseSpeed=⇅,FallSpeed=⇄",
        }
    }

    pub fn prev(&self) -> (res: ControlSelection)
        ensures
            res == self.preceding(),
    {
        match self {
            ControlSelection::Amp_and_Bars => ControlSelection::Fall_and_Rise,
            ControlSelection::Fall_and_Rise => ControlSelection::Amp_and_Bars,
        }
    }
}

impl Default for ControlSelection {
    fn default() -> (res: Self)
        ensures
            res == ControlSelection::Amp_and_Bars,
    {
        Self::Amp_and_Bars
    }
}

/// Going forward and then back through the selections, or back and then
/// forward, returns to where one started; going forward through all of them
/// does too.
pub proof fn lemma_selection_cycle(c: ControlSelection)
    ensures
        c.following().preceding() == c,
        c.preceding().following() == c,
        c.following().following() == c,
        c.following() != c,
        ControlSelection::ALL@[c.position()] == c,
        ControlSelection::ALL@[(c.position() + 1) % ControlSelection::count()] == c.following(),
{
}

/// A key that the spectrum view reacts to.
#[derive(Debug, PartialEq, Eq, Clone, Copy, Structural)]
pub enum ControlKey {
    Left,
    Right,
    Up,
    Down,
    Tab,
    BackTab,
    Other,
}

/// Which way a setting moves.
#[derive(Debug, PartialEq, Eq, Clone, Copy, Structural)]
pub enum Adjust {
    Lower,
    Raise,
}

/// What a key press asks of the spectrum view.
#[derive(Debug, PartialEq, Eq, Clone, Copy, Structural)]
pub enum InputAction {
    /// Show this many bars (the spectra start over, the colors are stretched
    /// to the new count).
    SetBars(usize),
    FallSpeed(Adjust),
    RiseSpeed(Adjust),
    Amplification(Adjust),
    /// Let the arrow keys change another pair of settings.
    SetControls(ControlSelection),
    Ignore,
}

/// What a key press asks for, given the current selection and bar count.
pub open spec fn input_action(controls: ControlSelection, bars: usize, key: ControlKey) -> InputAction {
    match key {
        ControlKey::Left => match controls {
            ControlSelection::Amp_and_Bars => InputAction::SetBars(
                if bars == 0 {
                    0
                } else {
                    (bars - 1) as usize
                },
            ),
            ControlSelection::Fall_and_Rise => InputAction::FallSpeed(Adjust::Lower),
        },
        ControlKey::Right => match controls {
            ControlSelection::Amp_and_Bars => InputAction::SetBars(
                if bars == usize::MAX {
                    bars
                } else {
                    (bars + 1) as usize
                },
            ),
            ControlSelection::Fall_and_Rise => InputAction::FallSpeed(Adjust::Raise),
        },
        ControlKey::Tab => InputAction::SetControls(controls.following()),
        ControlKey::BackTab => InputAction::SetControls(controls.preceding()),
        ControlKey::Down => match controls {
            ControlSelection::Amp_and_Bars => InputAction::Amplification(Adjust::Lower),
            ControlSelection::Fall_and_Rise => InputAction::RiseSpeed(Adjust::Lower),
        },
        ControlKey::Up => match controls {
            ControlSelection::Amp_and_Bars => InputAction::Amplification(Adjust::Raise),
            ControlSelection::Fall_and_Rise => InputAction::RiseSpeed(Adjust::Raise),
        },
        ControlKey::Other => InputAction::Ignore,
    }
}

/// Decides what a key press asks of the spectrum view.
pub fn decide_input(controls: ControlSelection, bars: usize, key: ControlKey) -> (action: InputAction)
    ensures
        action == input_action(controls, bars, key),
        key == ControlKey::Tab ==> (action matches InputAction::SetControls(c) && c != controls
            && c == controls.following()),
        key == ControlKey::BackTab ==> (action matches InputAction::SetControls(c) && c != controls
            && c == controls.preceding()),
        key == ControlKey::Left && controls == ControlSelection::Amp_and_Bars ==> action
            == InputAction::SetBars(
            if bars > 0 {
                (bars - 1) as usize
            } else {
                0
            },
        ),
        key == ControlKey::Right && controls == ControlSelection::Amp_and_Bars ==> action
            == InputAction::SetBars(
            if bars < usize::MAX {
                (bars + 1) as usize
            } else {
                bars
            },
        ),
        key == ControlKey::Left && controls == ControlSelection::Fall_and_Rise ==> action
            == InputAction::FallSpeed(Adjust::Lower),
        key == ControlKey::Right && controls == ControlSelection::Fall_and_Rise ==> action
            == InputAction::FallSpeed(Adjust::Raise),
        key == ControlKey::Up && controls == ControlSelection::Amp_and_Bars ==> action
            == InputAction::Amplification(Adjust::Raise),
        key == ControlKey::Down && controls == ControlSelection::Amp_and_Bars ==> action
            == InputAction::Amplification(Adjust::Lower),
        key == ControlKey::Up && controls == ControlSelection::Fall_and_Rise ==> action
            == InputAction::RiseSpeed(Adjust::Raise),
        key == ControlKey::Down && controls == ControlSelection::Fall_and_Rise ==> action
            == InputAction::RiseSpeed(Adjust::Lower),
        key == ControlKey::Other ==> action == InputAction::Ignore,
{
    match key {
        ControlKey::Left => match controls {
            ControlSelection::Amp_and_Bars => InputAction::SetBars(bars.saturating_sub(1)),
            ControlSelection::Fall_and_Rise => InputAction::FallSpeed(Adjust::Lower),
        },
        ControlKey::Right => match controls {
            ControlSelection::Amp_and_Bars => InputAction::SetBars(bars.saturating_add(1)),
            ControlSelection::Fall_and_Rise => InputAction::FallSpeed(Adjust::Raise),
        },
        ControlKey::Tab => InputAction::SetControls(controls.next()),
        ControlKey::BackTab => InputAction::SetControls(controls.prev()),
        ControlKey::Down => match controls {
            ControlSelection::Amp_and_Bars => InputAction::Amplification(Adjust::Lower),
            ControlSelection::Fall_and_Rise => InputAction::RiseSpeed(Adjust::Lower),
        },
        ControlKey::Up => match controls {
            ControlSelection::Amp_and_Bars => InputAction::Amplification(Adjust::Raise),
            ControlSelection::Fall_and_Rise => InputAction::RiseSpeed(Adjust::Raise),
        },
        ControlKey::Other => InputAction::Ignore,
    }
}

/// Tab always switches to the other pair of controls, and pressing it
/// twice comes back; BackTab also switches, and undoes Tab.
pub proof fn lemma_tab_switches_controls(c: ControlSelection, bars: usize)
    ensures
        input_action(c, bars, ControlKey::Tab) matches InputAction::SetControls(d) && d != c
            && input_action(d, bars, ControlKey::Tab) == InputAction::SetControls(c)
            && input_action(d, bars, ControlKey::BackTab) == InputAction::SetControls(c),
        input_action(c, bars, ControlKey::BackTab) matches InputAction::SetControls(e) && e != c
            && input_action(e, bars, ControlKey::Tab) == InputAction::SetControls(c),
{
}

/// Removing a bar and adding one back restores the count, unless there were
/// none to remove.
pub proof fn lemma_bars_round_trip(bars: usize)
    requires
        bars > 0,
    ensures
        input_action(ControlSelection::Amp_and_Bars, bars, ControlKey::Left) matches InputAction::SetBars(
            fewer,
        ) && input_action(ControlSelection::Amp_and_Bars, fewer, ControlKey::Right)
            == InputAction::SetBars(bars),
{
}

/// How the bars of the spectrum fill the drawing area.
#[derive(Debug, PartialEq, Eq, Clone, Copy, Structural)]
pub struct SpectrumLayout {
    /// Columns each bar is given.
    pub bar_width: usize,
    /// Columns each bar is drawn with: its width, and at least one.
    pub cell_width: usize,
    /// Rows a bar can fill: the area without its two border rows.
    pub max_height: usize,
    /// Whether bars are drawn with full blocks (wide bars) rather than thin
    /// lines.
    pub solid: bool,
}

/// Lays out `bars` bars in an area of `width` columns and `height` rows.
pub fn spectrum_layout(width: u16, height: u16, bars: usize) -> (layout: SpectrumLayout)
    requires
        bars > 0,
        height >= 2,
    ensures
        layout.bar_width == width as int / bars as int,
        layout.cell_width == (if layout.bar_width >= 1 {
            layout.bar_width
        } else {
            1
        }),
        layout.max_height == height - 2,
        layout.solid == (layout.bar_width >= 2),
{
    let bar_width = width as usize / bars;
    let max_height = height as usize - 2;
    let cell_width = if bar_width >= 1 {
        bar_width
    } else {
        1
    };
    SpectrumLayout { bar_width, cell_width, max_height, solid: bar_width >= 2 }
}

impl SpectrumLayout {
    /// The character a bar is drawn with.
    pub fn bar_glyph(&self) -> (glyph: &'static str)
        ensures
            glyph@ == (if self.solid {
                "█"@
            } else {
                "│"@
            }),
    {
        if self.solid {
            "█"
        } else {
            "│"
        }
    }
}

/// Whether row `row` (counted from the bottom) of a bar whose magnitude
/// reaches `level` rows is filled, the bar being cut at `max_height` rows.
pub fn bar_fills_row(row: usize, level: usize, max_height: usize) -> (filled: bool)
    ensures
        filled == (row < level && row < max_height),
{
    let height = if level < max_height {
        level
    } else {
        max_height
    };
    row < height
}

} // verus!
