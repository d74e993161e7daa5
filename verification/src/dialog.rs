//! Pure state of the terminal dialogs: which action or field is selected and
//! how key presses move the selection. Rendering and the database callbacks
//! live outside the library; these types only decide.
use vstd::prelude::*;

verus! {

/// A key press, reduced to what the dialogs react to.
pub enum InputKey {
    Up,
    Down,
    Left,
    Right,
    Char(char),
    Backspace,
    Other,
}

/// What pressing enter on a dialog decides: keep it open, run its action, or
/// dismiss it.
pub enum DialogChoice {
    KeepOpen,
    Confirm,
    Cancel,
}

/// Selection state of a horizontal action row (confirm / cancel).
#[derive(Debug, Clone)]
pub struct ActionsDialogState {
    pub offset: usize,
    pub selected: Option<usize>,
}

impl Default for ActionsDialogState {
    fn default() -> (r: Self)
        ensures
            r.offset == 0,
            r.selected is None,
    {
        ActionsDialogState { offset: 0, selected: None }
    }
}

impl ActionsDialogState {
    /// The currently selected action index, if any.
    pub fn selected(&self) -> (r: Option<usize>)
        ensures
            r == self.selected,
    {
        self.selected
    }

    /// Moves the selection; clearing it also resets the scroll offset.
    pub fn select(&mut self, index: Option<usize>)
        ensures
            final(self).selected == index,
            final(self).offset == if index is None {
                0usize
            } else {
                old(self).offset
            },
    {
        self.selected = index;
        if index.is_none() {
            self.offset = 0;
        }
    }
}

/// The action index selected after moving forward once through `len`
/// actions, wrapping at the end; an empty selection starts at the front.
pub open spec fn cycle_next(sel: Option<usize>, len: int) -> int {
    match sel {
        Some(i) => if i as int >= len - 1 {
            0
        } else {
            i as int + 1
        },
        None => 0,
    }
}

/// The action index selected after moving backward once through `len`
/// actions, wrapping at the front; an empty selection starts at the front.
pub open spec fn cycle_previous(sel: Option<usize>, len: int) -> int {
    match sel {
        Some(i) => if i as int == 0 {
            len - 1
        } else {
            i as int - 1
        },
        None => 0,
    }
}

/// A confirmation dialog: a title, a line of content, the value the
/// confirmed action applies to, and a selectable row of actions. What the
/// confirmed action does is the caller's affair; the dialog only reports the
/// decision.
pub struct Dialog<T> {
    pub actions_state: ActionsDialogState,
    pub actions: Vec<String>,
    pub title: String,
    pub content: String,
    pub data: T,
}

impl<T> Dialog<T> {
    /// The selection always points at an existing action, and the action row
    /// is never empty.
    pub open spec fn wf(&self) -> bool {
        &&& self.actions@.len() >= 1
        &&& match self.actions_state.selected {
            Some(i) => i < self.actions@.len(),
            None => true,
        }
    }

    pub fn new(title: String, content: String, data: T) -> (r: Self)
        ensures
            r.title == title,
            r.content == content,
            r.data == data,
            r.actions@.len() == 2,
            r.actions_state.selected is None,
            r.wf(),
    {
        Dialog {
            title,
            actions: vec![String::from_str("OK"), String::from_str("Cancel")],
            actions_state: ActionsDialogState::default(),
            content,
            data,
        }
    }

    /// Moves the action selection forward by one, wrapping.
    pub fn next(&mut self)
        requires
            old(self).wf(),
        ensures
            final(self).wf(),
            final(self).actions_state.selected == Some(
                cycle_next(
                    old(self).actions_state.selected,
                    old(self).actions@.len() as int,
                ) as usize,
            ),
            final(self).actions == old(self).actions,
            final(self).title == old(self).title,
            final(self).content == old(self).content,
            final(self).data == old(self).data,
    {
        let i: usize = match self.actions_state.selected() {
            Some(i) => {
                if i >= self.actions.len() - 1 {
                    0
                } else {
                    i + 1
                }
            },
            None => 0,
        };
        self.actions_state.select(Some(i));
    }

    /// Moves the action selection backward by one, wrapping.
    pub fn previous(&mut self)
        requires
            old(self).wf(),
        ensures
            final(self).wf(),
            final(self).actions_state.selected == Some(
                cycle_previous(
                    old(self).actions_state.selected,
                    old(self).actions@.len() as int,
                ) as usize,
            ),
            final(self).actions == old(self).actions,
            final(self).title == old(self).title,
            final(self).content == old(self).content,
            final(self).data == old(self).data,
    {
        let i: usize = match self.actions_state.selected() {
            Some(i) => {
                if i == 0 {
                    self.actions.len() - 1
                } else {
                    i - 1
                }
            },
            None => 0,
        };
        self.actions_state.select(Some(i));
    }

    /// What pressing enter decides: nothing while no action is selected;
    /// otherwise the first of each action pair confirms and the second
    /// dismisses.
    pub fn enter(&self) -> (r: DialogChoice)
        ensures
            r == match self.actions_state.selected {
                None => DialogChoice::KeepOpen,
                Some(i) => if i % 2 == 0 {
                    DialogChoice::Confirm
                } else {
                    DialogChoice::Cancel
                },
            },
    {
        match self.actions_state.selected() {
            None => DialogChoice::KeepOpen,
            Some(i) => {
                if i % 2 == 0 {
                    DialogChoice::Confirm
                } else {
                    DialogChoice::Cancel
                }
            },
        }
    }

    /// Routes a key press: vertical and horizontal arrows move the
    /// selection; every other key does nothing.
    pub fn process_input(&mut self, key: InputKey)
        requires
            old(self).wf(),
        ensures
            final(self).wf(),
            final(self).actions == old(self).actions,
            final(self).title == old(self).title,
            final(self).content == old(self).content,
            final(self).data == old(self).data,
            match key {
                InputKey::Up | InputKey::Left => final(self).actions_state.selected == Some(
                    cycle_previous(
                        old(self).actions_state.selected,
                        old(self).actions@.len() as int,
                    ) as usize,
                ),
                InputKey::Down | InputKey::Right => final(self).actions_state.selected == Some(
                    cycle_next(
                        old(self).actions_state.selected,
                        old(self).actions@.len() as int,
                    ) as usize,
                ),
                _ => *final(self) == *old(self),
            },
    {
        match key {
            InputKey::Up => self.previous(),
            InputKey::Down => self.next(),
            InputKey::Left => self.previous(),
            InputKey::Right => self.next(),
            _ => (),
        }
    }
}

} // verus!
