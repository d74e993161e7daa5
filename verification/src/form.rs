//! The watch form: labelled text fields, the selection and editing state of
//! the form dialog, and the submission step that turns the form's fields
//! into a watch upsert.
use crate::dialog::{cycle_next, cycle_previous, ActionsDialogState, DialogChoice, InputKey};
use crate::duration::parse_duration_spec;
use crate::watch_store::{opt_seconds_view, upsert_watch_spec, WatchStore};
use vstd::prelude::*;

verus! {

/// Whether key presses land in the selected field or drive the action row.
pub enum InputMode {
    Normal,
    Editing,
}

/// One form field: a stable identifier, the label shown beside it, and the
/// text typed so far.
pub struct Field {
    pub id: String,
    pub label: String,
    pub value: String,
}

/// The mathematical value of one field.
pub ghost struct FieldView {
    pub id: Seq<char>,
    pub label: Seq<char>,
    pub value: Seq<char>,
}

impl View for Field {
    type V = FieldView;

    open spec fn view(&self) -> FieldView {
        FieldView { id: self.id@, label: self.label@, value: self.value@ }
    }
}

impl DeepView for Field {
    type V = FieldView;

    open spec fn deep_view(&self) -> FieldView {
        self.view()
    }
}

/// Relies on String::push: appends exactly the one character.
#[verifier::external_body]
fn string_push_char(s: &mut String, c: char)
    ensures
        final(s)@ == old(s)@.push(c),
{
    s.push(c);
}

/// Relies on String::pop: removes and returns the last character, or leaves
/// an empty string alone.
#[verifier::external_body]
fn string_pop_char(s: &mut String) -> (r: Option<char>)
    ensures
        match r {
            Some(c) => old(s)@.len() > 0 && c == old(s)@.last() && final(s)@ == old(
                s,
            )@.drop_last(),
            None => old(s)@.len() == 0 && final(s)@ == old(s)@,
        },
{
    s.pop()
}

/// The value of the last field carrying `id`, if any; a later field with the
/// same identifier shadows an earlier one.
pub open spec fn field_value(fields: Seq<FieldView>, id: Seq<char>) -> Option<Seq<char>>
    decreases fields.len(),
{
    if fields.len() == 0 {
        None
    } else if fields.last().id == id {
        Some(fields.last().value)
    } else {
        field_value(fields.drop_last(), id)
    }
}

/// Finds the value of the last field carrying `id`.
#[verifier::loop_isolation(false)]
pub fn find_field_value(fields: &Vec<Field>, id: &String) -> (r: Option<String>)
    ensures
        match r {
            Some(v) => field_value(fields.deep_view(), id@) == Some(v@),
            None => field_value(fields.deep_view(), id@) is None,
        },
{
    let mut result: Option<String> = None;
    let n = fields.len();
    for i in 0..n
        invariant
            n == fields.len(),
            match result {
                Some(v) => field_value(fields.deep_view().subrange(0, i as int), id@) == Some(v@),
                None => field_value(fields.deep_view().subrange(0, i as int), id@) is None,
            },
    {
        proof {
            assert(fields.deep_view().subrange(0, i + 1).drop_last() =~= fields.deep_view()
                .subrange(0, i as int));
            assert(fields.deep_view().subrange(0, i + 1).last() == fields.deep_view()[i as int]);
        }
        if fields[i].id == *id {
            result = Some(fields[i].value.clone());
        }
    }
    proof {
        assert(fields.deep_view().subrange(0, n as int) =~= fields.deep_view());
    }
    result
}

/// Submits the watch form at time `now`: reads the form's path and
/// expiration fields, parses the expiration ("30d", "24h", empty for none),
/// and upserts the watch. Returns whether the form held both fields; a form
/// without them changes nothing.
pub fn add_watch(store: &mut WatchStore, fields: &Vec<Field>, now: i64) -> (ok: bool)
    requires
        old(store).wf(),
    ensures
        final(store).wf(),
        ok == (field_value(fields.deep_view(), "path"@) is Some && field_value(
            fields.deep_view(),
            "expiration"@,
        ) is Some),
        ok ==> final(store)@ == upsert_watch_spec(
            old(store)@,
            field_value(fields.deep_view(), "path"@).unwrap(),
            opt_seconds_view(
                parse_duration_spec(field_value(fields.deep_view(), "expiration"@).unwrap()),
            ),
            now as int,
        ),
        !ok ==> final(store)@ == old(store)@,
{
    let path_field = find_field_value(fields, &String::from_str("path"));
    let expiration_field = find_field_value(fields, &String::from_str("expiration"));
    match (path_field, expiration_field) {
        (Some(path), Some(expiration_text)) => {
            let expiration = crate::duration::parse_duration(expiration_text.as_str());
            crate::watch_store::upsert_watch_at(store, path, expiration, now);
            true
        },
        _ => false,
    }
}

/// The state of the watch form dialog: its fields, which element (field or
/// action) is selected, and whether typing edits the selected field.
pub struct FormDialog {
    pub title: String,
    pub actions_state: ActionsDialogState,
    pub actions: Vec<String>,
    pub fields: Vec<Field>,
    pub field_state: ActionsDialogState,
    pub mode: InputMode,
    pub selected_element: usize,
}

/// The form state after moving the selection forward once: through the
/// fields first, then the action row, then wrapping to the first field.
pub open spec fn form_next_spec(d: FormDialog) -> FormDialog {
    let total = d.fields@.len() + d.actions@.len();
    let i = d.selected_element + 1;
    if i >= total {
        FormDialog {
            selected_element: 0,
            actions_state: ActionsDialogState { offset: 0, selected: None },
            field_state: ActionsDialogState {
                offset: d.field_state.offset,
                selected: Some(0usize),
            },
            mode: InputMode::Editing,
            ..d
        }
    } else if i >= d.fields@.len() {
        FormDialog {
            selected_element: (d.selected_element + 1) as usize,
            actions_state: ActionsDialogState {
                offset: d.actions_state.offset,
                selected: Some((d.selected_element + 1) as usize),
            },
            field_state: ActionsDialogState { offset: 0, selected: None },
            mode: InputMode::Normal,
            ..d
        }
    } else {
        FormDialog {
            selected_element: (d.selected_element + 1) as usize,
            actions_state: ActionsDialogState { offset: 0, selected: None },
            field_state: ActionsDialogState {
                offset: d.field_state.offset,
                selected: Some((d.selected_element + 1) as usize),
            },
            mode: InputMode::Editing,
            ..d
        }
    }
}

/// The form state after moving the selection backward once: from the first
/// element it wraps to the last action; leaving the action row re-enters the
/// fields.
pub open spec fn form_previous_spec(d: FormDialog) -> FormDialog {
    let total = d.fields@.len() + d.actions@.len();
    if d.selected_element == 0 {
        FormDialog {
            selected_element: (total - 1) as usize,
            actions_state: ActionsDialogState {
                offset: d.actions_state.offset,
                selected: Some((total - 1) as usize),
            },
            field_state: ActionsDialogState { offset: 0, selected: None },
            mode: InputMode::Editing,
            ..d
        }
    } else if d.selected_element - 1 >= d.fields@.len() {
        FormDialog {
            selected_element: (d.selected_element - 1) as usize,
            actions_state: ActionsDialogState {
                offset: d.actions_state.offset,
                selected: Some((d.selected_element - 1) as usize),
            },
            field_state: ActionsDialogState { offset: 0, selected: None },
            mode: InputMode::Normal,
            ..d
        }
    } else {
        FormDialog {
            selected_element: (d.selected_element - 1) as usize,
            actions_state: ActionsDialogState { offset: 0, selected: None },
            field_state: ActionsDialogState {
                offset: d.field_state.offset,
                selected: Some((d.selected_element - 1) as usize),
            },
            mode: InputMode::Editing,
            ..d
        }
    }
}

impl FormDialog {
    /// The selection stays inside the form: the selected element index is in
    /// range, a selected field exists, there is at least one field, and the
    /// action row is the confirm / cancel pair.
    pub open spec fn wf(&self) -> bool {
        &&& self.actions@.len() == 2
        &&& self.fields@.len() >= 1
        &&& self.fields@.len() + self.actions@.len() <= usize::MAX
        &&& self.selected_element < self.fields@.len() + self.actions@.len()
        &&& match self.field_state.selected {
            Some(i) => i < self.fields@.len(),
            None => true,
        }
    }

    /// An empty form: no fields yet, the first (future) field selected, in
    /// normal mode. The builders below fill in the title and the fields.
    pub fn new() -> (r: Self)
        ensures
            r.title@ == Seq::<char>::empty(),
            r.fields@.len() == 0,
            r.actions@.len() == 2,
            r.field_state.selected == Some(0usize),
            r.actions_state.selected is None,
            r.selected_element == 0,
            r.mode is Normal,
    {
        let mut state = ActionsDialogState::default();
        state.select(Some(0));
        FormDialog {
            title: String::new(),
            fields: Vec::new(),
            actions: vec![String::from_str("OK"), String::from_str("Cancel")],
            actions_state: ActionsDialogState::default(),
            field_state: state,
            mode: InputMode::Normal,
            selected_element: 0,
        }
    }

    /// Replaces the form's title.
    pub fn title(self, title: String) -> (r: Self)
        ensures
            r == (FormDialog { title: title, ..self }),
    {
        FormDialog { title, ..self }
    }

    /// Replaces the form's fields.
    pub fn fields(self, fields: Vec<Field>) -> (r: Self)
        ensures
            r == (FormDialog { fields: fields, ..self }),
    {
        FormDialog { fields, ..self }
    }

    /// Appends a character to the selected field's text; with no field
    /// selected, nothing changes.
    pub fn insert_char_current(&mut self, c: char)
        requires
            old(self).wf(),
        ensures
            final(self).wf(),
            match old(self).field_state.selected {
                None => *final(self) == *old(self),
                Some(i) => final(self).fields.deep_view() == old(self).fields.deep_view().update(
                    i as int,
                    FieldView {
                        id: old(self).fields.deep_view()[i as int].id,
                        label: old(self).fields.deep_view()[i as int].label,
                        value: old(self).fields.deep_view()[i as int].value.push(c),
                    },
                ) && final(self).title == old(self).title && final(self).actions == old(self).actions
                    && final(self).actions_state == old(self).actions_state
                    && final(self).field_state == old(self).field_state
                    && final(self).mode == old(self).mode
                    && final(self).selected_element == old(self).selected_element,
            },
    {
        let i: usize = match self.field_state.selected() {
            Some(i) => i,
            None => {
                return ;
            },
        };
        let mut value = self.fields[i].value.clone();
        string_push_char(&mut value, c);
        let updated = Field {
            id: self.fields[i].id.clone(),
            label: self.fields[i].label.clone(),
            value,
        };
        self.fields[i] = updated;
        proof {
            assert(self.fields.deep_view() =~= old(self).fields.deep_view().update(
                i as int,
                FieldView {
                    id: old(self).fields.deep_view()[i as int].id,
                    label: old(self).fields.deep_view()[i as int].label,
                    value: old(self).fields.deep_view()[i as int].value.push(c),
                },
            ));
        }
    }

    /// Removes the last character of the selected field's text; an empty
    /// field, or no selected field, stays as it is.
    pub fn remove_char_current(&mut self)
        requires
            old(self).wf(),
        ensures
            final(self).wf(),
            match old(self).field_state.selected {
                None => *final(self) == *old(self),
                Some(i) => final(self).fields.deep_view() == old(self).fields.deep_view().update(
                    i as int,
                    FieldView {
                        id: old(self).fields.deep_view()[i as int].id,
                        label: old(self).fields.deep_view()[i as int].label,
                        value: if old(self).fields.deep_view()[i as int].value.len() > 0 {
                            old(self).fields.deep_view()[i as int].value.drop_last()
                        } else {
                            old(self).fields.deep_view()[i as int].value
                        },
                    },
                ) && final(self).title == old(self).title && final(self).actions == old(self).actions
                    && final(self).actions_state == old(self).actions_state
                    && final(self).field_state == old(self).field_state
                    && final(self).mode == old(self).mode
                    && final(self).selected_element == old(self).selected_element,
            },
    {
        let i: usize = match self.field_state.selected() {
            Some(i) => i,
            None => {
                return ;
            },
        };
        let mut value = self.fields[i].value.clone();
        string_pop_char(&mut value);
        let updated = Field {
            id: self.fields[i].id.clone(),
            label: self.fields[i].label.clone(),
            value,
        };
        self.fields[i] = updated;
        proof {
            assert(self.fields.deep_view() =~= old(self).fields.deep_view().update(
                i as int,
                FieldView {
                    id: old(self).fields.deep_view()[i as int].id,
                    label: old(self).fields.deep_view()[i as int].label,
                    value: if old(self).fields.deep_view()[i as int].value.len() > 0 {
                        old(self).fields.deep_view()[i as int].value.drop_last()
                    } else {
                        old(self).fields.deep_view()[i as int].value
                    },
                },
            ));
        }
    }

    /// Moves the selection forward: fields first, then the action row, then
    /// back around to the first field.
    pub fn next(&mut self)
        requires
            old(self).wf(),
        ensures
            final(self).wf(),
            *final(self) == form_next_spec(*old(self)),
    {
        let i = self.selected_element + 1;
        if i >= self.fields.len() + self.actions.len() {
            self.selected_element = 0;
            self.actions_state.select(None);
            self.field_state.select(Some(0));
            self.mode = InputMode::Editing;
            return ;
        }
        if i >= self.fields.len() {
            self.selected_element = i;
            self.actions_state.select(Some(i));
            self.field_state.select(None);
            self.mode = InputMode::Normal;
            return ;
        }
        self.selected_element = i;
        self.actions_state.select(None);
        self.field_state.select(Some(i));
        self.mode = InputMode::Editing;
    }

    /// Moves the selection backward: from the front it wraps to the last
    /// action; leaving the action row re-enters the fields.
    pub fn previous(&mut self)
        requires
            old(self).wf(),
        ensures
            final(self).wf(),
            *final(self) == form_previous_spec(*old(self)),
    {
        if self.selected_element == 0 {
            self.selected_element = self.fields.len() + self.actions.len() - 1;
            self.actions_state.select(Some(self.selected_element));
            self.field_state.select(None);
            self.mode = InputMode::Editing;
            return ;
        }
        let i = self.selected_element - 1;
        if i >= self.fields.len() {
            self.selected_element = i;
            self.actions_state.select(Some(i));
            self.field_state.select(None);
            self.mode = InputMode::Normal;
            return ;
        }
        self.selected_element = i;
        self.actions_state.select(None);
        self.field_state.select(Some(i));
        self.mode = InputMode::Editing;
    }

    /// What pressing enter decides: nothing while no action is selected;
    /// otherwise the confirm action submits the form and the other dismisses
    /// it.
    pub fn enter(&self) -> (r: DialogChoice)
        ensures
            r == match self.actions_state.selected {
                None => DialogChoice::KeepOpen,
                Some(i) => if i % 2 == 0 {
                    DialogChoice::Confirm
                } else {
                    DialogChoice::Cancel
                },
            },
    {
        match self.actions_state.selected() {
            None => DialogChoice::KeepOpen,
            Some(i) => {
                if i % 2 == 0 {
                    DialogChoice::Confirm
                } else {
                    DialogChoice::Cancel
                }
            },
        }
    }

    /// Routes a key press: arrows move the selection; while editing, a
    /// character key types into the selected field and backspace deletes
    /// from it; anything else does nothing.
    pub fn process_input(&mut self, key: InputKey)
        requires
            old(self).wf(),
        ensures
            final(self).wf(),
            match key {
                InputKey::Up | InputKey::Left => *final(self) == form_previous_spec(*old(self)),
                InputKey::Down | InputKey::Right => *final(self) == form_next_spec(*old(self)),
                InputKey::Char(c) => match old(self).mode {
                    InputMode::Editing => match old(self).field_state.selected {
                        Some(i) => final(self).fields.deep_view()
                            == old(self).fields.deep_view().update(
                            i as int,
                            FieldView {
                                id: old(self).fields.deep_view()[i as int].id,
                                label: old(self).fields.deep_view()[i as int].label,
                                value: old(self).fields.deep_view()[i as int].value.push(c),
                            },
                        ),
                        None => *final(self) == *old(self),
                    },
                    InputMode::Normal => *final(self) == *old(self),
                },
                InputKey::Backspace => match old(self).mode {
                    InputMode::Editing => match old(self).field_state.selected {
                        Some(i) => final(self).fields.deep_view()
                            == old(self).fields.deep_view().update(
                            i as int,
                            FieldView {
                                id: old(self).fields.deep_view()[i as int].id,
                                label: old(self).fields.deep_view()[i as int].label,
                                value: if old(self).fields.deep_view()[i as int].value.len() > 0 {
                                    old(self).fields.deep_view()[i as int].value.drop_last()
                                } else {
                                    old(self).fields.deep_view()[i as int].value
                                },
                            },
                        ),
                        None => *final(self) == *old(self),
                    },
                    InputMode::Normal => *final(self) == *old(self),
                },
                _ => *final(self) == *old(self),
            },
    {
        match key {
            InputKey::Up => self.previous(),
            InputKey::Down => self.next(),
            InputKey::Left => self.previous(),
            InputKey::Right => self.next(),
            InputKey::Char(c) => {
                match self.mode {
                    InputMode::Editing => self.insert_char_current(c),
                    InputMode::Normal => (),
                }
            },
            InputKey::Backspace => {
                match self.mode {
                    InputMode::Editing => self.remove_char_current(),
                    InputMode::Normal => (),
                }
            },
            InputKey::Other => (),
        }
    }
}

} // verus!
