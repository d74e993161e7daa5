use dinha::dialog::{ActionsDialogState, Dialog, DialogChoice, InputKey};
use dinha::form::{Field, FormDialog, InputMode};

fn watch_form() -> FormDialog {
    FormDialog::new().title(String::from("New Watch")).fields(vec![
        Field {
            id: String::from("path"),
            label: String::from("Path (e.g. /home/user):"),
            value: String::from("/home/user"),
        },
        Field {
            id: String::from("expiration"),
            label: String::from("Expiration (e.g. 30d, 24h...):"),
            value: String::new(),
        },
    ])
}

#[test]
fn actions_state_select_and_read_back() {
    let mut state = ActionsDialogState::default();
    assert_eq!(state.selected(), None);
    state.select(Some(1));
    assert_eq!(state.selected(), Some(1));
    state.select(None);
    assert_eq!(state.selected(), None);
    assert_eq!(state.offset, 0);
}

#[test]
fn dialog_selection_wraps_both_ways() {
    let mut d = Dialog::new(String::from("Unwatch"), String::from("Sure?"), String::from("/a"));
    d.next();
    assert_eq!(d.actions_state.selected(), Some(0));
    d.next();
    assert_eq!(d.actions_state.selected(), Some(1));
    d.next();
    assert_eq!(d.actions_state.selected(), Some(0));
    d.previous();
    assert_eq!(d.actions_state.selected(), Some(1));
}

#[test]
fn dialog_enter_decides_by_selection() {
    let mut d = Dialog::new(String::from("Unwatch"), String::from("Sure?"), String::from("/a"));
    assert!(matches!(d.enter(), DialogChoice::KeepOpen));
    d.next();
    assert!(matches!(d.enter(), DialogChoice::Confirm));
    d.next();
    assert!(matches!(d.enter(), DialogChoice::Cancel));
}

#[test]
fn dialog_arrow_keys_move_selection() {
    let mut d = Dialog::new(String::from("t"), String::from("c"), 0u32);
    d.process_input(InputKey::Down);
    assert_eq!(d.actions_state.selected(), Some(0));
    d.process_input(InputKey::Right);
    assert_eq!(d.actions_state.selected(), Some(1));
    d.process_input(InputKey::Up);
    assert_eq!(d.actions_state.selected(), Some(0));
    d.process_input(InputKey::Char('q'));
    assert_eq!(d.actions_state.selected(), Some(0));
}

#[test]
fn form_navigation_walks_fields_then_actions_then_wraps() {
    let mut f = watch_form();
    assert_eq!(f.field_state.selected(), Some(0));
    f.next();
    assert_eq!(f.field_state.selected(), Some(1));
    assert!(matches!(f.mode, InputMode::Editing));
    f.next();
    assert_eq!(f.field_state.selected(), None);
    assert_eq!(f.actions_state.selected(), Some(2));
    assert!(matches!(f.mode, InputMode::Normal));
    f.next();
    assert_eq!(f.actions_state.selected(), Some(3));
    f.next();
    assert_eq!(f.field_state.selected(), Some(0));
    assert!(matches!(f.mode, InputMode::Editing));
}

#[test]
fn form_previous_wraps_to_last_action() {
    let mut f = watch_form();
    f.previous();
    assert_eq!(f.actions_state.selected(), Some(3));
    assert_eq!(f.field_state.selected(), None);
    f.previous();
    assert_eq!(f.actions_state.selected(), Some(2));
    f.previous();
    assert_eq!(f.field_state.selected(), Some(1));
}

#[test]
fn typing_edits_the_selected_field() {
    let mut f = watch_form();
    f.next();
    // The expiration field is selected and editable: type a duration.
    f.process_input(InputKey::Char('3'));
    f.process_input(InputKey::Char('0'));
    f.process_input(InputKey::Char('d'));
    assert_eq!(f.fields[1].value, "30d");
    f.process_input(InputKey::Backspace);
    assert_eq!(f.fields[1].value, "30");
    assert_eq!(f.fields[0].value, "/home/user");
}

#[test]
fn backspace_on_empty_field_is_noop() {
    let mut f = watch_form();
    f.next();
    assert_eq!(f.fields[1].value, "");
    f.process_input(InputKey::Backspace);
    assert_eq!(f.fields[1].value, "");
}

#[test]
fn keys_outside_editing_mode_do_not_type() {
    let mut f = watch_form();
    f.next();
    f.next();
    // The action row is selected: normal mode swallows characters.
    assert!(matches!(f.mode, InputMode::Normal));
    f.process_input(InputKey::Char('x'));
    assert_eq!(f.fields[0].value, "/home/user");
    assert_eq!(f.fields[1].value, "");
}

#[test]
fn form_enter_decides_by_action_parity() {
    let mut f = watch_form();
    assert!(matches!(f.enter(), DialogChoice::KeepOpen));
    f.next();
    f.next();
    assert_eq!(f.actions_state.selected(), Some(2));
    assert!(matches!(f.enter(), DialogChoice::Confirm));
    f.next();
    assert!(matches!(f.enter(), DialogChoice::Cancel));
}
