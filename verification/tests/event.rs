use qubes_tui::action::Action;
use qubes_tui::event::{translate, InputEvent, Key, KeyPress, MOD_CONTROL, MOD_NONE};

fn key(code: Key, mods: u8) -> InputEvent {
    InputEvent::Key(KeyPress { code, modifiers: mods })
}

fn press(code: Key) -> Option<Action> {
    translate(key(code, MOD_NONE))
}

#[test]
fn quit_and_ctrl_c() {
    assert!(matches!(press(Key::Char('q')), Some(Action::Quit)));
    assert!(matches!(translate(key(Key::Char('c'), MOD_CONTROL)), Some(Action::Quit)));
}

#[test]
fn navigation_keys() {
    assert!(matches!(press(Key::Char('j')), Some(Action::MoveDown)));
    assert!(matches!(press(Key::Down), Some(Action::MoveDown)));
    assert!(matches!(press(Key::Char('k')), Some(Action::MoveUp)));
    assert!(matches!(press(Key::Up), Some(Action::MoveUp)));
    assert!(matches!(press(Key::Char('g')), Some(Action::MoveTop)));
    assert!(matches!(press(Key::Home), Some(Action::MoveTop)));
    assert!(matches!(press(Key::Char('G')), Some(Action::MoveBottom)));
    assert!(matches!(press(Key::End), Some(Action::MoveBottom)));
}

#[test]
fn tab_switching_keys() {
    assert!(matches!(press(Key::Char('1')), Some(Action::SwitchToQubeManager)));
    assert!(matches!(press(Key::Char('2')), Some(Action::SwitchToServiceManager)));
    assert!(matches!(press(Key::Char('3')), Some(Action::SwitchToTemplateManager)));
    assert!(matches!(press(Key::Char('4')), Some(Action::SwitchToWhonixManager)));
    assert!(matches!(press(Key::Char('5')), Some(Action::SwitchToDisposableManager)));
    assert!(matches!(press(Key::Char('6')), Some(Action::SwitchToAll)));
}

#[test]
fn vm_operation_keys() {
    assert!(matches!(press(Key::Char('s')), Some(Action::StartSelected)));
    assert!(matches!(press(Key::Char('S')), Some(Action::ShutdownSelected)));
    assert!(matches!(press(Key::Char('K')), Some(Action::KillSelected)));
    assert!(matches!(press(Key::Char('p')), Some(Action::PauseSelected)));
    assert!(matches!(press(Key::Char('t')), Some(Action::OpenTerminal)));
    assert!(matches!(press(Key::Char('d')), Some(Action::DeleteSelected)));
    assert!(matches!(press(Key::Char('n')), Some(Action::ChangeNetvm)));
    assert!(matches!(press(Key::Char('c')), Some(Action::ChangeLabel)));
    assert!(matches!(press(Key::Char('e')), Some(Action::EditProperty)));
}

#[test]
fn misc_keys() {
    assert!(matches!(press(Key::Esc), Some(Action::Cancel)));
    assert!(matches!(press(Key::Enter), Some(Action::EditSubmit)));
    assert!(matches!(press(Key::Char('?')), Some(Action::ShowHelp)));
    assert!(matches!(press(Key::Char('y')), Some(Action::Confirm)));
    assert!(matches!(press(Key::Backspace), Some(Action::EditBackspace)));
}

#[test]
fn printable_char_becomes_edit_char() {
    assert!(matches!(press(Key::Char('x')), Some(Action::EditChar('x'))));
}

#[test]
fn non_key_event_returns_none() {
    assert!(translate(InputEvent::Resize(80, 24)).is_none());
}

#[test]
fn modified_letters_are_typed() {
    // 's' and 'q' only act alone; with Control held they are typed.
    assert!(matches!(translate(key(Key::Char('s'), MOD_CONTROL)), Some(Action::EditChar('s'))));
    assert!(matches!(translate(key(Key::Char('q'), MOD_CONTROL)), Some(Action::EditChar('q'))));
    assert!(press(Key::Other).is_none());
    assert!(translate(InputEvent::Other).is_none());
}
