//! Terminal input and the actions it asks for.
use vstd::prelude::*;

use crate::action::Action;

verus! {

/// No modifier key held.
pub const MOD_NONE: u8 = 0b0000_0000;

/// The Control modifier bit.
pub const MOD_CONTROL: u8 = 0b0000_0010;

/// A key, as the terminal reports it; keys that no binding names are
/// `Other`.
#[derive(Debug, Clone, Copy, PartialEq, Eq, Structural)]
pub enum Key {
    Char(char),
    Enter,
    Esc,
    Backspace,
    Up,
    Down,
    Home,
    End,
    Other,
}

/// A key press: the key and the bits of the modifier keys held with it.
#[derive(Debug, Clone, Copy, PartialEq, Eq, Structural)]
pub struct KeyPress {
    pub code: Key,
    pub modifiers: u8,
}

/// An input event of the terminal.
#[derive(Debug, Clone, Copy, PartialEq, Eq, Structural)]
pub enum InputEvent {
    Key(KeyPress),
    Resize(u16, u16),
    /// Mouse, focus and paste events.
    Other,
}

/// The action that the character key `c`, held with the modifier bits
/// `mods`, asks for: `q` alone and Ctrl-`c` quit, `s` alone starts, `c`
/// alone changes the label; the other bindings ignore the modifiers, and any
/// other character is typed into the edit box.
pub open spec fn char_action(c: char, mods: u8) -> Action {
    if (c == 'q' && mods == MOD_NONE) || (c == 'c' && mods == MOD_CONTROL) {
        Action::Quit
    } else if c == '?' {
        Action::ShowHelp
    } else if c == 'j' {
        Action::MoveDown
    } else if c == 'k' {
        Action::MoveUp
    } else if c == 'g' {
        Action::MoveTop
    } else if c == 'G' {
        Action::MoveBottom
    } else if c == '1' {
        Action::SwitchToQubeManager
    } else if c == '2' {
        Action::SwitchToServiceManager
    } else if c == '3' {
        Action::SwitchToTemplateManager
    } else if c == '4' {
        Action::SwitchToWhonixManager
    } else if c == '5' {
        Action::SwitchToDisposableManager
    } else if c == '6' {
        Action::SwitchToAll
    } else if c == 's' && mods == MOD_NONE {
        Action::StartSelected
    } else if c == 'S' {
        Action::ShutdownSelected
    } else if c == 'K' {
        Action::KillSelected
    } else if c == 'p' {
        Action::PauseSelected
    } else if c == 't' {
        Action::OpenTerminal
    } else if c == 'd' {
        Action::DeleteSelected
    } else if c == 'n' {
        Action::ChangeNetvm
    } else if c == 'c' && mods == MOD_NONE {
        Action::ChangeLabel
    } else if c == 'e' {
        Action::EditProperty
    } else if c == 'y' {
        Action::Confirm
    } else {
        Action::EditChar(c)
    }
}

/// The action that the key press `k` asks for, if any. Enter asks to
/// submit; the application takes that as opening the detail popup where no
/// edit box is open.
pub open spec fn key_action(k: KeyPress) -> Option<Action> {
    match k.code {
        Key::Char(c) => Some(char_action(c, k.modifiers)),
        Key::Esc => Some(Action::Cancel),
        Key::Enter => Some(Action::EditSubmit),
        Key::Down => Some(Action::MoveDown),
        Key::Up => Some(Action::MoveUp),
        Key::Home => Some(Action::MoveTop),
        Key::End => Some(Action::MoveBottom),
        Key::Backspace => Some(Action::EditBackspace),
        Key::Other => None,
    }
}

/// The action that an input event asks for: key presses go by the key map,
/// other events ask for nothing.
pub fn translate(event: InputEvent) -> (r: Option<Action>)
    ensures
        r == match event {
            InputEvent::Key(k) => key_action(k),
            _ => None,
        },
{
    match event {
        InputEvent::Key(key) => translate_key(key),
        _ => None,
    }
}

/// The action that the character key `c` with the modifier bits `mods`
/// asks for.
fn translate_char(c: char, mods: u8) -> (r: Action)
    ensures
        r == char_action(c, mods),
{
    match c {
        'q' if mods == MOD_NONE => Action::Quit,
        'c' if mods == MOD_CONTROL => Action::Quit,
        '?' => Action::ShowHelp,
        // Navigation (vim keys; the arrows are keys of their own)
        'j' => Action::MoveDown,
        'k' => Action::MoveUp,
        'g' => Action::MoveTop,
        'G' => Action::MoveBottom,
        // Tabs
        '1' => Action::SwitchToQubeManager,
        '2' => Action::SwitchToServiceManager,
        '3' => Action::SwitchToTemplateManager,
        '4' => Action::SwitchToWhonixManager,
        '5' => Action::SwitchToDisposableManager,
        '6' => Action::SwitchToAll,
        // Operations on the selected qube
        's' if mods == MOD_NONE => Action::StartSelected,
        'S' => Action::ShutdownSelected,
        'K' => Action::KillSelected,
        'p' => Action::PauseSelected,
        't' => Action::OpenTerminal,
        'd' => Action::DeleteSelected,
        'n' => Action::ChangeNetvm,
        'c' if mods == MOD_NONE => Action::ChangeLabel,
        'e' => Action::EditProperty,
        // Confirmation
        'y' => Action::Confirm,
        // Typed into the edit box
        _ => Action::EditChar(c),
    }
}

/// The action that the key press `key` asks for, if any.
pub fn translate_key(key: KeyPress) -> (r: Option<Action>)
    ensures
        r == key_action(key),
{
    match key.code {
        Key::Char(c) => Some(translate_char(c, key.modifiers)),
        Key::Esc => Some(Action::Cancel),
        Key::Enter => Some(Action::EditSubmit),
        Key::Down => Some(Action::MoveDown),
        Key::Up => Some(Action::MoveUp),
        Key::Home => Some(Action::MoveTop),
        Key::End => Some(Action::MoveBottom),
        Key::Backspace => Some(Action::EditBackspace),
        Key::Other => None,
    }
}

/// The capital letters and the other bound keys act whatever modifier keys
/// are held with them: `S` shuts down, `K` kills, `G` goes to the bottom,
/// and so on; only `q`, `c` and `s` look at the modifiers.
pub proof fn lemma_bindings_ignore_modifiers(m: u8)
    ensures
        key_action(KeyPress { code: Key::Char('S'), modifiers: m }) == Some(Action::ShutdownSelected),
        key_action(KeyPress { code: Key::Char('K'), modifiers: m }) == Some(Action::KillSelected),
        key_action(KeyPress { code: Key::Char('G'), modifiers: m }) == Some(Action::MoveBottom),
        key_action(KeyPress { code: Key::Char('g'), modifiers: m }) == Some(Action::MoveTop),
        key_action(KeyPress { code: Key::Char('j'), modifiers: m }) == Some(Action::MoveDown),
        key_action(KeyPress { code: Key::Char('k'), modifiers: m }) == Some(Action::MoveUp),
        key_action(KeyPress { code: Key::Char('?'), modifiers: m }) == Some(Action::ShowHelp),
        key_action(KeyPress { code: Key::Char('p'), modifiers: m }) == Some(Action::PauseSelected),
        key_action(KeyPress { code: Key::Char('t'), modifiers: m }) == Some(Action::OpenTerminal),
        key_action(KeyPress { code: Key::Char('d'), modifiers: m }) == Some(Action::DeleteSelected),
        key_action(KeyPress { code: Key::Char('n'), modifiers: m }) == Some(Action::ChangeNetvm),
        key_action(KeyPress { code: Key::Char('e'), modifiers: m }) == Some(Action::EditProperty),
        key_action(KeyPress { code: Key::Char('y'), modifiers: m }) == Some(Action::Confirm),
        key_action(KeyPress { code: Key::Char('1'), modifiers: m }) == Some(Action::SwitchToQubeManager),
        key_action(KeyPress { code: Key::Char('2'), modifiers: m }) == Some(Action::SwitchToServiceManager),
        key_action(KeyPress { code: Key::Char('3'), modifiers: m }) == Some(Action::SwitchToTemplateManager),
        key_action(KeyPress { code: Key::Char('4'), modifiers: m }) == Some(Action::SwitchToWhonixManager),
        key_action(KeyPress { code: Key::Char('5'), modifiers: m }) == Some(Action::SwitchToDisposableManager),
        key_action(KeyPress { code: Key::Char('6'), modifiers: m }) == Some(Action::SwitchToAll),
        key_action(KeyPress { code: Key::Enter, modifiers: m }) == Some(Action::EditSubmit),
        key_action(KeyPress { code: Key::Esc, modifiers: m }) == Some(Action::Cancel),
        key_action(KeyPress { code: Key::Up, modifiers: m }) == Some(Action::MoveUp),
        key_action(KeyPress { code: Key::Down, modifiers: m }) == Some(Action::MoveDown),
        key_action(KeyPress { code: Key::Home, modifiers: m }) == Some(Action::MoveTop),
        key_action(KeyPress { code: Key::End, modifiers: m }) == Some(Action::MoveBottom),
        key_action(KeyPress { code: Key::Backspace, modifiers: m }) == Some(Action::EditBackspace),
{
}

/// A key other than `q`, `c` and `s` asks for the same action whatever
/// modifier keys are held with it.
pub proof fn lemma_same_action_any_modifiers(code: Key, m1: u8, m2: u8)
    requires
        code != Key::Char('q'),
        code != Key::Char('c'),
        code != Key::Char('s'),
    ensures
        key_action(KeyPress { code, modifiers: m1 }) == key_action(KeyPress { code, modifiers: m2 }),
{
}

/// `q` alone and Ctrl-`c` quit; `s` alone starts and `c` alone changes the
/// label; held with other modifiers the three letters are typed.
pub proof fn lemma_modifier_keys(m: u8)
    ensures
        key_action(KeyPress { code: Key::Char('q'), modifiers: MOD_NONE }) == Some(Action::Quit),
        key_action(KeyPress { code: Key::Char('c'), modifiers: MOD_CONTROL }) == Some(Action::Quit),
        key_action(KeyPress { code: Key::Char('s'), modifiers: MOD_NONE }) == Some(Action::StartSelected),
        key_action(KeyPress { code: Key::Char('c'), modifiers: MOD_NONE }) == Some(Action::ChangeLabel),
        m != MOD_NONE ==> key_action(KeyPress { code: Key::Char('q'), modifiers: m }) == Some(
            Action::EditChar('q'),
        ),
        m != MOD_NONE ==> key_action(KeyPress { code: Key::Char('s'), modifiers: m }) == Some(
            Action::EditChar('s'),
        ),
        m != MOD_NONE && m != MOD_CONTROL ==> key_action(KeyPress { code: Key::Char('c'), modifiers: m })
            == Some(Action::EditChar('c')),
{
}

/// A character that no binding names is typed into the edit box, whatever
/// modifier keys are held with it; other keys ask for nothing.
pub proof fn lemma_other_chars_are_typed(c: char, m: u8)
    requires
        c != 'q',
        c != 'c',
        c != 's',
        c != '?',
        c != 'j',
        c != 'k',
        c != 'g',
        c != 'G',
        c != '1',
        c != '2',
        c != '3',
        c != '4',
        c != '5',
        c != '6',
        c != 'S',
        c != 'K',
        c != 'p',
        c != 't',
        c != 'd',
        c != 'n',
        c != 'e',
        c != 'y',
    ensures
        key_action(KeyPress { code: Key::Char(c), modifiers: m }) == Some(Action::EditChar(c)),
        key_action(KeyPress { code: Key::Other, modifiers: m }) is None,
{
}

} // verus!
