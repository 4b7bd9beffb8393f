//! What the screen shows, as plain values: colours, titles and messages,
//! and the placement of popups. Drawing them is left to the caller.
use vstd::prelude::*;

use crate::admin::QubeState;
use crate::app::{ActiveView, MessageLevel, Modal};
use crate::text::{decimal, push_decimal, push_str, str_eq};

verus! {

/// A colour of the screen.
#[derive(Debug, Clone, Copy, PartialEq, Eq, Structural)]
pub enum Shade {
    Red,
    /// The orange of the Qubes `orange` label (RGB 245, 121, 0).
    Orange,
    Yellow,
    Green,
    DarkGray,
    White,
    Blue,
    Magenta,
    Cyan,
}

/// The colour in which a qube's label is shown: its own colour for the
/// Qubes labels (gray, grey and black dark gray, purple magenta), cyan for
/// any other.
pub open spec fn label_shade(label: Seq<char>) -> Shade {
    if label == "red"@ {
        Shade::Red
    } else if label == "orange"@ {
        Shade::Orange
    } else if label == "yellow"@ {
        Shade::Yellow
    } else if label == "green"@ {
        Shade::Green
    } else if label == "gray"@ || label == "grey"@ || label == "black"@ {
        Shade::DarkGray
    } else if label == "white"@ {
        Shade::White
    } else if label == "blue"@ {
        Shade::Blue
    } else if label == "purple"@ {
        Shade::Magenta
    } else {
        Shade::Cyan
    }
}

/// The colour in which a qube's label is shown.
pub fn label_color(label: &str) -> (c: Shade)
    ensures
        c == label_shade(label@),
{
    if str_eq(label, "red") {
        Shade::Red
    } else if str_eq(label, "orange") {
        Shade::Orange
    } else if str_eq(label, "yellow") {
        Shade::Yellow
    } else if str_eq(label, "green") {
        Shade::Green
    } else if str_eq(label, "gray") || str_eq(label, "grey") || str_eq(label, "black") {
        Shade::DarkGray
    } else if str_eq(label, "white") {
        Shade::White
    } else if str_eq(label, "blue") {
        Shade::Blue
    } else if str_eq(label, "purple") {
        Shade::Magenta
    } else {
        Shade::Cyan
    }
}

/// The colour in which a qube's state is shown; none (the default) for an
/// unknown state.
pub fn state_color(state: &QubeState) -> (c: Option<Shade>)
    ensures
        c == match state {
            QubeState::Running => Some(Shade::Green),
            QubeState::Halted => Some(Shade::DarkGray),
            QubeState::Paused => Some(Shade::Yellow),
            QubeState::Transient => Some(Shade::Cyan),
            QubeState::Unknown(_) => None::<Shade>,
        },
{
    match state {
        QubeState::Running => Some(Shade::Green),
        QubeState::Halted => Some(Shade::DarkGray),
        QubeState::Paused => Some(Shade::Yellow),
        QubeState::Transient => Some(Shade::Cyan),
        QubeState::Unknown(_) => None,
    }
}

/// The colour of a status message of level `level`.
pub fn level_color(level: MessageLevel) -> (c: Shade)
    ensures
        c == match level {
            MessageLevel::Success => Shade::Green,
            MessageLevel::Warning => Shade::Yellow,
            MessageLevel::Error => Shade::Red,
            MessageLevel::Info => Shade::Cyan,
        },
{
    match level {
        MessageLevel::Success => Shade::Green,
        MessageLevel::Warning => Shade::Yellow,
        MessageLevel::Error => Shade::Red,
        MessageLevel::Info => Shade::Cyan,
    }
}

/// A tab of the tab bar. The application's views are the first four; the
/// disposables and all-qubes tabs are listed (keys 5 and 6) but no view of
/// the application shows them, so they are never the active tab.
#[derive(Debug, Clone, Copy, PartialEq, Eq, Structural)]
pub enum Tab {
    Qubes,
    Services,
    Templates,
    Whonix,
    Disposables,
    All,
}

/// The tab that shows the view `view`.
pub fn tab_of(view: ActiveView) -> (t: Tab)
    ensures
        t == match view {
            ActiveView::QubeManager => Tab::Qubes,
            ActiveView::ServiceManager => Tab::Services,
            ActiveView::TemplateManager => Tab::Templates,
            ActiveView::WhonixManager => Tab::Whonix,
        },
{
    match view {
        ActiveView::QubeManager => Tab::Qubes,
        ActiveView::ServiceManager => Tab::Services,
        ActiveView::TemplateManager => Tab::Templates,
        ActiveView::WhonixManager => Tab::Whonix,
    }
}

/// The title of the table on the tab `tab`.
pub fn table_title(tab: Tab) -> (t: &'static str)
    ensures
        t@ == match tab {
            Tab::Qubes => " Qubes "@,
            Tab::Services => " Services "@,
            Tab::Templates => " Templates "@,
            Tab::Whonix => " Whonix "@,
            Tab::Disposables => " Disposables "@,
            Tab::All => " All "@,
        },
{
    match tab {
        Tab::Qubes => " Qubes ",
        Tab::Services => " Services ",
        Tab::Templates => " Templates ",
        Tab::Whonix => " Whonix ",
        Tab::Disposables => " Disposables ",
        Tab::All => " All ",
    }
}

/// The tab bar: each tab with its key, in order.
pub fn tabs() -> (t: Vec<(Tab, &'static str)>)
    ensures
        t@.len() == 6,
        t@[0].0 == Tab::Qubes && t@[0].1@ == "[1] Qubes"@,
        t@[1].0 == Tab::Services && t@[1].1@ == "[2] Services"@,
        t@[2].0 == Tab::Templates && t@[2].1@ == "[3] Templates"@,
        t@[3].0 == Tab::Whonix && t@[3].1@ == "[4] Whonix"@,
        t@[4].0 == Tab::Disposables && t@[4].1@ == "[5] Disposables"@,
        t@[5].0 == Tab::All && t@[5].1@ == "[6] All"@,
{
    vec![
        (Tab::Qubes, "[1] Qubes"),
        (Tab::Services, "[2] Services"),
        (Tab::Templates, "[3] Templates"),
        (Tab::Whonix, "[4] Whonix"),
        (Tab::Disposables, "[5] Disposables"),
        (Tab::All, "[6] All"),
    ]
}

/// The question that a confirmation popup asks, if `modal` is one.
pub fn confirm_message(modal: &Modal) -> (m: Option<String>)
    ensures
        match modal {
            Modal::ConfirmDelete { vm_name } => m matches Some(t) && t@ == "Delete '"@ + vm_name@
                + "'? This cannot be undone. [y/N]"@,
            Modal::ConfirmKill { vm_name } => m matches Some(t) && t@ == "Force-kill '"@ + vm_name@
                + "'? [y/N]"@,
            _ => m is None,
        },
{
    match modal {
        Modal::ConfirmDelete { vm_name } => {
            let mut t = String::new();
            push_str(&mut t, "Delete '");
            push_str(&mut t, vm_name.as_str());
            push_str(&mut t, "'? This cannot be undone. [y/N]");
            Some(t)
        },
        Modal::ConfirmKill { vm_name } => {
            let mut t = String::new();
            push_str(&mut t, "Force-kill '");
            push_str(&mut t, vm_name.as_str());
            push_str(&mut t, "'? [y/N]");
            Some(t)
        },
        _ => None,
    }
}

/// The count of pending operations shown on the status line: ` ops: <n>
/// pending`, or nothing where there are none.
pub fn pending_text(n: usize) -> (t: String)
    ensures
        t@ == if n == 0 {
            Seq::<char>::empty()
        } else {
            " ops: "@ + decimal(n as nat) + " pending"@
        },
{
    let mut t = String::new();
    if n > 0 {
        push_str(&mut t, " ops: ");
        push_decimal(&mut t, n as u64);
        push_str(&mut t, " pending");
    }
    t
}

/// The room left on a line `width` wide once `used` columns are taken,
/// none where they fill it.
pub fn pad_width(width: u16, used: u16) -> (r: u16)
    ensures
        r == if width > used {
            width - used
        } else {
            0
        },
{
    if width > used {
        width - used
    } else {
        0
    }
}

/// The frame of the busy spinner at `millis` milliseconds into the current
/// second: one of four, each shown for a quarter of a second.
pub fn spinner_char(millis: u32) -> (c: char)
    ensures
        c == seq!['⠋', '⠙', '⠹', '⠸'][((millis / 250) % 4) as int],
{
    let idx = (millis / 250) % 4;
    if idx == 0 {
        '⠋'
    } else if idx == 1 {
        '⠙'
    } else if idx == 2 {
        '⠹'
    } else {
        '⠸'
    }
}

/// The height of the netvm picker for `n` candidates on a screen `height`
/// rows high: the candidates (their count cut to 16 bits) and six rows
/// around them, but no more than the screen less four rows.
pub fn picker_height(n: usize, height: u16) -> (h: u16)
    requires
        (n as u16) + 6 <= u16::MAX,
    ensures
        ({
            let want = (n as u16) + 6;
            let room = if height >= 4 {
                height - 4
            } else {
                0
            };
            h == if want < room {
                want
            } else {
                room
            }
        }),
{
    let want = (n as u16) + 6;
    let room = height.saturating_sub(4);
    if want < room {
        want
    } else {
        room
    }
}

} // verus!
