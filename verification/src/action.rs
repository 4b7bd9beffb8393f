//! What the application can be asked to do, and what it asks to be done.
use vstd::prelude::*;

use crate::admin::{AdminEvent, QubeInfo, QubeProperties};

verus! {

/// The kind of a pending operation on a qube.
#[derive(Debug, Clone, Copy)]
pub enum OpKind {
    Start,
    Shutdown,
    Kill,
    Pause,
    Create,
    Delete,
}

impl OpKind {
    /// The name of a kind of operation, as it is shown.
    pub open spec fn text(self) -> Seq<char> {
        match self {
            OpKind::Start => "Start"@,
            OpKind::Shutdown => "Shutdown"@,
            OpKind::Kill => "Kill"@,
            OpKind::Pause => "Pause"@,
            OpKind::Create => "Create"@,
            OpKind::Delete => "Delete"@,
        }
    }

    /// The name of the kind of operation, as it is shown.
    pub fn name(&self) -> (r: &str)
        ensures
            r@ == self.text(),
    {
        match self {
            OpKind::Start => "Start",
            OpKind::Shutdown => "Shutdown",
            OpKind::Kill => "Kill",
            OpKind::Pause => "Pause",
            OpKind::Create => "Create",
            OpKind::Delete => "Delete",
        }
    }
}

/// Side effects returned from App::update() that require spawning threads.
#[derive(Debug)]
pub enum SideEffect {
    FetchQubeList,
    FetchProperties(String),
    StartVm(String),
    ShutdownVm(String),
    KillVm(String),
    PauseVm(String),
    DeleteVm(String),
    OpenTerminal(String),
    SetProperty { vm: String, property: String, value: String },
}

/// All actions that can be dispatched — from keyboard input or background threads.
#[derive(Debug, Clone)]
pub enum Action {
    // Navigation
    MoveUp,
    MoveDown,
    MoveTop,
    MoveBottom,
    // View switching
    SwitchToQubeManager,
    SwitchToServiceManager,
    SwitchToTemplateManager,
    SwitchToWhonixManager,
    SwitchToDisposableManager,
    SwitchToAll,
    ShowHelp,
    HideHelp,
    ToggleDetail,
    Quit,
    Confirm,
    Cancel,
    // VM operations
    StartSelected,
    ShutdownSelected,
    KillSelected,
    PauseSelected,
    OpenTerminal,
    DeleteSelected,
    /// Open the netvm picker for the selected qube.
    ChangeNetvm,
    /// Open the label picker for the selected qube.
    ChangeLabel,
    /// Open the edit box for the highlighted property row.
    EditProperty,
    /// A printable character typed into the edit box.
    EditChar(char),
    /// Delete the last character of the edit box.
    EditBackspace,
    /// Confirm the edit (Enter).
    EditSubmit,
    // Results from background work
    QubeListLoaded(Vec<QubeInfo>),
    PropertiesLoaded { name: String, props: QubeProperties },
    OperationCompleted { op_id: u64 },
    OperationFailed { op_id: u64, error: String },
    EventReceived(AdminEvent),
    Tick,
}

} // verus!
