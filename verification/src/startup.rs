//! Start-up: discovering the capabilities that the engine cannot run without.
//!
//! While the compositor announces its globals the dispatch loop is awaiting
//! capabilities. It needs two of them, the colour transform control and the
//! toplevel manager, and it binds every display that is announced. Once both
//! have been seen it starts running; if either is missing after the first
//! round-trip it never does.

use vstd::prelude::*;
use vstd::string::StringExecFns;

verus! {

/// Interface name of the colour transform control capability.
pub const HYPERLAND_CTM_CONTROL_MANAGER_IFACE: &'static str = "hyprland_ctm_control_manager_v1";

/// Interface name of the toplevel (window) enumeration capability.
pub const ZWLR_TOP_LEVEL_MANAGER_IFACE: &'static str = "zwlr_foreign_toplevel_manager_v1";

/// Interface name of a display.
pub const WL_OUTPUT_IFACE: &'static str = "wl_output";

/// What is reported when the colour transform control is missing.
pub const MISSING_CTM_CONTROL_MANAGER: &'static str =
    "Couldn't find Hyprland CTM control manager interface. Are you actually running Hyprland?";

/// What is reported when the toplevel manager is missing.
pub const MISSING_TOP_LEVEL_MANAGER: &'static str =
    "Couldn't find wlr top level manager interface";

/// A global as the compositor announced it.
#[derive(Debug, Clone, PartialEq, Eq)]
pub struct Global {
    pub name: u32,
    pub interface: String,
    pub version: u32,
}

impl Global {
    /// The global announced under `name`, with its interface and version.
    pub fn new(name: u32, interface: String, version: u32) -> (global: Self)
        ensures
            global.name == name,
            global.interface == interface,
            global.version == version,
    {
        Self { name, interface, version }
    }
}

/// What has been discovered of the required capabilities so far.
#[derive(Debug)]
pub struct InitAppState {
    /// The colour transform control, once announced.
    pub ctm_manager: Option<Global>,
    /// The toplevel manager, once announced. It is bound only when start-up ends,
    /// so that every display is bound before the first window is reported.
    pub top_level_manager_global: Option<Global>,
}

impl Default for InitAppState {
    fn default() -> (init: Self)
        ensures
            init.ctm_manager is None,
            init.top_level_manager_global is None,
    {
        Self { ctm_manager: None, top_level_manager_global: None }
    }
}

/// What the caller has to do about a global that was announced.
#[derive(Clone, Copy, Debug, PartialEq, Eq, Structural)]
pub enum GlobalAction {
    /// Bind the display.
    BindOutput,
    /// Bind the colour transform control.
    BindCtmControlManager,
    /// Nothing yet: the toplevel manager was noted and is bound when start-up ends.
    DeferTopLevelManager,
    /// Nothing: the engine has no use for this global.
    Ignore,
}

/// Why the dispatch loop could not start.
#[derive(Clone, Copy, Debug, PartialEq, Eq, Structural)]
pub enum StartupError {
    /// The compositor did not announce the colour transform control.
    MissingCtmControlManager,
    /// The compositor did not announce the toplevel manager.
    MissingTopLevelManager,
}

impl StartupError {
    /// The diagnostic text for the error as a sequence of characters.
    pub open spec fn spec_message(self) -> Seq<char> {
        match self {
            StartupError::MissingCtmControlManager => MISSING_CTM_CONTROL_MANAGER@,
            StartupError::MissingTopLevelManager => MISSING_TOP_LEVEL_MANAGER@,
        }
    }

    /// The diagnostic text that names the missing capability.
    pub fn message(&self) -> (text: String)
        ensures
            text@ == self.spec_message(),
    {
        match self {
            StartupError::MissingCtmControlManager => String::from_str(
                MISSING_CTM_CONTROL_MANAGER,
            ),
            StartupError::MissingTopLevelManager => String::from_str(MISSING_TOP_LEVEL_MANAGER),
        }
    }
}

/// The state of the dispatch loop.
#[derive(Debug)]
pub enum DispatchState {
    /// The globals are being announced; the capabilities found so far are kept.
    AwaitingCapabilities(InitAppState),
    /// Both capabilities were found; notifications are being dispatched.
    Running,
}

/// What is to be done about a global with interface `interface`, announced
/// while the loop is awaiting capabilities (`awaiting`) or after.
pub open spec fn action_for(awaiting: bool, interface: Seq<char>) -> GlobalAction {
    if interface == WL_OUTPUT_IFACE@ {
        GlobalAction::BindOutput
    } else if awaiting && interface == HYPERLAND_CTM_CONTROL_MANAGER_IFACE@ {
        GlobalAction::BindCtmControlManager
    } else if awaiting && interface == ZWLR_TOP_LEVEL_MANAGER_IFACE@ {
        GlobalAction::DeferTopLevelManager
    } else {
        GlobalAction::Ignore
    }
}

/// Whether `text` is the interface name `name`.
fn is_interface(text: &String, name: &str) -> (same: bool)
    ensures
        same == (text@ == name@),
{
    *text == String::from_str(name)
}

impl DispatchState {
    /// Whether the loop is still awaiting capabilities.
    pub open spec fn awaiting(&self) -> bool {
        self is AwaitingCapabilities
    }

    /// What has been discovered so far, while capabilities are awaited.
    pub open spec fn discovered(&self) -> InitAppState {
        self->AwaitingCapabilities_0
    }

    /// The state in which a dispatch loop begins: awaiting capabilities, none
    /// discovered yet.
    pub fn new() -> (state: Self)
        ensures
            state matches DispatchState::AwaitingCapabilities(init) && init.ctm_manager is None
                && init.top_level_manager_global is None,
    {
        DispatchState::AwaitingCapabilities(InitAppState::default())
    }

    /// Whether the loop is still awaiting capabilities.
    pub fn is_awaiting_capabilities(&self) -> (awaiting: bool)
        ensures
            awaiting == self.awaiting(),
    {
        match self {
            DispatchState::AwaitingCapabilities(_) => true,
            DispatchState::Running => false,
        }
    }

    /// The state after `global` was announced: while capabilities are awaited, a
    /// colour transform control or a toplevel manager is noted, the later
    /// announcement replacing an earlier one; nothing else changes anything.
    pub open spec fn after_global(self, global: Global) -> DispatchState {
        match self {
            DispatchState::AwaitingCapabilities(init) => match action_for(true, global.interface@) {
                GlobalAction::BindCtmControlManager => DispatchState::AwaitingCapabilities(
                    InitAppState { ctm_manager: Some(global), ..init },
                ),
                GlobalAction::DeferTopLevelManager => DispatchState::AwaitingCapabilities(
                    InitAppState { top_level_manager_global: Some(global), ..init },
                ),
                _ => self,
            },
            DispatchState::Running => self,
        }
    }

    /// Takes note of a global that the compositor announced and says what the
    /// caller has to do about it.
    pub fn handle_global(&mut self, global: Global) -> (action: GlobalAction)
        ensures
            action == action_for(old(self).awaiting(), global.interface@),
            *final(self) == old(self).after_global(global),
    {
        if is_interface(&global.interface, WL_OUTPUT_IFACE) {
            return GlobalAction::BindOutput;
        }
        match self {
            DispatchState::AwaitingCapabilities(init) => {
                if is_interface(&global.interface, HYPERLAND_CTM_CONTROL_MANAGER_IFACE) {
                    init.ctm_manager = Some(global);
                    GlobalAction::BindCtmControlManager
                } else if is_interface(&global.interface, ZWLR_TOP_LEVEL_MANAGER_IFACE) {
                    init.top_level_manager_global = Some(global);
                    GlobalAction::DeferTopLevelManager
                } else {
                    GlobalAction::Ignore
                }
            },
            DispatchState::Running => GlobalAction::Ignore,
        }
    }

    /// Ends start-up after the first round-trip. With both capabilities found
    /// the loop starts running, and the toplevel manager that is now to be bound
    /// is handed out. With either missing the loop does not start: the error
    /// names the colour transform control if that is missing, the toplevel
    /// manager otherwise, and the state stays as it is.
    pub fn start(&mut self) -> (outcome: Result<Global, StartupError>)
        requires
            old(self).awaiting(),
        ensures
            match outcome {
                Ok(manager) => {
                    &&& old(self).discovered().ctm_manager is Some
                    &&& old(self).discovered().top_level_manager_global == Some(manager)
                    &&& !final(self).awaiting()
                },
                Err(StartupError::MissingCtmControlManager) => {
                    &&& old(self).discovered().ctm_manager is None
                    &&& *final(self) == *old(self)
                },
                Err(StartupError::MissingTopLevelManager) => {
                    &&& old(self).discovered().ctm_manager is Some
                    &&& old(self).discovered().top_level_manager_global is None
                    &&& *final(self) == *old(self)
                },
            },
    {
        let (has_ctm, has_manager) = match self {
            DispatchState::AwaitingCapabilities(init) => (
                init.ctm_manager.is_some(),
                init.top_level_manager_global.is_some(),
            ),
            DispatchState::Running => (false, false),
        };
        if !has_ctm {
            return Err(StartupError::MissingCtmControlManager);
        }
        if !has_manager {
            return Err(StartupError::MissingTopLevelManager);
        }
        let mut taken = DispatchState::Running;
        core::mem::swap(self, &mut taken);
        match taken {
            DispatchState::AwaitingCapabilities(init) => match init.top_level_manager_global {
                Some(manager) => Ok(manager),
                None => Err(StartupError::MissingTopLevelManager),
            },
            DispatchState::Running => Err(StartupError::MissingCtmControlManager),
        }
    }
}

} // verus!
