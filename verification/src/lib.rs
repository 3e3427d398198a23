//! Focus-driven display saturation: the state-tracking engine.
//!
//! The engine keeps a model of the open windows of a compositor session, which of
//! them has input focus and which displays it occupies. From that model and a set
//! of title filters it derives the displays that should carry a saturation
//! transform, and from one dispatch cycle to the next it computes which displays
//! gain the transform and which lose it.
//!
//! Everything here works on plain values. The caller owns the connection to the
//! compositor, turns protocol objects into [`WindowId`] and [`DisplayId`], feeds
//! notifications in, and carries the resulting transform commands out.

pub mod ids;
pub mod diff;
pub mod display;
pub mod top_level;
pub mod state;
pub mod protocol;
pub mod notification;
pub mod transform;
pub mod startup;

pub use ids::{DisplayId, WindowId};
pub use diff::diff_lists;
pub use display::{Display, DisplayRegistry};
pub use top_level::TopLevelInfo;
pub use state::AppState;
pub use notification::Notification;
pub use transform::{dispatch_cycle, plan_transforms, title_matches, TransformCommand};
pub use startup::{DispatchState, Global, GlobalAction, InitAppState, StartupError};
