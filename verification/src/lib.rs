//! Decision logic of a global dictation hotkey on X11.
//!
//! The listener watches one trigger key. Holding it records, releasing it
//! finishes, a quick second tap locks the recording until the next press, and
//! Escape cancels. Everything that talks to the X server, to a clock or to a
//! thread happens outside this crate; everything that is decided, looked up or
//! computed happens here.

pub mod effects;
pub mod error;
pub mod event;
pub mod gestures;
pub mod grab;
pub mod keymap;
pub mod keysym;
pub mod laws;
pub mod listener;
pub mod runs;
pub mod startup;
pub mod x11;

pub use error::{Context, InputError};
pub use event::{delivery_outcome, send_event, HotkeyEvent};
pub use grab::{is_grab_conflict, lock_variants, GrabReply, GrabStep, VariantGrabs};
pub use keymap::{keycode_count, num_lock_mask, Keymap, WatchedKeys};
pub use keysym::keysym;
pub use listener::{Action, Failure, Input, Listener};
pub use startup::{report_failure, startup_outcome, Report, StartError};
