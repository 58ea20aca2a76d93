//! Named boolean slots with an activation flag and a timestamped history.
//!
//! An [`XTState`] is set up once with a set of slot identifiers, all false.
//! Each successful update sets one slot, appends `(identifier, value, millis)`
//! to the history, and recomputes `activated`: true exactly when the table is
//! non-empty and every slot holds `true`.

mod clock;
pub mod laws;
pub mod model;
pub mod state;

pub use model::{XTError, XTStateView};
pub use state::XTState;
