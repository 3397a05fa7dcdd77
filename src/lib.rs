//! A command bookmark store: parsing of the invocation, the text format of a
//! stored record, and the decisions that drive one invocation from start to
//! exit status.
pub mod dispatch;
pub mod intent;
pub mod record;
pub mod text;

pub use dispatch::{Event, Step};
pub use intent::{Action, BuildError, Saver};
