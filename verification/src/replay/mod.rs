//! Replay of recorded sessions through a mock backend: event conversion and
//! the step-by-step decisions of the mock. The socket is driven by the
//! application.
pub mod error;
pub mod jsonl;
pub mod mock;

pub use error::ReplayError;
pub use jsonl::{check_header, LoadedSession};
pub use mock::{event_to_item, item_summary, mock_step, MockAction};
