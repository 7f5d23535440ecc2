//! Reads recognised voice intents, one JSON record per line, and decides which
//! intent names are forwarded to a remote listener.
//!
//! The library holds the decisions: extraction of the intent's name and
//! confidence from a parsed record, the confidence gate, the wire framing, and
//! the relay that stops at the first error. Reading input and writing to the
//! connection are left to the caller.

pub mod gate;
pub mod intent;
pub mod json;
pub mod relay;

pub use gate::confidence_qualifies;
pub use intent::{extract_intent, parse_intent, IntentError, IntentRecord};
pub use relay::{frame_intent, Action, Relay};
