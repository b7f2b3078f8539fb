//! A minimal multi-client message relay core.
//!
//! Every client session feeds bytes in; each read's bytes become one message,
//! the message is appended to one shared, append-only history, and the session
//! is answered with the rendered snapshot of the whole history. The modules
//! here hold that core: the history log, the byte-to-message and
//! snapshot-to-wire codec, and the per-session protocol step.

pub mod codec;
pub mod history;
pub mod session;
