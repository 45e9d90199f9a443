//! Verified core of a native-messaging host that bridges a browser
//! extension and the local `gpg` executable.
//!
//! The host speaks the browser's native-messaging protocol (a four-byte
//! length header in native byte order followed by a JSON document),
//! reassembles requests that arrive in chunks, decides which `gpg`
//! invocation a request needs, interprets what `gpg` printed, and shapes
//! the JSON replies (splitting large results into chunk replies).
//! Everything that touches the process, the file system or the terminal
//! lives outside this crate.

pub mod assoc;
pub mod chunks;
pub mod frame;
pub mod gpg;
pub mod host;
pub mod install;
pub mod json;
pub mod listing;
pub mod reply;
pub mod text;
