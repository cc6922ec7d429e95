//! Messaging protocol, worker routing, session bookkeeping, instance registry,
//! command-line role selection and the sandboxed in-memory file operations of
//! the skiddo JavaScript runtime.

pub mod args;
pub mod ext;
pub mod instance;
pub mod manager;
pub mod memfs;
pub mod message;
pub mod text;
pub mod worker;
