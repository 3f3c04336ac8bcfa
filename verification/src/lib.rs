//! Archive inspection and extraction rules: which format a path names, what a
//! listing or an extraction has to do for it, and where each entry goes.
//!
//! The library reads and writes no file. A caller hands it the text of a path,
//! whether a file is there, and the file's bytes where they are needed; it gets
//! back names, or the actions to perform on the file system.

pub mod codec;
pub mod error;
pub mod extract;
pub mod kind;
pub mod laws;
pub mod listing;
pub mod password;
pub mod paths;
pub mod retry;
pub mod stream;
