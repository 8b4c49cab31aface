//! A content-addressed file-transfer pipeline: the rules that a watching
//! client and a processing server follow, apart from the I/O that carries
//! them out.

pub mod client;
pub mod framed_io;
pub mod hashing;
pub mod paths;
pub mod protocol;
pub mod server;
pub mod substitute;
pub mod text;

pub use hashing::FileDigest;
pub use paths::assemble_path;
pub use protocol::{FileSpec, Receipt};
pub use substitute::{replace_os_strings, Replacement};
