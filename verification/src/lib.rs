//! A recoverable trash can: files are moved under a dumpster directory that
//! mirrors their location relative to the home directory, and can be moved
//! back. The path arithmetic — lexical resolution, containment checks,
//! mirroring, and collision suffixing — is verified; the filesystem calls
//! that act on the computed paths live outside the library.

pub mod collision;
pub mod dumpster;
pub mod error;
pub mod laws;
pub mod path;
pub mod views;

pub use dumpster::Dumpster;
pub use error::YeetError;
pub use path::AbsPath;
