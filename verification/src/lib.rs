//! Path adapter between the DOS-style paths of RDP device redirection and the
//! Unix-style paths of the shared directory on the host.
//!
//! A [`WindowsPath`] holds a path as the redirection channel sends it, and a
//! [`UnixPath`] the path under the shared directory that it stands for.
//! [`to_unix_path`] is the conversion between the two texts.

pub mod convert;
pub mod encoding;
pub mod path;
pub mod scan;
pub mod segment;

pub use convert::{crop_first_n_letters, to_unix_path};
pub use path::{EmbeddedNulError, UnixPath, WindowsPath};
