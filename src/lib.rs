//! A folder browser confined to a set of root directories: it lists the
//! children of a folder, sorting them into sub-folders, images recognised by
//! their content, and other files, and serves the bytes of an image that lies
//! below one of the roots.

pub mod cmdline;
pub mod confine;
pub mod fetch;
pub mod listing;
pub mod sniff;
pub mod workspace;
