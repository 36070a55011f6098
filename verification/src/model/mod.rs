//! The application core: where files live and the data that travels through it.

pub mod app_laws;
pub mod apps;
pub mod fs;
pub mod mime;
pub mod pictures;
pub mod places;
pub mod remote;
pub mod thumbs;
pub mod udisks;
pub mod vfs;
