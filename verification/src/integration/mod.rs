//! What other programs can ask of this one.

pub mod dbus;
