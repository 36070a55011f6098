//! Protocol backends, by URI scheme.
use crate::model::remote::{RemoteManager, pool_key_of};
use crate::model::vfs::{Backend, Caps, Location, file_scheme};
use crate::modules::local::LocalBackend;
use vstd::prelude::*;

pub mod local;
pub mod sftp;
pub mod sftp_laws;

verus! {

/// The backend that serves a location. The parameter is the backend of a
/// remote connection.
#[derive(Debug)]
pub enum Resolved<'a, B> {
    Local(LocalBackend),
    Remote(&'a B),
}

impl<'a, B: Backend> Resolved<'a, B> {
    /// The URI scheme served.
    pub open spec fn scheme_view(&self) -> Seq<char> {
        match self {
            Resolved::Local(b) => b.scheme_view(),
            Resolved::Remote(b) => b.scheme_view(),
        }
    }

    /// What the backend can do.
    pub open spec fn caps_view(&self) -> Caps {
        match self {
            Resolved::Local(b) => b.caps_view(),
            Resolved::Remote(b) => b.caps_view(),
        }
    }

    /// The URI scheme served.
    pub fn scheme(&self) -> (r: &'static str)
        ensures
            r@ == self.scheme_view(),
    {
        match self {
            Resolved::Local(b) => b.scheme(),
            Resolved::Remote(b) => b.scheme(),
        }
    }

    /// What the backend can do.
    pub fn caps(&self) -> (r: Caps)
        ensures
            r == self.caps_view(),
    {
        match self {
            Resolved::Local(b) => b.caps(),
            Resolved::Remote(b) => b.caps(),
        }
    }
}

/// The backend for a location: the local one for `file`, else the open
/// connection to that very server, else none.
pub fn resolve<'a, B>(location: &Location, manager: &'a RemoteManager<B>) -> (r: Option<
    Resolved<'a, B>,
>)
    ensures
        if location@.scheme == file_scheme() {
            r matches Some(Resolved::Local(_))
        } else {
            match pool_key_of(location@) {
                Some(key) => if manager.connections().dom().contains(key) {
                    r matches Some(Resolved::Remote(b)) && *b == manager.connections()[key]
                } else {
                    r is None
                },
                None => r is None,
            }
        },
{
    if location.is_local() {
        return Some(Resolved::Local(LocalBackend::new()));
    }
    match manager.pooled(location) {
        Some(b) => Some(Resolved::Remote(b)),
        None => None,
    }
}

} // verus!
