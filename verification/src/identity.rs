//! The write-once store of the application identity.
//!
//! The identity names the rendezvous channel. Every part of the protocol
//! reads the same name, so the store takes one value and keeps it.

use vstd::prelude::*;
use vstd::string::*;

verus! {

/// The application identity of this process, settable once.
///
/// Seen as `None` while unset, and as the identity's characters afterwards.
pub struct IdentityStore {
    identity: Option<String>,
}

impl View for IdentityStore {
    type V = Option<Seq<char>>;

    closed spec fn view(&self) -> Option<Seq<char>> {
        match self.identity {
            Some(s) => Some(s@),
            None => None,
        }
    }
}

impl IdentityStore {
    /// A store that holds no identity yet.
    pub fn new() -> (store: IdentityStore)
        ensures
            store@ is None,
    {
        IdentityStore { identity: None }
    }

    /// Whether an identity has been stored.
    pub fn is_set(&self) -> (set: bool)
        ensures
            set == (self@ is Some),
    {
        self.identity.is_some()
    }

    /// Stores `identity`. The store must be unset: a second identity would
    /// split the instances of one application over two channels.
    pub fn set(&mut self, identity: &str)
        requires
            old(self)@ is None,
        ensures
            final(self)@ == Some(identity@),
    {
        self.identity = Some(identity.to_owned());
    }

    /// The stored identity. The store must be set.
    pub fn get(&self) -> (identity: &str)
        requires
            self@ is Some,
        ensures
            identity@ == self@->0,
    {
        self.identity.as_ref().unwrap().as_str()
    }
}

} // verus!
