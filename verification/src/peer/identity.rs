//! The identity under which this peer appears on the network.

use crate::utils::{
    generate_instance_name, generate_peer_id, generate_peer_name, has_short_id, instance_name,
    short_id, short_id_of,
};
use crate::sys::{hyphenated, is_random_uuid};
use vstd::prelude::*;

verus! {

/// Who this peer is: an identifier that stays the same for as long as the
/// identity is kept, a name that its user may change, and the instance name
/// that is made of both and of the name of the host.
#[derive(Debug)]
pub struct PeerIdentity {
    peer_id: String,
    peer_name: String,
    instance_name: String,
}

/// What a `PeerIdentity` holds, as mathematical values.
pub struct PeerIdentityView {
    pub peer_id: Seq<char>,
    pub peer_name: Seq<char>,
    pub instance_name: Seq<char>,
}

/// Whether an identity hangs together: its identifier has a short form, and
/// its instance name is the one made of its name, its short identifier and
/// the name of some host.
pub open spec fn coherent(identity: PeerIdentityView) -> bool {
    &&& has_short_id(identity.peer_id)
    &&& exists|host: Seq<char>|
        identity.instance_name == instance_name(
            identity.peer_name,
            host,
            short_id(identity.peer_id),
        )
}

impl View for PeerIdentity {
    type V = PeerIdentityView;

    closed spec fn view(&self) -> PeerIdentityView {
        PeerIdentityView {
            peer_id: self.peer_id@,
            peer_name: self.peer_name@,
            instance_name: self.instance_name@,
        }
    }
}

impl Clone for PeerIdentity {
    fn clone(&self) -> (copy: Self)
        ensures
            copy@ == self@,
    {
        proof {
            use_type_invariant(self);
        }
        PeerIdentity {
            peer_id: self.peer_id.clone(),
            peer_name: self.peer_name.clone(),
            instance_name: self.instance_name.clone(),
        }
    }
}

impl Default for PeerIdentity {
    /// A new identity: a fresh random identifier, and the name of the user
    /// who runs the process.
    fn default() -> (identity: Self)
        ensures
            coherent(identity@),
            exists|id: u128| is_random_uuid(id) && identity@.peer_id == hyphenated(id),
    {
        let peer_name = generate_peer_name();
        let peer_id = generate_peer_id();
        Self::on_this_host(peer_id, peer_name)
    }
}

impl PeerIdentity {
    #[verifier::type_invariant]
    spec fn inv(self) -> bool {
        coherent(self@)
    }

    fn on_this_host(peer_id: String, peer_name: String) -> (identity: Self)
        requires
            has_short_id(peer_id@),
        ensures
            identity@.peer_id == peer_id@,
            identity@.peer_name == peer_name@,
            coherent(identity@),
    {
        let full_name = generate_instance_name(peer_name.as_str(), peer_id.as_str());
        proof {
            let host = choose|host: Seq<char>|
                full_name@ == instance_name(peer_name@, host, short_id(peer_id@));
            let view = PeerIdentityView {
                peer_id: peer_id@,
                peer_name: peer_name@,
                instance_name: full_name@,
            };
            assert(view.instance_name == instance_name(
                view.peer_name,
                host,
                short_id(view.peer_id),
            ));
            assert(coherent(view));
        }
        PeerIdentity { peer_id, peer_name, instance_name: full_name }
    }

    /// The identity with the given identifier and name on this host, or
    /// nothing where the identifier has no short form.
    pub fn restore(peer_id: String, peer_name: String) -> (identity: Option<Self>)
        ensures
            identity is Some <==> has_short_id(peer_id@),
            identity matches Some(found) ==> found@.peer_id == peer_id@ && found@.peer_name
                == peer_name@ && coherent(found@),
    {
        match short_id_of(peer_id.as_str()) {
            Some(_) => Some(Self::on_this_host(peer_id, peer_name)),
            None => None,
        }
    }

    /// The identity that was stored, where one was stored, and a new one
    /// otherwise. The flag says whether the identity is new and so has still
    /// to be stored.
    ///
    /// A stored identity is made of an identifier, which must have a short
    /// form, and a name.
    pub fn load_or_generate(stored: Option<(String, String)>) -> (loaded: (Self, bool))
        requires
            stored matches Some(pair) ==> has_short_id(pair.0@),
        ensures
            coherent(loaded.0@),
            loaded.1 == (stored is None),
            stored matches Some(pair) ==> loaded.0@.peer_id == pair.0@ && loaded.0@.peer_name
                == pair.1@,
    {
        match stored {
            Some((peer_id, peer_name)) => (Self::on_this_host(peer_id, peer_name), false),
            None => (Self::default(), true),
        }
    }

    /// The instance name. Every identity hangs together, so this is the
    /// name made of the peer's name, its short identifier and a host's name.
    pub fn instance_name(&self) -> (name: String)
        ensures
            name@ == self@.instance_name,
            coherent(self@),
    {
        proof {
            use_type_invariant(self);
        }
        self.instance_name.clone()
    }

    /// The identifier, which has a short form.
    pub fn peer_id(&self) -> (id: String)
        ensures
            id@ == self@.peer_id,
            has_short_id(id@),
    {
        proof {
            use_type_invariant(self);
        }
        self.peer_id.clone()
    }

    /// The name that the peer goes by.
    pub fn peer_name(&self) -> (name: String)
        ensures
            name@ == self@.peer_name,
    {
        self.peer_name.clone()
    }

    /// Gives the peer the name `new_name` and says whether that changed
    /// anything, so that the identity has to be stored anew.
    ///
    /// Where the name is the old one nothing changes. Otherwise the instance
    /// name is made anew from the new name, the host's name as it is now, and
    /// the identifier, which stays.
    pub fn update_peer_name(&mut self, new_name: &str) -> (changed: bool)
        ensures
            changed == (new_name@ != old(self)@.peer_name),
            !changed ==> final(self)@ == old(self)@,
            changed ==> final(self)@.peer_id == old(self)@.peer_id && final(self)@.peer_name
                == new_name@ && coherent(final(self)@),
    {
        proof {
            use_type_invariant(&*self);
        }
        if crate::text::str_eq(self.peer_name.as_str(), new_name) {
            return false;
        }
        *self = Self::on_this_host(self.peer_id.clone(), new_name.to_owned());
        true
    }
}

} // verus!
