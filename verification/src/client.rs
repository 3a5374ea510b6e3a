use crate::registry::UserId;
use vstd::prelude::*;

verus! {

/// A participant's client-side state, advanced step by step through the
/// protocol: fetch the shared seed, have a client key derived from it,
/// register for an identifier, and choose the scores that enter the shared
/// computation. The key material itself is the backend's: deriving it needs
/// one-time process setup whose absence the backend punishes with a panic, so
/// the key is generated and held by the process wiring, and this state machine
/// records over plain values which steps were taken.
pub struct User {
    name: String,
    seed: Option<[u8; 32]>,
    key_derived: bool,
    id: Option<UserId>,
    scores: Option<[u8; 4]>,
}

impl User {
    /// The participant's display name.
    pub closed spec fn name_spec(self) -> Seq<char> {
        self.name@
    }

    /// The shared seed this client received, once assigned.
    pub closed spec fn seed_spec(self) -> Option<[u8; 32]> {
        self.seed
    }

    /// Whether a client key was derived for this client yet.
    pub closed spec fn has_client_key(self) -> bool {
        self.key_derived
    }

    /// The identifier the registry issued to this client, once assigned.
    pub closed spec fn id_spec(self) -> Option<UserId> {
        self.id
    }

    /// The scores this client will enter, once assigned.
    pub closed spec fn scores_spec(self) -> Option<[u8; 4]> {
        self.scores
    }

    /// The participant's display name.
    pub fn name(&self) -> (r: &String)
        ensures
            r@ == self.name_spec(),
    {
        &self.name
    }

    /// The identifier the registry issued, if registration happened yet.
    pub fn user_id(&self) -> (r: Option<UserId>)
        ensures
            r == self.id_spec(),
    {
        self.id
    }

    /// A fresh client that has taken no protocol step yet.
    pub fn new(name: &str) -> (u: User)
        ensures
            u.name_spec() == name@,
            u.seed_spec() is None,
            !u.has_client_key(),
            u.id_spec() is None,
            u.scores_spec() is None,
    {
        User { name: name.to_owned(), key_derived: false, id: None, seed: None, scores: None }
    }

    /// Stores the seed fetched from the parameter publisher.
    pub fn assign_seed(&mut self, seed: [u8; 32])
        ensures
            final(self).seed_spec() == Some(seed),
            final(self).name_spec() == old(self).name_spec(),
            final(self).has_client_key() == old(self).has_client_key(),
            final(self).id_spec() == old(self).id_spec(),
            final(self).scores_spec() == old(self).scores_spec(),
    {
        self.seed = Some(seed);
    }

    /// Records that a client key was derived for this client; the key itself
    /// stays with the caller that made the backend derive it.
    pub fn mark_client_key_derived(&mut self)
        ensures
            final(self).has_client_key(),
            final(self).name_spec() == old(self).name_spec(),
            final(self).seed_spec() == old(self).seed_spec(),
            final(self).id_spec() == old(self).id_spec(),
            final(self).scores_spec() == old(self).scores_spec(),
    {
        self.key_derived = true;
    }

    /// Stores the identifier the registry issued.
    pub fn set_id(&mut self, id: UserId)
        ensures
            final(self).id_spec() == Some(id),
            final(self).name_spec() == old(self).name_spec(),
            final(self).seed_spec() == old(self).seed_spec(),
            final(self).has_client_key() == old(self).has_client_key(),
            final(self).scores_spec() == old(self).scores_spec(),
    {
        self.id = Some(id);
    }

    /// Stores the scores this client will enter into the shared computation.
    pub fn assign_scores(&mut self, scores: &[u8; 4])
        ensures
            final(self).scores_spec() == Some(*scores),
            final(self).name_spec() == old(self).name_spec(),
            final(self).seed_spec() == old(self).seed_spec(),
            final(self).has_client_key() == old(self).has_client_key(),
            final(self).id_spec() == old(self).id_spec(),
    {
        self.scores = Some(*scores);
    }
}

} // verus!
