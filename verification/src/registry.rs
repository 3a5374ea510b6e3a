use crate::params::Parameters;
use vstd::prelude::*;

verus! {

/// A participant's identifier: the index at which its record was inserted.
pub type UserId = usize;

/// A participant's key share, opaque bytes in the backend's serialized format.
pub type ServerKeyShare = Vec<u8>;

/// A participant's ciphertext, opaque bytes in the backend's format.
pub type Cipher = Vec<u8>;

/// Per-participant registration state. A record only ever moves from
/// `IDAcquired` to `KeySubmitted`; it never regresses.
pub enum Registration {
    /// Identifier issued, nothing submitted yet.
    IDAcquired,
    /// Terminal state: the participant's key share and ciphertext are stored.
    KeySubmitted { sks: ServerKeyShare, cipher: Cipher },
}

/// One entry of the registry. The identifier equals the record's insertion
/// index and never changes.
pub struct RegisteredUser {
    pub id: UserId,
    pub name: String,
    pub registration: Registration,
}

/// Every failure the coordination core can report.
#[derive(Debug, Clone, Copy, PartialEq, Eq)]
pub enum Error {
    /// `register` was attempted after the group was already full.
    CapacityExceeded,
    /// `submit` referenced an identifier that was never issued.
    UnknownParticipant,
    /// `submit` was attempted twice for the same identifier.
    AlreadyKeySubmitted,
    /// `run` was attempted before every participant had submitted.
    Incomplete { submitted: usize, required: usize },
    /// `run` was attempted after the session already completed.
    AlreadyRun,
    /// The external aggregation backend failed.
    BackendFailure,
}

impl Error {
    /// A human-readable reason for the failure.
    pub fn reason(&self) -> (r: &'static str)
        ensures
            self is CapacityExceeded ==> r@ == "the group is already full"@,
            self is UnknownParticipant ==> r@ == "this participant hasn't registered yet"@,
            self is AlreadyKeySubmitted ==> r@ == "this participant already submitted"@,
            self is Incomplete ==> r@ == "some participants haven't submitted yet"@,
            self is AlreadyRun ==> r@ == "the computation already ran"@,
            self is BackendFailure ==> r@ == "the aggregation backend failed"@,
    {
        match self {
            Error::CapacityExceeded => "the group is already full",
            Error::UnknownParticipant => "this participant hasn't registered yet",
            Error::AlreadyKeySubmitted => "this participant already submitted",
            Error::Incomplete { .. } => "some participants haven't submitted yet",
            Error::AlreadyRun => "the computation already ran",
            Error::BackendFailure => "the aggregation backend failed",
        }
    }
}

/// Whether a record has reached its terminal state.
pub open spec fn is_submitted(r: RegisteredUser) -> bool {
    r.registration is KeySubmitted
}

/// The key-share bytes stored in a record, empty while nothing was submitted.
pub open spec fn sks_of(r: RegisteredUser) -> Seq<u8> {
    match r.registration {
        Registration::KeySubmitted { sks, .. } => sks@,
        Registration::IDAcquired => Seq::empty(),
    }
}

/// The ciphertext bytes stored in a record, empty while nothing was submitted.
pub open spec fn cipher_of(r: RegisteredUser) -> Seq<u8> {
    match r.registration {
        Registration::KeySubmitted { cipher, .. } => cipher@,
        Registration::IDAcquired => Seq::empty(),
    }
}

/// How many records of `s` are in the `KeySubmitted` state.
pub open spec fn count_submitted(s: Seq<RegisteredUser>) -> nat
    decreases s.len(),
{
    if s.len() == 0 {
        0
    } else {
        count_submitted(s.drop_last()) + if is_submitted(s.last()) {
            1nat
        } else {
            0nat
        }
    }
}

/// No more records are submitted than exist.
pub proof fn lemma_count_le_len(s: Seq<RegisteredUser>)
    ensures
        count_submitted(s) <= s.len(),
    decreases s.len(),
{
    if s.len() > 0 {
        lemma_count_le_len(s.drop_last());
    }
}

/// A registry none of whose records has submitted counts zero submissions.
pub proof fn lemma_count_none_submitted(s: Seq<RegisteredUser>)
    requires
        forall|i: int| 0 <= i < s.len() ==> !is_submitted(#[trigger] s[i]),
    ensures
        count_submitted(s) == 0,
    decreases s.len(),
{
    if s.len() > 0 {
        assert(!is_submitted(s[s.len() - 1]));
        lemma_count_none_submitted(s.drop_last());
    }
}

/// A fully submitted registry counts as many submissions as records.
pub proof fn lemma_count_all_submitted(s: Seq<RegisteredUser>)
    requires
        forall|i: int| 0 <= i < s.len() ==> is_submitted(#[trigger] s[i]),
    ensures
        count_submitted(s) == s.len(),
    decreases s.len(),
{
    if s.len() > 0 {
        assert(is_submitted(s[s.len() - 1]));
        lemma_count_all_submitted(s.drop_last());
    }
}

/// A sequence whose submitted count equals its length is submitted throughout.
pub proof fn lemma_count_full(s: Seq<RegisteredUser>)
    requires
        count_submitted(s) == s.len(),
    ensures
        forall|i: int| 0 <= i < s.len() ==> is_submitted(#[trigger] s[i]),
    decreases s.len(),
{
    if s.len() > 0 {
        lemma_count_le_len(s.drop_last());
        lemma_count_full(s.drop_last());
        assert forall|i: int| 0 <= i < s.len() implies is_submitted(#[trigger] s[i]) by {
            if i < s.len() - 1 {
                assert(s[i] == s.drop_last()[i]);
            } else {
                assert(s[i] == s.last());
            }
        }
    }
}

/// The reply to a successful registration: the participant's display name and
/// its newly issued identifier.
#[derive(Debug, Clone, PartialEq, Eq)]
pub struct RegistrationOut {
    pub name: String,
    pub user_id: UserId,
}

/// The whole session: the published parameters, the ordered registry of
/// participant records, the fixed group size, and the one-shot completion
/// flag.
pub struct Session {
    params: Parameters,
    users: Vec<RegisteredUser>,
    total: usize,
    done: bool,
}

impl Session {
    /// The ordered registry contents.
    pub closed spec fn records(self) -> Seq<RegisteredUser> {
        self.users@
    }

    /// The fixed number N of participants in the group.
    pub closed spec fn total_spec(self) -> usize {
        self.total
    }

    /// Whether the one-shot aggregation already ran.
    pub closed spec fn has_run(self) -> bool {
        self.done
    }

    /// The session's seed bytes.
    pub closed spec fn seed(self) -> Seq<u8> {
        self.params.seed_spec()
    }

    /// Every participant registered and every participant submitted.
    pub open spec fn is_complete(self) -> bool {
        &&& self.records().len() == self.total_spec()
        &&& count_submitted(self.records()) == self.total_spec()
    }

    /// Well-formedness: identifiers are dense and equal to insertion indices,
    /// the registry never exceeds its capacity, and the completion flag is
    /// only ever set over a complete registry.
    pub open spec fn wf(self) -> bool {
        &&& self.records().len() <= self.total_spec()
        &&& forall|i: int| 0 <= i < self.records().len() ==> (#[trigger] self.records()[i]).id == i
        &&& self.has_run() ==> self.is_complete()
    }

    /// A fresh session over `params` for a group of `total` participants.
    pub fn new(params: Parameters, total: usize) -> (s: Session)
        ensures
            s.wf(),
            s.records().len() == 0,
            s.total_spec() == total,
            !s.has_run(),
            s.seed() == params.seed_spec(),
    {
        Session { params, users: Vec::new(), total, done: false }
    }

    /// The published parameters never change: this returns bit-identical seed
    /// bytes whatever registrations or submissions happened in between.
    pub fn parameters(&self) -> (r: [u8; 32])
        ensures
            r@ == self.seed(),
    {
        self.params.publish()
    }

    /// What `register` decides on a given session state.
    pub open spec fn register_verdict(self) -> Result<UserId, Error> {
        if self.records().len() < self.total_spec() {
            Ok(self.records().len() as usize)
        } else {
            Err(Error::CapacityExceeded)
        }
    }

    /// A participant registers a display name and is issued the next
    /// identifier, equal to the current registry length; identifiers are
    /// assigned in arrival order, never reused. Fails with `CapacityExceeded`
    /// once the group is full, leaving the registry unchanged.
    pub fn register(&mut self, name: &str) -> (r: Result<RegistrationOut, Error>)
        requires
            old(self).wf(),
        ensures
            final(self).wf(),
            final(self).seed() == old(self).seed(),
            final(self).total_spec() == old(self).total_spec(),
            final(self).has_run() == old(self).has_run(),
            r is Ok <==> old(self).register_verdict() is Ok,
            r matches Err(e) ==> {
                &&& Err::<UserId, Error>(e) == old(self).register_verdict()
                &&& *final(self) == *old(self)
            },
            r matches Ok(out) ==> {
                &&& out.user_id == old(self).records().len()
                &&& out.name@ == name@
                &&& final(self).records().len() == old(self).records().len() + 1
                &&& forall|i: int|
                    0 <= i < old(self).records().len() ==> final(self).records()[i] == old(
                        self,
                    ).records()[i]
                &&& final(self).records().last().id == out.user_id
                &&& final(self).records().last().name@ == name@
                &&& final(self).records().last().registration is IDAcquired
            },
    {
        if self.users.len() >= self.total {
            return Err(Error::CapacityExceeded);
        }
        let user_id = self.users.len();
        let user = RegisteredUser {
            id: user_id,
            name: name.to_owned(),
            registration: Registration::IDAcquired,
        };
        self.users.push(user);
        Ok(RegistrationOut { name: name.to_owned(), user_id })
    }

    /// What `submit` decides on a given session state and identifier.
    pub open spec fn submit_verdict(self, user_id: UserId) -> Result<UserId, Error> {
        if user_id >= self.records().len() {
            Err(Error::UnknownParticipant)
        } else if self.records()[user_id as int].registration is KeySubmitted {
            Err(Error::AlreadyKeySubmitted)
        } else {
            Ok(user_id)
        }
    }

    /// A registered participant submits its key share and ciphertext. Fails
    /// with `UnknownParticipant` for an identifier that was never issued and
    /// with `AlreadyKeySubmitted` on resubmission; either failure leaves the
    /// registry unchanged, so a first submission's data is preserved. On
    /// success the record moves to `KeySubmitted` with exactly the given
    /// bytes; no other record changes.
    pub fn submit(&mut self, user_id: UserId, sks: ServerKeyShare, cipher: Cipher) -> (r: Result<
        UserId,
        Error,
    >)
        requires
            old(self).wf(),
        ensures
            final(self).wf(),
            final(self).seed() == old(self).seed(),
            final(self).total_spec() == old(self).total_spec(),
            final(self).has_run() == old(self).has_run(),
            r == old(self).submit_verdict(user_id),
            r is Err ==> *final(self) == *old(self),
            r is Ok ==> {
                &&& final(self).records().len() == old(self).records().len()
                &&& forall|i: int|
                    0 <= i < old(self).records().len() && i != user_id
                        ==> final(self).records()[i] == old(self).records()[i]
                &&& final(self).records()[user_id as int].id == old(self).records()[user_id as int].id
                &&& final(self).records()[user_id as int].name == old(self).records()[user_id as int].name
                &&& final(self).records()[user_id as int].registration is KeySubmitted
                &&& sks_of(final(self).records()[user_id as int]) == sks@
                &&& cipher_of(final(self).records()[user_id as int]) == cipher@
            },
    {
        if user_id >= self.users.len() {
            return Err(Error::UnknownParticipant);
        }
        match self.users[user_id].registration {
            Registration::KeySubmitted { .. } => Err(Error::AlreadyKeySubmitted),
            Registration::IDAcquired => {
                let name = self.users[user_id].name.clone();
                let id = self.users[user_id].id;
                self.users.set(
                    user_id,
                    RegisteredUser {
                        id,
                        name,
                        registration: Registration::KeySubmitted { sks, cipher },
                    },
                );
                proof {
                    lemma_count_update(old(self).records(), user_id as int, self.records()[user_id as int]);
                    lemma_count_le_len(old(self).records());
                    if old(self).has_run() {
                        lemma_count_full(old(self).records());
                    }
                }
                Ok(user_id)
            },
        }
    }
    /// Read-only completeness query: how many participants have submitted, how
    /// many are required, and whether the two are equal over a full registry.
    pub fn completeness(&self) -> (r: (usize, usize, bool))
        requires
            self.wf(),
        ensures
            r.0 == count_submitted(self.records()),
            r.1 == self.total_spec(),
            r.2 == self.is_complete(),
    {
        let mut count: usize = 0;
        let mut i: usize = 0;
        while i < self.users.len()
            invariant
                self.wf(),
                i <= self.users.len(),
                count == count_submitted(self.users@.subrange(0, i as int)),
                count <= i,
            decreases self.users.len() - i,
        {
            proof {
                assert(self.users@.subrange(0, i + 1).drop_last() =~= self.users@.subrange(
                    0,
                    i as int,
                ));
            }
            match self.users[i].registration {
                Registration::KeySubmitted { .. } => {
                    count = count + 1;
                },
                Registration::IDAcquired => {},
            }
            i = i + 1;
        }
        proof {
            assert(self.users@.subrange(0, self.users@.len() as int) =~= self.users@);
        }
        let complete = self.users.len() == self.total && count == self.total;
        (count, self.total, complete)
    }

    /// What `run` decides on a given session state.
    pub open spec fn run_verdict(self) -> Result<(), Error> {
        if self.has_run() {
            Err(Error::AlreadyRun)
        } else if !self.is_complete() {
            Err(
                Error::Incomplete {
                    submitted: count_submitted(self.records()) as usize,
                    required: self.total_spec(),
                },
            )
        } else {
            Ok(())
        }
    }

    /// The one-shot aggregation step. Rejects a second run with `AlreadyRun`
    /// and an early run with `Incomplete{submitted, required}`, both without
    /// any state change. When every participant has submitted and no run
    /// happened yet, it sets the completion flag and returns the N key-share /
    /// ciphertext pairs in identifier order, as a snapshot the backend can be
    /// invoked on after the registry is released.
    pub fn run(&mut self) -> (r: Result<Vec<(ServerKeyShare, Cipher)>, Error>)
        requires
            old(self).wf(),
        ensures
            final(self).wf(),
            final(self).seed() == old(self).seed(),
            final(self).total_spec() == old(self).total_spec(),
            final(self).records() == old(self).records(),
            r is Ok <==> old(self).run_verdict() is Ok,
            r matches Err(e) ==> {
                &&& Err::<(), Error>(e) == old(self).run_verdict()
                &&& *final(self) == *old(self)
            },
            r is Ok ==> final(self).has_run(),
            r matches Ok(snap) ==> {
                &&& snap@.len() == old(self).total_spec()
                &&& forall|i: int|
                    0 <= i < snap@.len() ==> (#[trigger] snap@[i]).0@ == sks_of(
                        old(self).records()[i],
                    )
                &&& forall|i: int|
                    0 <= i < snap@.len() ==> (#[trigger] snap@[i]).1@ == cipher_of(
                        old(self).records()[i],
                    )
            },
    {
        if self.done {
            return Err(Error::AlreadyRun);
        }
        let (submitted, required, complete) = self.completeness();
        if !complete {
            return Err(Error::Incomplete { submitted, required });
        }
        proof {
            lemma_count_full(self.records());
        }
        let mut snap: Vec<(ServerKeyShare, Cipher)> = Vec::new();
        let mut i: usize = 0;
        while i < self.users.len()
            invariant
                *self == *old(self),
                self.wf(),
                self.is_complete(),
                i <= self.users.len(),
                snap@.len() == i,
                forall|j: int|
                    0 <= j < self.users@.len() ==> is_submitted(#[trigger] self.users@[j]),
                forall|j: int|
                    0 <= j < i ==> (#[trigger] snap@[j]).0@ == sks_of(self.users@[j]),
                forall|j: int|
                    0 <= j < i ==> (#[trigger] snap@[j]).1@ == cipher_of(self.users@[j]),
            decreases self.users.len() - i,
        {
            match &self.users[i].registration {
                Registration::KeySubmitted { sks, cipher } => {
                    let s = copy_bytes(sks);
                    let c = copy_bytes(cipher);
                    snap.push((s, c));
                },
                Registration::IDAcquired => {
                    proof {
                        assert(false);
                    }
                },
            }
            i = i + 1;
        }
        self.done = true;
        Ok(snap)
    }

    /// Applies the outcome of the external aggregation/evaluation the caller
    /// ran on the snapshot this step returned. On success the completion flag stands and
    /// the session is done; on failure the flag is rolled back, so `run` stays
    /// retryable, and `BackendFailure` is reported. Called once after a
    /// successful `run`, whatever the backend returned.
    pub fn finish_run(&mut self, backend_ok: bool) -> (r: Result<(), Error>)
        requires
            old(self).wf(),
            old(self).has_run(),
        ensures
            final(self).wf(),
            final(self).seed() == old(self).seed(),
            final(self).total_spec() == old(self).total_spec(),
            final(self).records() == old(self).records(),
            backend_ok ==> r is Ok && *final(self) == *old(self),
            !backend_ok ==> r == Err::<(), Error>(Error::BackendFailure) && !final(self).has_run(),
    {
        if backend_ok {
            Ok(())
        } else {
            self.rollback_run();
            Err(Error::BackendFailure)
        }
    }

    /// Rolls the completion flag back after a backend failure, so that `run`
    /// stays retryable; nothing else changes. Only meaningful after a
    /// successful run whose backend invocation failed.
    pub fn rollback_run(&mut self)
        requires
            old(self).wf(),
            old(self).has_run(),
        ensures
            final(self).wf(),
            !final(self).has_run(),
            final(self).seed() == old(self).seed(),
            final(self).total_spec() == old(self).total_spec(),
            final(self).records() == old(self).records(),
    {
        self.done = false;
    }
}

/// Byte-for-byte copy of a byte vector.
fn copy_bytes(v: &Vec<u8>) -> (r: Vec<u8>)
    ensures
        r@ == v@,
{
    let mut r: Vec<u8> = Vec::new();
    let mut i: usize = 0;
    while i < v.len()
        invariant
            i <= v.len(),
            r@ == v@.subrange(0, i as int),
        decreases v.len() - i,
    {
        r.push(v[i]);
        proof {
            assert(v@.subrange(0, i + 1) =~= v@.subrange(0, i as int).push(v@[i as int]));
        }
        i = i + 1;
    }
    proof {
        assert(v@.subrange(0, v@.len() as int) =~= v@);
    }
    r
}

/// Identifiers are dense and unique: in a well-formed session the record at
/// index i carries identifier i, so over a registry of length L the issued
/// identifiers are exactly 0 through L-1, each exactly once, in arrival order.
pub proof fn lemma_identifiers_dense_and_unique(s: Session)
    requires
        s.wf(),
    ensures
        forall|i: int| 0 <= i < s.records().len() ==> (#[trigger] s.records()[i]).id == i,
        forall|i: int, j: int|
            0 <= i < s.records().len() && 0 <= j < s.records().len() && i != j ==> s.records()[i].id
                != s.records()[j].id,
{
}

/// Resubmission is rejected: on any session state whose record for `user_id`
/// is already `KeySubmitted` — in particular the state a successful submit
/// leaves behind — a further submit for `user_id` is rejected with
/// `AlreadyKeySubmitted`; by `submit`'s contract a rejected call leaves the
/// registry, and so the first submission's bytes, unchanged.
pub proof fn lemma_resubmission_rejected(post: Session, user_id: UserId)
    requires
        user_id < post.records().len(),
        post.records()[user_id as int].registration is KeySubmitted,
    ensures
        post.submit_verdict(user_id) == Err::<UserId, Error>(Error::AlreadyKeySubmitted),
{
}

/// The run step is one-shot: on any session state whose completion flag is set —
/// in particular the state a successful run leaves behind — a further run
/// attempt is rejected with `AlreadyRun`.
pub proof fn lemma_run_one_shot(post: Session)
    requires
        post.has_run(),
    ensures
        post.run_verdict() == Err::<(), Error>(Error::AlreadyRun),
{
}

/// Updating an `IDAcquired` record to a submitted one raises the count by one;
/// updating it to another unsubmitted one keeps the count.
pub proof fn lemma_count_update(s: Seq<RegisteredUser>, i: int, r: RegisteredUser)
    requires
        0 <= i < s.len(),
        !is_submitted(s[i]),
    ensures
        count_submitted(s.update(i, r)) == count_submitted(s) + if is_submitted(r) {
            1nat
        } else {
            0nat
        },
    decreases s.len(),
{
    let t = s.update(i, r);
    if i == s.len() - 1 {
        assert(t.drop_last() =~= s.drop_last());
        assert(t.last() == r);
    } else {
        assert(t.drop_last() =~= s.drop_last().update(i, r));
        assert(t.last() == s.last());
        lemma_count_update(s.drop_last(), i, r);
    }
}

} // verus!
