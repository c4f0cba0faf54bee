//! Tracks live cancelable sessions by opaque id.
//!
//! One cancellation handle is stored per live session; starting is idempotent
//! (a second registration under a live id is a no-op) and aborting an unknown
//! id is a silent no-op.

use vstd::prelude::*;

use crate::ID_LEN;

verus! {

/// tokio_util's cancellation token, opaque to the verifier; the session core
/// only stores and signals it.
#[verifier::external_type_specification]
#[verifier::external_body]
pub struct ExCancellationToken(tokio_util::sync::CancellationToken);

/// Relies on tokio_util::sync::CancellationToken::cancel: signals cancellation
/// to every clone of the token. The token's shared state is outside the model,
/// so nothing is claimed of the result.
#[verifier::external_body]
fn cancel_token(token: &tokio_util::sync::CancellationToken) {
    token.cancel();
}

/// The registry of live cancelable sessions: each entry pairs a session id
/// with the cancellation handle of the spawned task.
pub struct FutureManager {
    entries: Vec<(String, tokio_util::sync::CancellationToken)>,
}

impl FutureManager {
    /// The ids registered, in insertion order.
    pub closed spec fn ids(self) -> Seq<Seq<char>> {
        self.entries@.map(|i: int, e: (String, tokio_util::sync::CancellationToken)| e.0@)
    }

    /// Whether a session is live under the given id.
    pub open spec fn contains_id(self, id: Seq<char>) -> bool {
        self.ids().contains(id)
    }

    /// How many sessions are live.
    pub open spec fn len(self) -> nat {
        self.ids().len()
    }

    /// No id is registered twice.
    pub open spec fn well_formed(self) -> bool {
        forall|i: int, j: int|
            0 <= i < self.ids().len() && 0 <= j < self.ids().len() && i != j ==> self.ids()[i]
                != self.ids()[j]
    }

    /// An empty registry.
    pub fn new() -> (r: Self)
        ensures
            r.well_formed(),
            r.len() == 0,
            forall|id: Seq<char>| !r.contains_id(id),
    {
        let r = FutureManager { entries: Vec::new() };
        proof {
            assert(r.ids() =~= Seq::<Seq<char>>::empty());
        }
        r
    }

    /// Liveness check: no side effects.
    pub fn exist(&self, id: &String) -> (r: bool)
        ensures
            r == self.contains_id(id@),
    {
        let mut k: usize = 0;
        while k < self.entries.len()
            invariant
                0 <= k <= self.entries.len(),
                forall|j: int| 0 <= j < k ==> self.ids()[j] != id@,
            decreases self.entries.len() - k,
        {
            if self.entries[k].0 == *id {
                assert(self.ids()[k as int] == id@);
                return true;
            }
            k += 1;
        }
        false
    }

    /// Registers a cancellation handle under the given id, or under a fresh
    /// random id when none is given; if the id is already live the registry is
    /// left unchanged. Returns the id the handle is (or was) registered under.
    pub fn add(&mut self, cancel_token: tokio_util::sync::CancellationToken, id: Option<String>) -> (r: String)
        requires
            old(self).well_formed(),
        ensures
            final(self).well_formed(),
            match id {
                Some(s) => r@ == s@,
                None => r@.len() == ID_LEN,
            },
            final(self).contains_id(r@),
            old(self).contains_id(r@) ==> *final(self) == *old(self),
            !old(self).contains_id(r@) ==> final(self).len() == old(self).len() + 1,
            !old(self).contains_id(r@) ==> final(self).ids() == old(self).ids().push(r@),
            forall|x: Seq<char>|
                final(self).contains_id(x) == (old(self).contains_id(x) || x == r@),
    {
        let id = match id {
            Some(s) => s,
            None => crate::fresh_id(),
        };
        if self.exist(&id) {
            return id;
        }
        let ghost old_ids = self.ids();
        self.entries.push((id.clone(), cancel_token));
        proof {
            assert(self.ids() =~= old_ids.push(id@));
            assert forall|x: Seq<char>| self.contains_id(x) implies (old_ids.contains(x) || x
                == id@) by {
                let w = choose|w: int| 0 <= w < self.ids().len() && self.ids()[w] == x;
                if w < old_ids.len() {
                    assert(old_ids[w] == x);
                }
            }
            assert forall|x: Seq<char>| old_ids.contains(x) implies self.contains_id(x) by {
                let w = choose|w: int| 0 <= w < old_ids.len() && old_ids[w] == x;
                assert(self.ids()[w] == x);
            }
            assert(self.ids().last() == id@);
        }
        id
    }

    /// Removes the id and signals cancellation on its handle; a silent no-op
    /// when the id is not live.
    pub fn abort(&mut self, id: &String)
        requires
            old(self).well_formed(),
        ensures
            final(self).well_formed(),
            !final(self).contains_id(id@),
            forall|x: Seq<char>| x != id@ ==> final(self).contains_id(x) == old(self).contains_id(x),
            old(self).contains_id(id@) ==> final(self).len() == old(self).len() - 1,
            !old(self).contains_id(id@) ==> *final(self) == *old(self),
    {
        let ghost old_ids = self.ids();
        let mut k: usize = 0;
        while k < self.entries.len()
            invariant
                *self == *old(self),
                old(self).well_formed(),
                old_ids == self.ids(),
                0 <= k <= self.entries.len(),
                forall|j: int| 0 <= j < k ==> self.ids()[j] != id@,
            decreases self.entries.len() - k,
        {
            if self.entries[k].0 == *id {
                let entry = self.entries.remove(k);
                cancel_token(&entry.1);
                proof {
                    assert(old_ids[k as int] == id@);
                    assert(self.ids() =~= old_ids.subrange(0, k as int) + old_ids.subrange(
                        k as int + 1,
                        old_ids.len() as int,
                    ));
                    assert forall|j: int| 0 <= j < self.ids().len() implies self.ids()[j] != id@ by {
                        if j < k {
                            assert(old_ids[j] == self.ids()[j]);
                        } else {
                            assert(old_ids[j + 1] == self.ids()[j]);
                        }
                    }
                    assert forall|x: Seq<char>|
                        x != id@ && old_ids.contains(x) implies self.contains_id(x) by {
                        let w = choose|w: int| 0 <= w < old_ids.len() && old_ids[w] == x;
                        if w < k {
                            assert(self.ids()[w] == x);
                        } else {
                            assert(self.ids()[w - 1] == x);
                        }
                    }
                    assert forall|x: Seq<char>|
                        x != id@ && self.contains_id(x) implies old_ids.contains(x) by {
                        let w = choose|w: int| 0 <= w < self.ids().len() && self.ids()[w] == x;
                        if w < k {
                            assert(old_ids[w] == x);
                        } else {
                            assert(old_ids[w + 1] == x);
                        }
                    }
                }
                return ;
            }
            k += 1;
        }
    }
}

} // verus!
