//! Persistence model: the user-preference store, keyed by external user id,
//! with an idempotent create-or-update operation.
//!
//! The model captures the contract the storage backend must honour: at most
//! one row per external id, and an upsert that inserts an unseen id or
//! overwrites the mutable fields of an existing row, atomically with respect
//! to the uniqueness constraint.

use vstd::prelude::*;

verus! {

/// One persisted user preference record.
pub struct UserPreference {
    pub external_id: u64,
    pub first_name: String,
    pub last_name: Option<String>,
    pub username: Option<String>,
    pub timezone: Option<String>,
}

/// A storage-layer fault, carrying the backend's message. Never fatal:
/// callers report failure to the user and carry on.
pub enum StoreError {
    Database(String),
    File(String),
}

impl StoreError {
    /// Human-readable description of the fault, for the log.
    pub fn describe(&self) -> (out: String)
        ensures
            out@ == self.describe_text(),
    {
        match self {
            StoreError::Database(msg) => String::from_str("Database error: ").concat(
                msg.as_str(),
            ),
            StoreError::File(msg) => String::from_str("File error: ").concat(msg.as_str()),
        }
    }

    pub open spec fn describe_text(self) -> Seq<char> {
        match self {
            StoreError::Database(msg) => "Database error: "@ + msg@,
            StoreError::File(msg) => "File error: "@ + msg@,
        }
    }
}

/// No two rows share an external id.
pub open spec fn unique_ids(s: Seq<UserPreference>) -> bool {
    forall|i: int, j: int|
        0 <= i < j < s.len() ==> s[i].external_id != s[j].external_id
}

/// Some row holds the given external id.
pub open spec fn contains_id(s: Seq<UserPreference>, id: u64) -> bool {
    exists|i: int| 0 <= i < s.len() && s[i].external_id == id
}

/// The row holding the given external id, if any (searching newest first).
pub open spec fn spec_get(s: Seq<UserPreference>, id: u64) -> Option<UserPreference>
    decreases s.len(),
{
    if s.len() == 0 {
        None
    } else if s.last().external_id == id {
        Some(s.last())
    } else {
        spec_get(s.drop_last(), id)
    }
}

/// How many rows hold the given external id.
pub open spec fn count_id(s: Seq<UserPreference>, id: u64) -> nat
    decreases s.len(),
{
    if s.len() == 0 {
        0
    } else {
        count_id(s.drop_last(), id) + if s.last().external_id == id {
            1nat
        } else {
            0nat
        }
    }
}

/// What one upsert of `p` does to the store's rows: the row for
/// `p.external_id` now holds exactly `p`, every other id is untouched, no id
/// is duplicated, and the row count grows only when the id was unseen.
pub open spec fn upserted(
    pre: Seq<UserPreference>,
    post: Seq<UserPreference>,
    p: UserPreference,
) -> bool {
    &&& unique_ids(post)
    &&& spec_get(post, p.external_id) == Some(p)
    &&& (forall|id: u64| id != p.external_id ==> spec_get(post, id) == spec_get(pre, id))
    &&& post.len() == if contains_id(pre, p.external_id) {
        pre.len()
    } else {
        pre.len() + 1
    }
}

proof fn lemma_absent(s: Seq<UserPreference>, id: u64)
    requires
        forall|i: int| 0 <= i < s.len() ==> s[i].external_id != id,
    ensures
        spec_get(s, id) == None::<UserPreference>,
        count_id(s, id) == 0,
    decreases s.len(),
{
    if s.len() > 0 {
        lemma_absent(s.drop_last(), id);
    }
}

proof fn lemma_unique_count(s: Seq<UserPreference>, id: u64)
    requires
        unique_ids(s),
    ensures
        count_id(s, id) <= 1,
        spec_get(s, id) is Some ==> count_id(s, id) == 1,
        spec_get(s, id) is None ==> count_id(s, id) == 0,
    decreases s.len(),
{
    if s.len() > 0 {
        if s.last().external_id == id {
            assert forall|i: int| 0 <= i < s.drop_last().len() implies s.drop_last()[i].external_id
                != id by {
                assert(s[i] == s.drop_last()[i]);
                assert(s[i].external_id != s[s.len() - 1].external_id);
            }
            lemma_absent(s.drop_last(), id);
        } else {
            assert(unique_ids(s.drop_last())) by {
                assert forall|i: int, j: int|
                    0 <= i < j < s.drop_last().len() implies s.drop_last()[i].external_id
                    != s.drop_last()[j].external_id by {
                    assert(s[i].external_id != s[j].external_id);
                }
            }
            lemma_unique_count(s.drop_last(), id);
        }
    }
}

proof fn lemma_get_update(s: Seq<UserPreference>, i: int, p: UserPreference)
    requires
        unique_ids(s),
        0 <= i < s.len(),
        s[i].external_id == p.external_id,
    ensures
        unique_ids(s.update(i, p)),
        spec_get(s.update(i, p), p.external_id) == Some(p),
        forall|id: u64|
            id != p.external_id ==> spec_get(s.update(i, p), id) == spec_get(s, id),
    decreases s.len(),
{
    let u = s.update(i, p);
    assert(unique_ids(u)) by {
        assert forall|a: int, b: int| 0 <= a < b < u.len() implies u[a].external_id
            != u[b].external_id by {
            assert(u[a].external_id == s[a].external_id);
            assert(u[b].external_id == s[b].external_id);
        }
    }
    if i == s.len() - 1 {
        assert(u.last() == p);
        assert(u.drop_last() =~= s.drop_last());
        assert forall|id: u64| id != p.external_id implies spec_get(u, id) == spec_get(
            s,
            id,
        ) by {
            assert(spec_get(u, id) == spec_get(u.drop_last(), id));
            assert(spec_get(s, id) == spec_get(s.drop_last(), id));
        }
    } else {
        assert(u.last() == s.last());
        assert(u.drop_last() =~= s.drop_last().update(i, p));
        assert(unique_ids(s.drop_last())) by {
            assert forall|a: int, b: int|
                0 <= a < b < s.drop_last().len() implies s.drop_last()[a].external_id
                != s.drop_last()[b].external_id by {
                assert(s[a].external_id != s[b].external_id);
            }
        }
        assert(s.drop_last()[i] == s[i]);
        lemma_get_update(s.drop_last(), i, p);
        assert(s.last().external_id != p.external_id) by {
            assert(s[i].external_id != s[s.len() - 1].external_id);
        }
        assert(spec_get(u, p.external_id) == spec_get(u.drop_last(), p.external_id));
        assert forall|id: u64| id != p.external_id implies spec_get(u, id) == spec_get(
            s,
            id,
        ) by {
            if s.last().external_id == id {
                assert(spec_get(u, id) == Some(u.last()));
                assert(spec_get(s, id) == Some(s.last()));
            } else {
                assert(spec_get(u, id) == spec_get(u.drop_last(), id));
                assert(spec_get(s, id) == spec_get(s.drop_last(), id));
            }
        }
    }
}

proof fn lemma_get_push(s: Seq<UserPreference>, p: UserPreference)
    requires
        unique_ids(s),
        !contains_id(s, p.external_id),
    ensures
        unique_ids(s.push(p)),
        spec_get(s.push(p), p.external_id) == Some(p),
        forall|id: u64| id != p.external_id ==> spec_get(s.push(p), id) == spec_get(s, id),
{
    let u = s.push(p);
    assert(u.last() == p);
    assert(u.drop_last() =~= s);
    assert(unique_ids(u)) by {
        assert forall|a: int, b: int| 0 <= a < b < u.len() implies u[a].external_id
            != u[b].external_id by {
            if b < s.len() {
                assert(u[a] == s[a] && u[b] == s[b]);
            } else {
                assert(u[a] == s[a]);
                assert(!(0 <= a < s.len() && s[a].external_id == p.external_id));
            }
        }
    }
}

/// In-memory reference store. Its contract is the one the storage backend is
/// held to; tests and the handler proofs run against it.
pub struct UserStore {
    users: Vec<UserPreference>,
}

impl UserStore {
    /// The rows, oldest first.
    pub closed spec fn rows(self) -> Seq<UserPreference> {
        self.users@
    }

    /// The store's invariant: one row per external id.
    pub open spec fn wf(self) -> bool {
        unique_ids(self.rows())
    }

    pub fn new() -> (s: Self)
        ensures
            s.wf(),
            s.rows() == Seq::<UserPreference>::empty(),
    {
        let s = UserStore { users: Vec::new() };
        proof {
            assert(s.rows() =~= Seq::<UserPreference>::empty());
        }
        s
    }

    /// How many rows the store holds.
    pub fn len(&self) -> (n: usize)
        ensures
            n == self.rows().len(),
    {
        self.users.len()
    }

    /// Look up the row for an external id.
    pub fn get(&self, id: u64) -> (r: Option<&UserPreference>)
        requires
            self.wf(),
        ensures
            match r {
                Some(p) => spec_get(self.rows(), id) == Some(*p),
                None => spec_get(self.rows(), id) == None::<UserPreference>,
            },
    {
        match self.find_index(id) {
            Some(i) => {
                proof {
                    lemma_unique_get_at(self.rows(), i as int, id);
                }
                Some(&self.users[i])
            },
            None => {
                proof {
                    lemma_absent(self.rows(), id);
                }
                None
            },
        }
    }

    fn find_index(&self, id: u64) -> (r: Option<usize>)
        ensures
            match r {
                Some(i) => i < self.rows().len() && self.rows()[i as int].external_id == id,
                None => forall|j: int|
                    0 <= j < self.rows().len() ==> self.rows()[j].external_id != id,
            },
    {
        let n = self.users.len();
        let mut i: usize = 0;
        while i < n
            invariant
                i <= n,
                n == self.rows().len(),
                forall|j: int| 0 <= j < i ==> self.rows()[j].external_id != id,
            decreases n - i,
        {
            if self.users[i].external_id == id {
                return Some(i);
            }
            i = i + 1;
        }
        None
    }

    /// Insert a row for an unseen external id, or overwrite the mutable
    /// fields of the existing row; never a second row for the same id.
    pub fn upsert(&mut self, pref: UserPreference)
        requires
            old(self).wf(),
        ensures
            final(self).wf(),
            upserted(old(self).rows(), final(self).rows(), pref),
    {
        let ghost pre = self.rows();
        match self.find_index(pref.external_id) {
            Some(i) => {
                let ghost gpref = pref;
                proof {
                    lemma_get_update(pre, i as int, gpref);
                    lemma_contains_witness(pre, i as int, gpref.external_id);
                }
                self.users[i] = pref;
                proof {
                    assert(self.rows() =~= pre.update(i as int, gpref));
                    assert forall|other: u64| other != gpref.external_id implies spec_get(
                        self.rows(),
                        other,
                    ) == spec_get(pre, other) by {
                        assert(spec_get(pre.update(i as int, gpref), other) == spec_get(
                            pre,
                            other,
                        ));
                    }
                }
            },
            None => {
                proof {
                    lemma_absent(pre, pref.external_id);
                    lemma_no_witness(pre, pref.external_id);
                    lemma_get_push(pre, pref);
                }
                self.users.push(pref);
            },
        }
    }
}

proof fn lemma_contains_witness(s: Seq<UserPreference>, i: int, id: u64)
    requires
        0 <= i < s.len(),
        s[i].external_id == id,
    ensures
        contains_id(s, id),
{
}

proof fn lemma_no_witness(s: Seq<UserPreference>, id: u64)
    requires
        forall|i: int| 0 <= i < s.len() ==> s[i].external_id != id,
    ensures
        !contains_id(s, id),
{
}

proof fn lemma_unique_get_at(s: Seq<UserPreference>, i: int, id: u64)
    requires
        unique_ids(s),
        0 <= i < s.len(),
        s[i].external_id == id,
    ensures
        spec_get(s, id) == Some(s[i]),
    decreases s.len(),
{
    if i == s.len() - 1 {
    } else {
        assert(s.last().external_id != id) by {
            assert(s[i].external_id != s[s.len() - 1].external_id);
        }
        assert(unique_ids(s.drop_last())) by {
            assert forall|a: int, b: int|
                0 <= a < b < s.drop_last().len() implies s.drop_last()[a].external_id
                != s.drop_last()[b].external_id by {
                assert(s[a].external_id != s[b].external_id);
            }
        }
        assert(s.drop_last()[i] == s[i]);
        lemma_unique_get_at(s.drop_last(), i, id);
    }
}

/// Last write wins: after two upserts for the same external id, the store
/// holds exactly one row for that id, and it carries the second call's
/// fields — in particular its timezone.
pub proof fn lemma_upsert_last_write_wins(
    s0: Seq<UserPreference>,
    s1: Seq<UserPreference>,
    s2: Seq<UserPreference>,
    p1: UserPreference,
    p2: UserPreference,
)
    requires
        p1.external_id == p2.external_id,
        upserted(s0, s1, p1),
        upserted(s1, s2, p2),
    ensures
        spec_get(s2, p2.external_id) == Some(p2),
        count_id(s2, p2.external_id) == 1,
{
    lemma_unique_count(s2, p2.external_id);
}

/// Uniqueness under any interleaving: every single upsert, whoever issued
/// it, leaves the store with at most one row per external id, so no sequence
/// of concurrent-but-atomic upserts can duplicate a row.
pub proof fn lemma_upsert_preserves_uniqueness(
    pre: Seq<UserPreference>,
    post: Seq<UserPreference>,
    p: UserPreference,
)
    requires
        upserted(pre, post, p),
    ensures
        unique_ids(post),
        forall|id: u64| count_id(post, id) <= 1,
{
    assert forall|id: u64| count_id(post, id) <= 1 by {
        lemma_unique_count(post, id);
    }
}

} // verus!
