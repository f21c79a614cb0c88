//! The key-value store available to user hooks, and the namespacing rules
//! that scope every key to its pipeline and stage. The store contract is
//! `set`, `get` (empty on a miss) and `clean` by prefix; this module holds
//! the verified in-memory store and the scoping laws, while durable backends
//! implement the same interface outside.

use vstd::prelude::*;
use vstd::string::StringExecFns;
use vstd::string::StrSliceExecFns;
use crate::text::seq_starts_with;
use crate::text::str_starts_with;

verus! {

/// The store contract as user hooks see it: thread-safe set, get with an
/// empty string on a miss, and cleanup of a whole prefix.
pub trait StoreInterface {
    /// The value stored under `key`, or the empty string.
    fn get(&self, key: &str) -> String;

    /// Stores `value` under `key`.
    fn set(&mut self, key: &str, value: &str);

    /// Removes every key that starts with `prefix`.
    fn clean(&mut self, prefix: &str);
}

/// The value the association list holds for a key, if any.
pub open spec fn assoc_find(s: Seq<(Seq<char>, Seq<char>)>, key: Seq<char>) -> Option<Seq<char>>
    decreases s.len(),
{
    if s.len() == 0 {
        None
    } else if s[0].0 == key {
        Some(s[0].1)
    } else {
        assoc_find(s.skip(1), key)
    }
}

/// A position known to be the first key match determines `assoc_find`.
proof fn lemma_assoc_find_first(s: Seq<(Seq<char>, Seq<char>)>, key: Seq<char>, i: int)
    requires
        0 <= i < s.len(),
        s[i].0 == key,
        forall|j: int| 0 <= j < i ==> s[j].0 != key,
    ensures
        assoc_find(s, key) == Some(s[i].1),
    decreases s.len(),
{
    if i > 0 {
        lemma_assoc_find_first(s.skip(1), key, i - 1);
    }
}

/// Without the key, the search yields nothing.
proof fn lemma_assoc_find_none(s: Seq<(Seq<char>, Seq<char>)>, key: Seq<char>)
    requires
        forall|j: int| 0 <= j < s.len() ==> s[j].0 != key,
    ensures
        assoc_find(s, key) is None,
    decreases s.len(),
{
    if s.len() > 0 {
        lemma_assoc_find_none(s.skip(1), key);
    }
}

/// The verified in-memory store: an association list with unique keys.
pub struct MemoryStore {
    entries: Vec<(String, String)>,
}

impl MemoryStore {
    /// The stored associations, as key and value character sequences.
    pub closed spec fn entries_spec(&self) -> Seq<(Seq<char>, Seq<char>)> {
        self.entries@.map_values(|e: (String, String)| (e.0@, e.1@))
    }

    /// The value stored under a key, if any.
    pub open spec fn spec_get(&self, key: Seq<char>) -> Option<Seq<char>> {
        assoc_find(self.entries_spec(), key)
    }

    /// The store invariant: no key occurs twice.
    pub open spec fn wf(&self) -> bool {
        forall|i: int, j: int|
            0 <= i < j < self.entries_spec().len() ==> self.entries_spec()[i].0
                != self.entries_spec()[j].0
    }

    /// An empty store.
    pub fn new() -> (r: MemoryStore)
        ensures
            r.wf(),
            forall|key: Seq<char>| #[trigger] r.spec_get(key) is None,
    {
        let r = MemoryStore { entries: Vec::new() };
        proof {
            assert forall|key: Seq<char>| #[trigger] r.spec_get(key) is None by {
                assert(r.entries_spec().len() == 0);
            };
        }
        r
    }

    /// Position of the entry with the given key.
    fn index_of_key(&self, key: &str) -> (r: Option<usize>)
        ensures
            match r {
                Some(i) => i < self.entries_spec().len() && self.entries_spec()[i as int].0
                    == key@ && forall|j: int|
                    0 <= j < i ==> self.entries_spec()[j].0 != key@,
                None => forall|j: int|
                    0 <= j < self.entries_spec().len() ==> self.entries_spec()[j].0 != key@,
            },
    {
        let n = self.entries.len();
        let mut i: usize = 0;
        while i < n
            invariant
                i <= n,
                n == self.entries@.len(),
                forall|j: int| 0 <= j < i ==> self.entries_spec()[j].0 != key@,
            decreases n - i,
        {
            if crate::text::str_eq(self.entries[i].0.as_str(), key) {
                return Some(i);
            }
            i = i + 1;
        }
        None
    }

    /// The value stored under `key`, or the empty string on a miss.
    pub fn get(&self, key: &str) -> (r: String)
        requires
            self.wf(),
        ensures
            match self.spec_get(key@) {
                Some(v) => r@ == v,
                None => r@ == Seq::<char>::empty(),
            },
    {
        match self.index_of_key(key) {
            Some(i) => {
                proof {
                    lemma_assoc_find_first(self.entries_spec(), key@, i as int);
                }
                self.entries[i].1.clone()
            },
            None => {
                proof {
                    lemma_assoc_find_none(self.entries_spec(), key@);
                }
                String::new()
            },
        }
    }

    /// Stores `value` under `key`, replacing any previous value; every other
    /// key keeps its value.
    pub fn set(&mut self, key: &str, value: &str)
        requires
            old(self).wf(),
        ensures
            final(self).wf(),
            final(self).spec_get(key@) == Some(value@),
            forall|other: Seq<char>|
                other != key@ ==> #[trigger] final(self).spec_get(other) == old(self).spec_get(
                    other,
                ),
    {
        match self.index_of_key(key) {
            Some(i) => {
                proof {
                    lemma_assoc_find_first(self.entries_spec(), key@, i as int);
                }
                let _ = self.entries.remove(i);
                self.entries.insert(i, (key.to_owned(), value.to_owned()));
                proof {
                    assert(self.entries_spec() =~= old(self).entries_spec().update(
                        i as int,
                        (key@, value@),
                    ));
                    assert(forall|j: int| 0 <= j < i ==> self.entries_spec()[j].0 != key@);
                    lemma_assoc_find_first(self.entries_spec(), key@, i as int);
                    assert forall|other: Seq<char>| other != key@ implies #[trigger] self
                        .spec_get(other) == old(self).spec_get(other) by {
                        lemma_assoc_find_update(
                            old(self).entries_spec(),
                            self.entries_spec(),
                            i as int,
                            other,
                        );
                    };
                }
            },
            None => {
                self.entries.push((key.to_owned(), value.to_owned()));
                proof {
                    let n = old(self).entries_spec().len();
                    assert(self.entries_spec()[n as int].0 == key@);
                    assert(forall|j: int|
                        0 <= j < n ==> self.entries_spec()[j] == old(self).entries_spec()[j]);
                    lemma_assoc_find_first(self.entries_spec(), key@, n as int);
                    assert forall|other: Seq<char>| other != key@ implies #[trigger] self
                        .spec_get(other) == old(self).spec_get(other) by {
                        lemma_assoc_find_push_other(
                            old(self).entries_spec(),
                            self.entries_spec(),
                            other,
                        );
                    };
                }
            },
        }
    }

    /// Removes every key that starts with `prefix`; every other key keeps
    /// its value.
    pub fn clean(&mut self, prefix: &str)
        requires
            old(self).wf(),
        ensures
            final(self).wf(),
            forall|key: Seq<char>|
                seq_starts_with(key, prefix@) ==> #[trigger] final(self).spec_get(key) is None,
            forall|key: Seq<char>|
                !seq_starts_with(key, prefix@) ==> #[trigger] final(self).spec_get(key) == old(
                    self,
                ).spec_get(key),
    {
        let n = self.entries.len();
        let mut kept: Vec<(String, String)> = Vec::new();
        proof {
            assert(old(self).entries_spec().take(0) =~= Seq::<(Seq<char>, Seq<char>)>::empty());
        }
        let mut i: usize = 0;
        while i < n
            invariant
                i <= n,
                n == self.entries@.len(),
                self == old(self),
                old(self).wf(),
                forall|a: int|
                    0 <= a < kept@.len() ==> exists|j: int|
                        0 <= j < i && ((#[trigger] kept@[a]).0@, kept@[a].1@) == old(
                            self,
                        ).entries_spec()[j],
                forall|a: int|
                    0 <= a < kept@.len() ==> !seq_starts_with((#[trigger] kept@[a]).0@, prefix@),
                forall|a: int, b: int| 0 <= a < b < kept@.len() ==> kept@[a].0@ != kept@[b].0@,
                forall|key: Seq<char>|
                    !seq_starts_with(key, prefix@) ==> assoc_find(
                        kept@.map_values(|e: (String, String)| (e.0@, e.1@)),
                        key,
                    ) == #[trigger] assoc_find(old(self).entries_spec().take(i as int), key),
            decreases n - i,
        {
            let ghost kept_before = kept@.map_values(|e: (String, String)| (e.0@, e.1@));
            let ghost prev_take = old(self).entries_spec().take(i as int);
            let ghost cur_take = old(self).entries_spec().take(i as int + 1);
            let keep = !str_starts_with(self.entries[i].0.as_str(), prefix);
            proof {
                assert(cur_take.drop_last() =~= prev_take);
                assert(cur_take.last() == old(self).entries_spec()[i as int]);
            }
            if keep {
                let ghost kept_pre = kept@;
                let pair = (self.entries[i].0.clone(), self.entries[i].1.clone());
                kept.push(pair);
                proof {
                    let kept_now = kept@.map_values(|e: (String, String)| (e.0@, e.1@));
                    assert(kept_now =~= kept_before.push(old(self).entries_spec()[i as int]));
                    assert forall|key: Seq<char>| !seq_starts_with(key, prefix@) implies
                        #[trigger] assoc_find(kept_now, key) == assoc_find(cur_take, key) by {
                        lemma_assoc_find_from_back(kept_now, key);
                        lemma_assoc_find_from_back(cur_take, key);
                        assert(kept_now.drop_last() =~= kept_before);
                        assert(kept_now.last() == cur_take.last());
                    };
                    assert forall|a: int, b: int|
                        0 <= a < b < kept@.len() implies kept@[a].0@ != kept@[b].0@ by {
                        if b == kept@.len() - 1 {
                            assert(kept@[a] == kept_pre[a]);
                            let j = choose|j: int|
                                0 <= j < i && ((#[trigger] kept_pre[a]).0@, kept_pre[a].1@)
                                    == old(self).entries_spec()[j];
                            assert(kept@[b].0@ == old(self).entries_spec()[i as int].0);
                        }
                    };
                }
            } else {
                proof {
                    assert(seq_starts_with(old(self).entries_spec()[i as int].0, prefix@));
                    assert forall|key: Seq<char>| !seq_starts_with(key, prefix@) implies
                        #[trigger] assoc_find(kept_before, key) == assoc_find(
                        cur_take,
                        key,
                    ) by {
                        lemma_assoc_find_from_back(cur_take, key);
                        assert(cur_take.last().0 != key);
                    };
                }
            }
            i = i + 1;
        }
        proof {
            assert(old(self).entries_spec().take(n as int) =~= old(self).entries_spec());
        }
        self.entries = kept;
        proof {
            let kept_now = self.entries_spec();
            assert forall|key: Seq<char>| seq_starts_with(key, prefix@) implies #[trigger] self
                .spec_get(key) is None by {
                assert forall|j: int| 0 <= j < kept_now.len() implies kept_now[j].0 != key by {
                    if kept_now[j].0 == key {
                        assert(!seq_starts_with(kept_now[j].0, prefix@));
                    }
                };
                lemma_assoc_find_none(kept_now, key);
            };
        }
    }
}

/// Updating one entry in place, key unchanged, leaves every other key's
/// lookup alone.
proof fn lemma_assoc_find_update(
    a: Seq<(Seq<char>, Seq<char>)>,
    b: Seq<(Seq<char>, Seq<char>)>,
    i: int,
    key: Seq<char>,
)
    requires
        0 <= i < a.len(),
        b.len() == a.len(),
        forall|j: int| 0 <= j < a.len() && j != i ==> a[j] == b[j],
        a[i].0 == b[i].0,
        a[i].0 != key,
        b[i].0 != key,
    ensures
        assoc_find(a, key) == assoc_find(b, key),
    decreases a.len(),
{
    if a.len() > 0 {
        if i == 0 {
            assert(a.skip(1) =~= b.skip(1));
        } else {
            assert(a[0] == b[0]);
            lemma_assoc_find_update(a.skip(1), b.skip(1), i - 1, key);
        }
    }
}

/// Appending an entry with a different key leaves a lookup alone.
proof fn lemma_assoc_find_push_other(
    a: Seq<(Seq<char>, Seq<char>)>,
    b: Seq<(Seq<char>, Seq<char>)>,
    key: Seq<char>,
)
    requires
        b.len() == a.len() + 1,
        forall|j: int| 0 <= j < a.len() ==> a[j] == b[j],
        b[a.len() as int].0 != key,
    ensures
        assoc_find(a, key) == assoc_find(b, key),
    decreases a.len(),
{
    if a.len() == 0 {
        assert(b.skip(1) =~= Seq::<(Seq<char>, Seq<char>)>::empty());
    } else {
        assert(a[0] == b[0]);
        lemma_assoc_find_push_other(a.skip(1), b.skip(1), key);
    }
}

/// A lookup either resolves before the last entry or at it.
proof fn lemma_assoc_find_from_back(s: Seq<(Seq<char>, Seq<char>)>, key: Seq<char>)
    requires
        s.len() > 0,
    ensures
        assoc_find(s, key) == if assoc_find(s.drop_last(), key) is Some {
            assoc_find(s.drop_last(), key)
        } else if s.last().0 == key {
            Some(s.last().1)
        } else {
            None
        },
    decreases s.len(),
{
    if s.len() == 1 {
        assert(s.drop_last() =~= Seq::<(Seq<char>, Seq<char>)>::empty());
        assert(s.skip(1) =~= Seq::<(Seq<char>, Seq<char>)>::empty());
    } else {
        lemma_assoc_find_from_back(s.skip(1), key);
        assert(s.skip(1).drop_last() =~= s.drop_last().skip(1));
        assert(s.skip(1).last() == s.last());
        assert(s.drop_last()[0] == s[0]);
    }
}

/// The namespaced form of a user key: `pipeline:stage:key`.
pub open spec fn spec_namespaced_key(
    pipeline_id: Seq<char>,
    stage_name: Seq<char>,
    user_key: Seq<char>,
) -> Seq<char> {
    pipeline_id + seq![':'] + stage_name + seq![':'] + user_key
}

/// The prefix owned by one pipeline: `pipeline:`.
pub open spec fn spec_pipeline_prefix(pipeline_id: Seq<char>) -> Seq<char> {
    pipeline_id + seq![':']
}

/// Builds the namespaced form of a user key.
pub fn namespaced_key(pipeline_id: &str, stage_name: &str, user_key: &str) -> (r: String)
    ensures
        r@ == spec_namespaced_key(pipeline_id@, stage_name@, user_key@),
{
    proof {
        reveal_strlit(":");
        assert(":"@ =~= seq![':']);
    }
    let r = pipeline_id.to_owned().concat(":").concat(stage_name).concat(":").concat(user_key);
    proof {
        assert(r@ =~= spec_namespaced_key(pipeline_id@, stage_name@, user_key@));
    }
    r
}

/// Builds the key prefix owned by one pipeline.
pub fn pipeline_prefix(pipeline_id: &str) -> (r: String)
    ensures
        r@ == spec_pipeline_prefix(pipeline_id@),
{
    proof {
        reveal_strlit(":");
        assert(":"@ =~= seq![':']);
    }
    let r = pipeline_id.to_owned().concat(":");
    proof {
        assert(r@ =~= spec_pipeline_prefix(pipeline_id@));
    }
    r
}

/// Every namespaced key lies under its own pipeline's prefix.
pub proof fn lemma_key_under_own_prefix(
    pipeline_id: Seq<char>,
    stage_name: Seq<char>,
    user_key: Seq<char>,
)
    ensures
        seq_starts_with(
            spec_namespaced_key(pipeline_id, stage_name, user_key),
            spec_pipeline_prefix(pipeline_id),
        ),
{
    let k = spec_namespaced_key(pipeline_id, stage_name, user_key);
    let p = spec_pipeline_prefix(pipeline_id);
    assert(k.subrange(0, p.len() as int) =~= p);
}

/// A key namespaced to one pipeline never lies under another pipeline's
/// prefix, provided pipeline identifiers contain no colon — as the decimal
/// and hexadecimal renderings used for them do not.
pub proof fn lemma_key_scoped_to_pipeline(
    pid_a: Seq<char>,
    pid_b: Seq<char>,
    stage_name: Seq<char>,
    user_key: Seq<char>,
)
    requires
        pid_a != pid_b,
        forall|i: int| 0 <= i < pid_a.len() ==> pid_a[i] != ':',
        forall|i: int| 0 <= i < pid_b.len() ==> pid_b[i] != ':',
    ensures
        !seq_starts_with(
            spec_namespaced_key(pid_b, stage_name, user_key),
            spec_pipeline_prefix(pid_a),
        ),
{
    let k = spec_namespaced_key(pid_b, stage_name, user_key);
    let p = spec_pipeline_prefix(pid_a);
    let la = pid_a.len() as int;
    let lb = pid_b.len() as int;
    if seq_starts_with(k, p) {
        assert(forall|i: int| 0 <= i < p.len() ==> k[i] == p[i]) by {
            assert(forall|i: int|
                0 <= i < p.len() ==> k.subrange(0, p.len() as int)[i] == k[i]);
        }
        if la < lb {
            assert(k[la] == p[la]);
            assert(p[la] == ':');
            assert(k[la] == pid_b[la]);
            assert(false);
        } else if la == lb {
            assert forall|i: int| 0 <= i < lb implies pid_a[i] == pid_b[i] by {
                assert(k[i] == p[i]);
                assert(k[i] == pid_b[i]);
                assert(p[i] == pid_a[i]);
            };
            assert(pid_a =~= pid_b);
            assert(false);
        } else {
            assert(k[lb] == p[lb]);
            assert(k[lb] == ':');
            assert(p[lb] == pid_a[lb]);
            assert(false);
        }
    }
}

/// Keys namespaced to different pipelines are different keys: one stream's
/// writes are invisible to another's reads.
pub proof fn lemma_keys_distinct_across_pipelines(
    pid_a: Seq<char>,
    pid_b: Seq<char>,
    stage_a: Seq<char>,
    stage_b: Seq<char>,
    key_a: Seq<char>,
    key_b: Seq<char>,
)
    requires
        pid_a != pid_b,
        forall|i: int| 0 <= i < pid_a.len() ==> pid_a[i] != ':',
        forall|i: int| 0 <= i < pid_b.len() ==> pid_b[i] != ':',
    ensures
        spec_namespaced_key(pid_a, stage_a, key_a) != spec_namespaced_key(pid_b, stage_b, key_b),
{
    lemma_key_under_own_prefix(pid_a, stage_a, key_a);
    lemma_key_scoped_to_pipeline(pid_a, pid_b, stage_b, key_b);
}

} // verus!
