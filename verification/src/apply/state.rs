//! The apply state manifest: what the last apply wrote and did.
use vstd::prelude::*;
use crate::order::{lex_le, lex_lt, lemma_lex_antisym, lemma_lex_total, lemma_lex_trans, string_le};
use crate::text::{owned, views};

verus! {

/// The record of the last apply (saved as `state.json`).
///
/// `steps` holds one `(id, detail)` per step id, ordered by id; it is the
/// map that the file stores.
#[derive(Debug, Clone)]
pub struct RigState {
    pub schema_version: u32,
    pub host: String,
    pub role: String,
    pub managed_files: Vec<String>,
    pub package_sets: Vec<String>,
    pub steps: Vec<(String, String)>,
}

pub open spec fn entry_views(s: Seq<(String, String)>) -> Seq<(Seq<char>, Seq<char>)> {
    s.map_values(|e: (String, String)| (e.0@, e.1@))
}

/// Step ids strictly increasing.
pub open spec fn keys_sorted(s: Seq<(Seq<char>, Seq<char>)>) -> bool {
    forall|i: int, j: int| 0 <= i < j < s.len() ==> lex_lt(#[trigger] s[i].0, #[trigger] s[j].0)
}

/// The detail recorded for step `k`, looking from index `i`.
pub open spec fn lookup_from(s: Seq<(Seq<char>, Seq<char>)>, k: Seq<char>, i: int) -> Option<Seq<char>>
    decreases s.len() - i,
{
    if i < 0 || i >= s.len() {
        None
    } else if s[i].0 == k {
        Some(s[i].1)
    } else {
        lookup_from(s, k, i + 1)
    }
}

/// The detail recorded for step `k`.
pub open spec fn lookup(s: Seq<(Seq<char>, Seq<char>)>, k: Seq<char>) -> Option<Seq<char>> {
    lookup_from(s, k, 0)
}

impl RigState {
    /// The steps are ordered by id without repeats.
    pub open spec fn well_formed(&self) -> bool {
        keys_sorted(entry_views(self.steps@))
    }

    /// The detail recorded for step `id`.
    pub open spec fn step_detail_spec(&self, id: Seq<char>) -> Option<Seq<char>> {
        lookup(entry_views(self.steps@), id)
    }

    /// An empty record for `host` with `role`.
    pub fn new(host: &str, role: &str) -> (s: Self)
        ensures
            s.schema_version == 1,
            s.host@ == host@,
            s.role@ == role@,
            s.managed_files@.len() == 0,
            s.package_sets@.len() == 0,
            s.steps@.len() == 0,
            s.well_formed(),
    {
        RigState {
            schema_version: 1,
            host: owned(host),
            role: owned(role),
            managed_files: Vec::new(),
            package_sets: Vec::new(),
            steps: Vec::new(),
        }
    }

    /// Records a managed file once.
    pub fn note_file(&mut self, path: &str)
        ensures
            views(old(self).managed_files@).contains(path@) ==> views(final(self).managed_files@)
                == views(old(self).managed_files@),
            !views(old(self).managed_files@).contains(path@) ==> views(final(self).managed_files@)
                == views(old(self).managed_files@).push(path@),
            views(old(self).managed_files@).no_duplicates() ==> views(final(self).managed_files@).no_duplicates(),
            final(self).schema_version == old(self).schema_version,
            final(self).host == old(self).host,
            final(self).role == old(self).role,
            final(self).package_sets == old(self).package_sets,
            final(self).steps == old(self).steps,
    {
        let mut i: usize = 0;
        while i < self.managed_files.len()
            invariant
                i <= self.managed_files.len(),
                forall|k: int| 0 <= k < i ==> views(self.managed_files@)[k] != path@,
            decreases self.managed_files.len() - i,
        {
            if crate::text::str_eq(self.managed_files[i].as_str(), path) {
                assert(views(self.managed_files@)[i as int] == path@);
                return;
            }
            i = i + 1;
        }
        let ghost before = views(self.managed_files@);
        self.managed_files.push(owned(path));
        assert(views(self.managed_files@) =~= before.push(path@));
        assert(!before.contains(path@)) by {
            if before.contains(path@) {
                let k = choose|k: int| 0 <= k < before.len() && before[k] == path@;
                assert(views(old(self).managed_files@)[k] == path@);
            }
        }
    }

    /// The detail recorded for step `id`.
    pub fn step_detail(&self, id: &str) -> (r: Option<String>)
        ensures
            match r {
                Some(d) => self.step_detail_spec(id@) == Some(d@),
                None => self.step_detail_spec(id@) is None,
            },
    {
        let ghost es = entry_views(self.steps@);
        let mut i: usize = 0;
        while i < self.steps.len()
            invariant
                i <= self.steps.len(),
                es == entry_views(self.steps@),
                lookup_from(es, id@, i as int) == lookup(es, id@),
            decreases self.steps.len() - i,
        {
            assert(es[i as int] == (self.steps@[i as int].0@, self.steps@[i as int].1@));
            if crate::text::str_eq(self.steps[i].0.as_str(), id) {
                return Some(self.steps[i].1.clone());
            }
            i = i + 1;
        }
        None
    }

    /// Records the detail of step `id`, replacing an earlier one.
    pub fn note_step(&mut self, id: &str, detail: &str)
        requires
            old(self).well_formed(),
        ensures
            final(self).well_formed(),
            forall|k: Seq<char>| #[trigger] final(self).step_detail_spec(k) == if k == id@ {
                Some(detail@)
            } else {
                old(self).step_detail_spec(k)
            },
            final(self).schema_version == old(self).schema_version,
            final(self).host == old(self).host,
            final(self).role == old(self).role,
            final(self).managed_files == old(self).managed_files,
            final(self).package_sets == old(self).package_sets,
    {
        let key = owned(id);
        let ghost es = entry_views(self.steps@);
        let mut p: usize = 0;
        while p < self.steps.len() && !string_le(&key, &self.steps[p].0)
            invariant
                p <= self.steps.len(),
                es == entry_views(self.steps@),
                key@ == id@,
                forall|i: int| 0 <= i < p ==> lex_lt(#[trigger] es[i].0, id@),
            decreases self.steps.len() - p,
        {
            proof {
                lemma_lex_total(id@, es[p as int].0);
                if es[p as int].0 == id@ {
                    crate::order::lemma_lex_refl(id@);
                }
            }
            p = p + 1;
        }
        proof {
            lemma_keys_unique(es);
        }
        if p < self.steps.len() && crate::text::str_eq(self.steps[p].0.as_str(), id) {
            let ghost old_steps = self.steps@;
            self.steps.set(p, (key, owned(detail)));
            proof {
                let ns = entry_views(self.steps@);
                assert(ns =~= es.update(p as int, (id@, detail@)));
                assert(keys_sorted(ns)) by {
                    assert forall|i: int, j: int| 0 <= i < j < ns.len() implies lex_lt(
                        #[trigger] ns[i].0,
                        #[trigger] ns[j].0,
                    ) by {
                        assert(ns[i].0 == es[i].0 && ns[j].0 == es[j].0);
                    }
                }
                lemma_keys_unique(ns);
                assert forall|k: Seq<char>| #[trigger] lookup(ns, k) == if k == id@ {
                    Some(detail@)
                } else {
                    lookup(es, k)
                } by {
                    lemma_lookup_unique(ns, k);
                    lemma_lookup_unique(es, k);
                    if k != id@ {
                        if exists|i: int| 0 <= i < es.len() && es[i].0 == k {
                            let i = choose|i: int| 0 <= i < es.len() && es[i].0 == k;
                            assert(ns[i] == es[i]);
                        }
                        if exists|i: int| 0 <= i < ns.len() && ns[i].0 == k {
                            let i = choose|i: int| 0 <= i < ns.len() && ns[i].0 == k;
                            assert(ns[i] == es[i]);
                        }
                    } else {
                        assert(ns[p as int].0 == k);
                    }
                }
            }
        } else {
            proof {
                if p < es.len() {
                    assert(lex_le(id@, es[p as int].0));
                    assert(es[p as int].0 != id@);
                }
            }
            self.steps.insert(p, (key, owned(detail)));
            proof {
                let ns = entry_views(self.steps@);
                assert(ns =~= es.insert(p as int, (id@, detail@)));
                assert(keys_sorted(ns)) by {
                    assert forall|i: int, j: int| 0 <= i < j < ns.len() implies lex_lt(
                        #[trigger] ns[i].0,
                        #[trigger] ns[j].0,
                    ) by {
                        if j < p {
                            assert(ns[i] == es[i] && ns[j] == es[j]);
                        } else if j == p {
                            assert(ns[i] == es[i]);
                        } else if i == p {
                            assert(ns[j] == es[j - 1]);
                            if j - 1 > p {
                                assert(lex_lt(es[p as int].0, es[j - 1].0));
                                lemma_lex_trans(id@, es[p as int].0, es[j - 1].0);
                                if id@ == es[j - 1].0 {
                                    lemma_lex_antisym(es[p as int].0, es[j - 1].0);
                                }
                            }
                        } else if i < p {
                            assert(ns[i] == es[i] && ns[j] == es[j - 1]);
                        } else {
                            assert(ns[i] == es[i - 1] && ns[j] == es[j - 1]);
                        }
                    }
                }
                lemma_keys_unique(ns);
                assert forall|k: Seq<char>| #[trigger] lookup(ns, k) == if k == id@ {
                    Some(detail@)
                } else {
                    lookup(es, k)
                } by {
                    lemma_lookup_unique(ns, k);
                    lemma_lookup_unique(es, k);
                    assert(ns[p as int] == (id@, detail@));
                    if k != id@ {
                        if exists|i: int| 0 <= i < es.len() && es[i].0 == k {
                            let i = choose|i: int| 0 <= i < es.len() && es[i].0 == k;
                            if i < p {
                                assert(ns[i] == es[i]);
                            } else {
                                assert(ns[i + 1] == es[i]);
                            }
                        }
                        if exists|i: int| 0 <= i < ns.len() && ns[i].0 == k {
                            let i = choose|i: int| 0 <= i < ns.len() && ns[i].0 == k;
                            if i < p {
                                assert(ns[i] == es[i]);
                            } else {
                                assert(i != p);
                                assert(ns[i] == es[i - 1]);
                            }
                        }
                    } else {
                        if exists|i: int| 0 <= i < es.len() && es[i].0 == k {
                            let i = choose|i: int| 0 <= i < es.len() && es[i].0 == k;
                            if i < p {
                                assert(lex_lt(es[i].0, id@));
                            } else if i > p {
                                assert(lex_lt(es[p as int].0, es[i].0));
                                lemma_lex_antisym(es[p as int].0, es[i].0);
                            }
                        }
                    }
                }
            }
        }
    }
}

/// Sorted keys are distinct.
pub proof fn lemma_keys_unique(s: Seq<(Seq<char>, Seq<char>)>)
    requires
        keys_sorted(s),
    ensures
        forall|i: int, j: int| 0 <= i < s.len() && 0 <= j < s.len() && i != j ==> #[trigger] s[i].0 != #[trigger] s[j].0,
{
}

/// With distinct keys, the lookup finds the one entry with the key.
pub proof fn lemma_lookup_unique(s: Seq<(Seq<char>, Seq<char>)>, k: Seq<char>)
    requires
        forall|i: int, j: int| 0 <= i < s.len() && 0 <= j < s.len() && i != j ==> #[trigger] s[i].0 != #[trigger] s[j].0,
    ensures
        forall|i: int| #![trigger s[i]] 0 <= i < s.len() && s[i].0 == k ==> lookup(s, k) == Some(s[i].1),
        (forall|i: int| #![trigger s[i]] 0 <= i < s.len() ==> s[i].0 != k) ==> lookup(s, k) is None,
{
    lemma_lookup_from(s, k, 0);
}

proof fn lemma_lookup_from(s: Seq<(Seq<char>, Seq<char>)>, k: Seq<char>, from: int)
    requires
        0 <= from <= s.len(),
        forall|i: int, j: int| 0 <= i < s.len() && 0 <= j < s.len() && i != j ==> #[trigger] s[i].0 != #[trigger] s[j].0,
    ensures
        forall|i: int| #![trigger s[i]] from <= i < s.len() && s[i].0 == k ==> lookup_from(s, k, from) == Some(s[i].1),
        (forall|i: int| #![trigger s[i]] from <= i < s.len() ==> s[i].0 != k) ==> lookup_from(s, k, from) is None,
    decreases s.len() - from,
{
    if from < s.len() {
        lemma_lookup_from(s, k, from + 1);
    }
}

/// Recording a step and then reading it gives what was recorded, and leaves
/// every other step as it was.
pub proof fn law_note_step_then_read(before: RigState, after: RigState, id: Seq<char>, detail: Seq<char>, other: Seq<char>)
    requires
        before.well_formed(),
        after.well_formed(),
        forall|k: Seq<char>| #[trigger] after.step_detail_spec(k) == if k == id {
            Some(detail)
        } else {
            before.step_detail_spec(k)
        },
        other != id,
    ensures
        after.step_detail_spec(id) == Some(detail),
        after.step_detail_spec(other) == before.step_detail_spec(other),
{
}

} // verus!
