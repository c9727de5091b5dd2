//! A map from target name to its latest record, kept as a vector sorted by
//! name with no name twice.
use crate::order::{compare_names, lemma_name_lt_transitive, lemma_name_order_total, name_lt};
use std::cmp::Ordering;
use vstd::prelude::*;

verus! {

/// A record that is filed under a name.
pub trait Keyed: Sized {
    spec fn key(&self) -> Seq<char>;

    fn name(&self) -> (r: &String)
        ensures
            r@ == self.key(),
    ;

    fn duplicate(&self) -> (r: Self)
        ensures
            r == *self,
    ;
}

/// Every record comes strictly before the records after it.
pub open spec fn sorted_by_name<R: Keyed>(s: Seq<R>) -> bool {
    forall|i: int, j: int| 0 <= i < j < s.len() ==> name_lt(#[trigger] s[i].key(), #[trigger] s[j].key())
}

pub open spec fn has_key<R: Keyed>(s: Seq<R>, n: Seq<char>) -> bool {
    exists|i: int| 0 <= i < s.len() && #[trigger] s[i].key() == n
}

/// An index at which `s` holds a record named `n`, where there is one.
pub open spec fn index_of<R: Keyed>(s: Seq<R>, n: Seq<char>) -> int {
    choose|i: int| 0 <= i < s.len() && #[trigger] s[i].key() == n
}

/// The records of `s`, looked up by name.
pub open spec fn entries_map<R: Keyed>(s: Seq<R>) -> Map<Seq<char>, R> {
    Map::new(|n: Seq<char>| has_key(s, n), |n: Seq<char>| s[index_of(s, n)])
}

/// In a sorted sequence a name is found at one index only.
pub proof fn lemma_key_unique<R: Keyed>(s: Seq<R>, i: int, j: int)
    requires
        sorted_by_name(s),
        0 <= i < s.len(),
        0 <= j < s.len(),
        s[i].key() == s[j].key(),
    ensures
        i == j,
{
    lemma_name_order_total(s[i].key(), s[j].key());
}

/// The map of a sorted sequence gives each record under its own name.
pub proof fn lemma_entry_lookup<R: Keyed>(s: Seq<R>, i: int)
    requires
        sorted_by_name(s),
        0 <= i < s.len(),
    ensures
        entries_map(s).contains_key(s[i].key()),
        entries_map(s)[s[i].key()] == s[i],
{
    let n = s[i].key();
    assert(has_key(s, n));
    let j = index_of(s, n);
    lemma_key_unique(s, i, j);
}

/// A sorted sequence that holds `r` and every record of `s` under another
/// name, and nothing else, maps names as `s` does with `r` put in.
pub proof fn lemma_map_of_replacement<R: Keyed>(s: Seq<R>, t: Seq<R>, r: R)
    requires
        sorted_by_name(s),
        sorted_by_name(t),
        forall|x: R| #[trigger] t.contains(x) <==> ((s.contains(x) && x.key() != r.key()) || x == r),
    ensures
        entries_map(t) == entries_map(s).insert(r.key(), r),
{
    let m = entries_map(s).insert(r.key(), r);
    assert forall|n: Seq<char>| #[trigger] has_key(t, n) == m.contains_key(n) by {
        if has_key(t, n) {
            let j = choose|j: int| 0 <= j < t.len() && #[trigger] t[j].key() == n;
            assert(t.contains(t[j]));
            if t[j] != r {
                let k = choose|k: int| 0 <= k < s.len() && s[k] == t[j];
                assert(s[k].key() == n);
                assert(has_key(s, n));
            }
        }
        if m.contains_key(n) {
            if n == r.key() {
                assert(t.contains(r));
                let j = choose|j: int| 0 <= j < t.len() && t[j] == r;
                assert(t[j].key() == n);
            } else {
                let k = choose|k: int| 0 <= k < s.len() && #[trigger] s[k].key() == n;
                assert(s.contains(s[k]));
                assert(t.contains(s[k]));
                let j = choose|j: int| 0 <= j < t.len() && t[j] == s[k];
                assert(t[j].key() == n);
            }
        }
    }
    assert forall|n: Seq<char>| #[trigger] m.contains_key(n) implies entries_map(t)[n] == m[n] by {
        if n == r.key() {
            assert(t.contains(r));
            let j = choose|j: int| 0 <= j < t.len() && t[j] == r;
            lemma_entry_lookup(t, j);
        } else {
            let k = choose|k: int| 0 <= k < s.len() && #[trigger] s[k].key() == n;
            assert(s.contains(s[k]));
            assert(t.contains(s[k]));
            let j = choose|j: int| 0 <= j < t.len() && t[j] == s[k];
            lemma_entry_lookup(t, j);
            lemma_entry_lookup(s, k);
        }
    }
    assert(entries_map(t) =~= m);
}

/// The latest record of each name, in name order.
pub struct NameMap<R> {
    entries: Vec<R>,
}

impl<R: Keyed> View for NameMap<R> {
    type V = Seq<R>;

    closed spec fn view(&self) -> Seq<R> {
        self.entries@
    }
}

impl<R: Keyed> NameMap<R> {
    pub open spec fn wf(&self) -> bool {
        sorted_by_name(self@)
    }

    /// The records by name.
    pub open spec fn by_name(&self) -> Map<Seq<char>, R> {
        entries_map(self@)
    }

    pub fn new() -> (r: Self)
        ensures
            r.wf(),
            r@ == Seq::<R>::empty(),
            r.by_name() == Map::<Seq<char>, R>::empty(),
    {
        let r = NameMap { entries: Vec::new() };
        assert(r.by_name() =~= Map::<Seq<char>, R>::empty());
        r
    }

    /// Files `rec` under its name: the record already there is replaced, or
    /// the new one takes its place in name order.
    pub fn put(&mut self, rec: R)
        requires
            old(self).wf(),
        ensures
            final(self).wf(),
            final(self).by_name() == old(self).by_name().insert(rec.key(), rec),
    {
        let ghost s = self.entries@;
        let mut i: usize = 0;
        while i < self.entries.len()
            invariant
                self.entries@ == s,
                old(self)@ == s,
                sorted_by_name(s),
                i <= s.len(),
                forall|k: int| 0 <= k < i ==> name_lt(#[trigger] s[k].key(), rec.key()),
            decreases s.len() - i,
        {
            let c = compare_names(self.entries[i].name(), rec.name());
            match c {
                Ordering::Less => {
                    i = i + 1;
                },
                Ordering::Equal => {
                    self.entries.set(i, rec);
                    proof {
                        let t = self.entries@;
                        assert(t =~= s.update(i as int, rec));
                        assert forall|x: R| #[trigger] t.contains(x) <==> ((s.contains(x) && x.key() != rec.key()) || x == rec) by {
                            if t.contains(x) {
                                let k = choose|k: int| 0 <= k < t.len() && t[k] == x;
                                if k != i {
                                    assert(s[k] == x);
                                    if x.key() == rec.key() {
                                        lemma_key_unique(s, k, i as int);
                                    }
                                }
                            }
                            if s.contains(x) && x.key() != rec.key() {
                                let k = choose|k: int| 0 <= k < s.len() && s[k] == x;
                                assert(t[k] == x);
                            }
                            if x == rec {
                                assert(t[i as int] == x);
                            }
                        }
                        assert forall|a: int, b: int| 0 <= a < b < t.len() implies name_lt(#[trigger] t[a].key(), #[trigger] t[b].key()) by {
                            assert(s[a].key() == t[a].key());
                            assert(s[b].key() == t[b].key());
                        }
                        lemma_map_of_replacement(s, t, rec);
                    }
                    return;
                },
                Ordering::Greater => {
                    proof {
                        lemma_put_before(s, i as int, rec);
                    }
                    self.entries.insert(i, rec);
                    proof {
                        lemma_map_of_replacement(s, self.entries@, rec);
                    }
                    return;
                },
            }
        }
        proof {
            lemma_put_before(s, i as int, rec);
        }
        self.entries.push(rec);
        proof {
            assert(self.entries@ =~= s.insert(i as int, rec));
            lemma_map_of_replacement(s, self.entries@, rec);
        }
    }

    /// A copy of the records, in name order.
    pub fn to_vec(&self) -> (r: Vec<R>)
        ensures
            r@ == self@,
    {
        let mut out: Vec<R> = Vec::new();
        let mut i: usize = 0;
        while i < self.entries.len()
            invariant
                i <= self.entries@.len(),
                out@ == self.entries@.subrange(0, i as int),
            decreases self.entries@.len() - i,
        {
            out.push(self.entries[i].duplicate());
            i = i + 1;
            assert(out@ =~= self.entries@.subrange(0, i as int));
        }
        assert(out@ =~= self.entries@);
        out
    }
}

/// Putting `r` at index `i` of `s`, where everything before `i` is named
/// before `r` and everything from `i` on after it, keeps the order and adds
/// a name that `s` did not have.
proof fn lemma_put_before<R: Keyed>(s: Seq<R>, i: int, r: R)
    requires
        sorted_by_name(s),
        0 <= i <= s.len(),
        forall|k: int| 0 <= k < i ==> name_lt(#[trigger] s[k].key(), r.key()),
        i < s.len() ==> name_lt(r.key(), s[i].key()),
    ensures
        sorted_by_name(s.insert(i, r)),
        forall|x: R| #[trigger] s.insert(i, r).contains(x) <==> ((s.contains(x) && x.key() != r.key()) || x == r),
{
    let t = s.insert(i, r);
    assert forall|k: int| i <= k < s.len() implies name_lt(r.key(), #[trigger] s[k].key()) by {
        if k > i {
            lemma_name_lt_transitive(r.key(), s[i].key(), s[k].key());
        }
    }
    assert forall|a: int, b: int| 0 <= a < b < t.len() implies name_lt(#[trigger] t[a].key(), #[trigger] t[b].key()) by {
        if a < i && b > i {
            lemma_name_lt_transitive(s[a].key(), r.key(), s[b - 1].key());
        }
    }
    assert forall|x: R| #[trigger] t.contains(x) <==> ((s.contains(x) && x.key() != r.key()) || x == r) by {
        if t.contains(x) {
            let k = choose|k: int| 0 <= k < t.len() && t[k] == x;
            if k < i {
                assert(s[k] == x);
                lemma_name_order_total(r.key(), r.key());
            } else if k > i {
                assert(s[k - 1] == x);
                lemma_name_order_total(r.key(), r.key());
            }
        }
        if s.contains(x) && x.key() != r.key() {
            let k = choose|k: int| 0 <= k < s.len() && s[k] == x;
            if k < i {
                assert(t[k] == x);
            } else {
                assert(t[k + 1] == x);
            }
        }
        if x == r {
            assert(t[i] == x);
        }
    }
}

} // verus!
