//! A set of names, held in ascending order so that every set has exactly one
//! representation. The order does what hashing would do for a hash set:
//! vstd models hashing for integer keys, not for strings.
use vstd::prelude::*;
use crate::order::{ascends, lemma_ascends_unique};
use crate::text::{lemma_lex_total, lemma_lex_transitive, lex_lt, str_lt};

verus! {

/// Whether the texts stand in strictly ascending lexicographic order, which
/// rules out duplicates.
pub open spec fn ascending(s: Seq<Seq<char>>) -> bool {
    forall|i: int, j: int| 0 <= i < j < s.len() ==> lex_lt(#[trigger] s[i], #[trigger] s[j])
}

/// Whether a name is a wildcard pattern, which stands for no single host.
pub open spec fn is_wildcard(name: Seq<char>) -> bool {
    name.contains('*')
}

/// The texts that the strings of `v` hold, in the same order.
pub open spec fn texts(v: Seq<String>) -> Seq<Seq<char>> {
    Seq::new(v.len(), |i: int| v[i]@)
}

/// Two ascending sequences with the same members are the same sequence.
pub proof fn lemma_ascending_unique(a: Seq<Seq<char>>, b: Seq<Seq<char>>)
    requires
        ascending(a),
        ascending(b),
        forall|n: Seq<char>| a.contains(n) <==> b.contains(n),
    ensures
        a == b,
{
    let before = |x: Seq<char>, y: Seq<char>| lex_lt(x, y);
    assert forall|x: Seq<char>, y: Seq<char>| #[trigger] before(x, y) implies !before(y, x) by {
        lemma_lex_total(x, y);
    }
    assert(ascends(a, before));
    assert(ascends(b, before));
    lemma_ascends_unique(a, b, before);
}

/// A finite set of names.
pub struct NameSet {
    names: Vec<String>,
}

impl View for NameSet {
    type V = Seq<Seq<char>>;

    /// The members, in ascending order.
    closed spec fn view(&self) -> Seq<Seq<char>> {
        texts(self.names@)
    }
}

impl NameSet {
    /// The members are held in strictly ascending order.
    #[verifier::type_invariant]
    spec fn ordered(&self) -> bool {
        ascending(texts(self.names@))
    }

    /// The empty set.
    pub fn new() -> (s: NameSet)
        ensures
            s@.len() == 0,
            ascending(s@),
    {
        NameSet { names: Vec::new() }
    }

    /// The set of the given names.
    pub fn from_names(names: Vec<String>) -> (s: NameSet)
        ensures
            ascending(s@),
            forall|n: Seq<char>| s@.contains(n) <==> texts(names@).contains(n),
    {
        let mut set = NameSet::new();
        let ghost all = texts(names@);
        let mut i: usize = 0;
        while i < names.len()
            invariant
                i <= names.len(),
                all == texts(names@),
                ascending(set@),
                forall|n: Seq<char>| set@.contains(n) <==> all.take(i as int).contains(n),
            decreases names.len() - i,
        {
            let _ = set.insert(names[i].clone());
            proof {
                let seen = all.take(i as int);
                let next = all.take(i as int + 1);
                assert(next =~= seen.push(all[i as int]));
                assert forall|n: Seq<char>| set@.contains(n) <==> next.contains(n) by {
                    if seen.contains(n) {
                        let k = choose|k: int| 0 <= k < seen.len() && seen[k] == n;
                        assert(next[k] == n);
                    }
                    if n == all[i as int] {
                        assert(next[i as int] == n);
                    }
                    if next.contains(n) {
                        let k = choose|k: int| 0 <= k < next.len() && next[k] == n;
                        if k < i {
                            assert(seen[k] == n);
                        }
                    }
                }
            }
            i += 1;
        }
        assert(all.take(names.len() as int) =~= all);
        set
    }

    /// The number of members.
    pub fn len(&self) -> (n: usize)
        ensures
            n == self@.len(),
    {
        self.names.len()
    }

    /// The member at position `i` of the ascending order.
    pub fn get(&self, i: usize) -> (name: &String)
        requires
            i < self@.len(),
        ensures
            name@ == self@[i as int],
    {
        &self.names[i]
    }

    /// The position of the first member that does not precede `name`.
    fn lower_bound(&self, name: &str) -> (at: usize)
        ensures
            at <= self@.len(),
            forall|k: int| 0 <= k < at ==> lex_lt(#[trigger] self@[k], name@),
            forall|k: int| at <= k < self@.len() ==> !lex_lt(#[trigger] self@[k], name@),
    {
        proof {
            use_type_invariant(self);
        }
        let mut lo: usize = 0;
        let mut hi: usize = self.names.len();
        while lo < hi
            invariant
                ascending(self@),
                lo <= hi <= self@.len(),
                self@.len() == self.names.len(),
                forall|k: int| 0 <= k < lo ==> lex_lt(#[trigger] self@[k], name@),
                forall|k: int| hi <= k < self@.len() ==> !lex_lt(#[trigger] self@[k], name@),
            decreases hi - lo,
        {
            let mid: usize = lo + (hi - lo) / 2;
            if str_lt(self.names[mid].as_str(), name) {
                assert forall|k: int| 0 <= k < mid + 1 implies lex_lt(
                    #[trigger] self@[k],
                    name@,
                ) by {
                    if k < mid {
                        lemma_lex_transitive(self@[k], self@[mid as int], name@);
                    }
                }
                lo = mid + 1;
            } else {
                assert forall|k: int| mid <= k < self@.len() implies !lex_lt(
                    #[trigger] self@[k],
                    name@,
                ) by {
                    if k > mid && lex_lt(self@[k], name@) {
                        lemma_lex_transitive(self@[mid as int], self@[k], name@);
                    }
                }
                hi = mid;
            }
        }
        lo
    }

    /// Whether `name` is a member.
    pub fn contains(&self, name: &str) -> (found: bool)
        ensures
            found == self@.contains(name@),
    {
        proof {
            use_type_invariant(self);
        }
        let at = self.lower_bound(name);
        let found = at < self.names.len() && !str_lt(name, self.names[at].as_str());
        proof {
            if found {
                lemma_lex_total(name@, self@[at as int]);
            } else if self@.contains(name@) {
                let k = choose|k: int| 0 <= k < self@.len() && self@[k] == name@;
                lemma_lex_total(name@, name@);
                if k > at {
                    lemma_lex_total(name@, self@[at as int]);
                }
            }
        }
        found
    }

    /// Adds `name`; returns whether it was new.
    pub fn insert(&mut self, name: String) -> (added: bool)
        ensures
            ascending(final(self)@),
            added == !old(self)@.contains(name@),
            forall|n: Seq<char>| final(self)@.contains(n) <==> (old(self)@.contains(n) || n == name@),
            final(self)@.len() == old(self)@.len() + if added { 1int } else { 0int },
    {
        proof {
            use_type_invariant(&*self);
        }
        let at = self.lower_bound(name.as_str());
        if at < self.names.len() && !str_lt(name.as_str(), self.names[at].as_str()) {
            proof {
                lemma_lex_total(name@, self@[at as int]);
            }
            return false;
        }
        let ghost before = self@;
        let ghost added_text = name@;
        proof {
            lemma_lex_total(added_text, added_text);
            if before.contains(added_text) {
                let k = choose|k: int| 0 <= k < before.len() && before[k] == added_text;
                if k > at {
                    lemma_lex_total(added_text, before[at as int]);
                }
            }
        }
        let mut names: Vec<String> = Vec::new();
        core::mem::swap(&mut self.names, &mut names);
        names.insert(at, name);
        proof {
            let after = texts(names@);
            assert(after =~= before.insert(at as int, added_text));
            assert forall|i: int, j: int| 0 <= i < j < after.len() implies lex_lt(
                #[trigger] after[i],
                #[trigger] after[j],
            ) by {
                if j == at {
                    assert(after[i] == before[i]);
                } else if i == at {
                    assert(after[j] == before[j - 1]);
                    lemma_lex_total(added_text, before[j - 1]);
                    if j - 1 > at {
                        lemma_lex_transitive(added_text, before[at as int], before[j - 1]);
                    }
                } else {
                    let i0 = if i < at { i } else { i - 1 };
                    let j0 = if j < at { j } else { j - 1 };
                    assert(after[i] == before[i0]);
                    assert(after[j] == before[j0]);
                }
            }
            assert forall|n: Seq<char>| after.contains(n) <==> (before.contains(n) || n
                == added_text) by {
                if after.contains(n) {
                    let k = choose|k: int| 0 <= k < after.len() && after[k] == n;
                    if k < at {
                        assert(before[k] == n);
                    } else if k > at {
                        assert(before[k - 1] == n);
                    }
                }
                if before.contains(n) {
                    let k = choose|k: int| 0 <= k < before.len() && before[k] == n;
                    if k < at {
                        assert(after[k] == n);
                    } else {
                        assert(after[k + 1] == n);
                    }
                }
                if n == added_text {
                    assert(after[at as int] == n);
                }
            }
        }
        self.names = names;
        true
    }

    /// Removes `name`; returns whether it was a member.
    pub fn remove(&mut self, name: &str) -> (removed: bool)
        ensures
            ascending(final(self)@),
            removed == old(self)@.contains(name@),
            forall|n: Seq<char>| final(self)@.contains(n) <==> (old(self)@.contains(n) && n != name@),
    {
        proof {
            use_type_invariant(&*self);
        }
        let at = self.lower_bound(name);
        let ghost before = self@;
        if at < self.names.len() && !str_lt(name, self.names[at].as_str()) {
            proof {
                lemma_lex_total(name@, before[at as int]);
            }
            let mut names: Vec<String> = Vec::new();
            core::mem::swap(&mut self.names, &mut names);
            let _ = names.remove(at);
            proof {
                let after = texts(names@);
                assert(after =~= before.remove(at as int));
                assert forall|i: int, j: int| 0 <= i < j < after.len() implies lex_lt(
                    #[trigger] after[i],
                    #[trigger] after[j],
                ) by {
                    let i0 = if i < at { i } else { i + 1 };
                    let j0 = if j < at { j } else { j + 1 };
                    assert(after[i] == before[i0]);
                    assert(after[j] == before[j0]);
                }
                assert forall|n: Seq<char>| after.contains(n) <==> (before.contains(n) && n
                    != name@) by {
                    if after.contains(n) {
                        let k = choose|k: int| 0 <= k < after.len() && after[k] == n;
                        let k0 = if k < at { k } else { k + 1 };
                        assert(before[k0] == n);
                        lemma_lex_total(n, name@);
                        if k0 < at {
                            assert(lex_lt(before[k0], before[at as int]));
                        } else {
                            assert(lex_lt(before[at as int], before[k0]));
                        }
                    }
                    if before.contains(n) && n != name@ {
                        let k = choose|k: int| 0 <= k < before.len() && before[k] == n;
                        if k < at {
                            assert(after[k] == n);
                        } else {
                            assert(after[k - 1] == n);
                        }
                    }
                }
            }
            self.names = names;
            true
        } else {
            proof {
                lemma_lex_total(name@, name@);
                if before.contains(name@) {
                    let k = choose|k: int| 0 <= k < before.len() && before[k] == name@;
                    if k > at {
                        lemma_lex_total(name@, before[at as int]);
                    }
                }
            }
            false
        }
    }

    /// The members, in ascending order.
    pub fn as_vec(&self) -> (v: &Vec<String>)
        ensures
            texts(v@) == self@,
            ascending(texts(v@)),
    {
        proof {
            use_type_invariant(self);
        }
        &self.names
    }

    /// The members as a vector, in ascending order.
    pub fn into_vec(self) -> (v: Vec<String>)
        ensures
            texts(v@) == self@,
            ascending(texts(v@)),
    {
        proof {
            use_type_invariant(&self);
        }
        self.names
    }
}

} // verus!
