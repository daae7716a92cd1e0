//! The table of subscriptions: for each canonical query string the local
//! listeners that share it, in the order in which they joined.

use vstd::prelude::*;

verus! {

/// `s` without the first occurrence of `x`.
pub open spec fn without_first<A>(s: Seq<A>, x: A) -> Seq<A>
    decreases s.len(),
{
    if s.len() == 0 {
        s
    } else if s[0] == x {
        s.drop_first()
    } else {
        seq![s[0]] + without_first(s.drop_first(), x)
    }
}

/// Removing the first occurrence is removing at its index.
pub proof fn without_first_is_remove<A>(s: Seq<A>, x: A, i: int)
    requires
        0 <= i < s.len(),
        s[i] == x,
        forall|j: int| 0 <= j < i ==> s[j] != x,
    ensures
        without_first(s, x) == s.remove(i),
    decreases i,
{
    if i == 0 {
        assert(s.remove(0) =~= s.drop_first());
    } else {
        let rest = s.drop_first();
        assert forall|j: int| 0 <= j < i - 1 implies rest[j] != x by {
            assert(rest[j] == s[j + 1]);
        }
        without_first_is_remove(rest, x, i - 1);
        assert(s.remove(i) =~= seq![s[0]] + rest.remove(i - 1));
    }
}

/// Removing what does not occur changes nothing.
pub proof fn without_first_of_absent<A>(s: Seq<A>, x: A)
    requires
        !s.contains(x),
    ensures
        without_first(s, x) == s,
    decreases s.len(),
{
    if s.len() > 0 {
        assert(s[0] != x) by {
            if s[0] == x {
                assert(s.contains(x));
            }
        }
        let rest = s.drop_first();
        assert(!rest.contains(x)) by {
            if rest.contains(x) {
                let j = choose|j: int| 0 <= j < rest.len() && rest[j] == x;
                assert(s[j + 1] == x);
                assert(s.contains(x));
            }
        }
        without_first_of_absent(rest, x);
        assert(seq![s[0]] + rest =~= s);
    }
}

/// Removing the first occurrence of something that occurs takes one item
/// away.
pub proof fn without_first_shortens<A>(s: Seq<A>, x: A)
    requires
        s.contains(x),
    ensures
        without_first(s, x).len() == s.len() - 1,
    decreases s.len(),
{
    if s[0] != x {
        let rest = s.drop_first();
        let j = choose|j: int| 0 <= j < s.len() && s[j] == x;
        assert(rest[j - 1] == x);
        without_first_shortens(rest, x);
    }
}

/// Removing the first occurrence adds nothing.
pub proof fn without_first_adds_nothing<A>(s: Seq<A>, x: A, y: A)
    requires
        without_first(s, x).contains(y),
    ensures
        s.contains(y),
    decreases s.len(),
{
    if s.len() > 0 {
        let rest = s.drop_first();
        let shorter = without_first(s, x);
        let j = choose|j: int| 0 <= j < shorter.len() && shorter[j] == y;
        if s[0] == x {
            assert(s[j + 1] == y);
        } else if j == 0 {
            assert(s[0] == y);
        } else {
            assert(without_first(rest, x)[j - 1] == y);
            without_first_adds_nothing(rest, x, y);
            let k = choose|k: int| 0 <= k < rest.len() && rest[k] == y;
            assert(s[k + 1] == y);
        }
    }
}

/// Removing the first occurrence from a sequence without repetition leaves
/// one without repetition.
pub proof fn without_first_keeps_distinct<A>(s: Seq<A>, x: A)
    requires
        s.no_duplicates(),
    ensures
        without_first(s, x).no_duplicates(),
    decreases s.len(),
{
    if s.len() > 0 {
        let rest = s.drop_first();
        assert forall|i: int, j: int| 0 <= i < rest.len() && 0 <= j < rest.len() && i != j implies rest[i]
            != rest[j] by {
            assert(s[i + 1] != s[j + 1]);
        }
        if s[0] != x {
            without_first_keeps_distinct(rest, x);
            let tail = without_first(rest, x);
            let shorter = without_first(s, x);
            assert forall|i: int, j: int|
                0 <= i < shorter.len() && 0 <= j < shorter.len() && i != j implies shorter[i]
                != shorter[j] by {
                if i > 0 && j > 0 {
                    assert(tail[i - 1] != tail[j - 1]);
                } else {
                    let m = if i == 0 {
                        j
                    } else {
                        i
                    };
                    assert(shorter[m] == tail[m - 1]);
                    if tail[m - 1] == s[0] {
                        assert(tail.contains(s[0]));
                        without_first_adds_nothing(rest, x, s[0]);
                        let k = choose|k: int| 0 <= k < rest.len() && rest[k] == s[0];
                        assert(s[k + 1] == s[0]);
                    }
                }
            }
        }
    }
}

/// Whether `listener` is among the listeners of some query of `m`.
pub open spec fn listens(m: Map<Seq<char>, Seq<u64>>, listener: u64) -> bool {
    exists|q: Seq<char>, i: int| #[trigger]
        m.contains_key(q) && 0 <= i < m[q].len() && #[trigger] m[q][i] == listener
}

/// One query string and the listeners that share its subscription.
struct Entry {
    query: String,
    listeners: Vec<u64>,
}

/// The subscriptions of one connection, keyed by canonical query string.
pub struct Table {
    entries: Vec<Entry>,
}

/// Whether entry `i` of `es` is the one of query `q`.
spec fn is_at(es: Seq<Entry>, q: Seq<char>, i: int) -> bool {
    0 <= i < es.len() && es[i].query@ == q
}

/// No two entries have the same query string.
spec fn distinct(es: Seq<Entry>) -> bool {
    forall|i: int, j: int|
        0 <= i < es.len() && 0 <= j < es.len() && i != j ==> #[trigger] es[i].query@
            != #[trigger] es[j].query@
}

/// The entries as a map from query string to listeners.
spec fn as_map(es: Seq<Entry>) -> Map<Seq<char>, Seq<u64>> {
    Map::new(
        |q: Seq<char>| exists|i: int| is_at(es, q, i),
        |q: Seq<char>| es[choose|i: int| is_at(es, q, i)].listeners@,
    )
}

proof fn lemma_at(es: Seq<Entry>, i: int)
    requires
        distinct(es),
        0 <= i < es.len(),
    ensures
        as_map(es).contains_key(es[i].query@),
        as_map(es)[es[i].query@] == es[i].listeners@,
{
    let q = es[i].query@;
    assert(is_at(es, q, i));
    let j = choose|j: int| is_at(es, q, j);
    assert(j == i);
}

proof fn lemma_push(es: Seq<Entry>, e: Entry)
    requires
        distinct(es),
        !as_map(es).contains_key(e.query@),
    ensures
        distinct(es.push(e)),
        as_map(es.push(e)) == as_map(es).insert(e.query@, e.listeners@),
{
    let more = es.push(e);
    assert forall|i: int, j: int| 0 <= i < more.len() && 0 <= j < more.len() && i != j implies more[i].query@
        != more[j].query@ by {
        if i < es.len() && j < es.len() {
            assert(es[i].query@ != es[j].query@);
        } else if i < es.len() {
            assert(is_at(es, es[i].query@, i));
        } else {
            assert(is_at(es, es[j].query@, j));
        }
    }
    let expected = as_map(es).insert(e.query@, e.listeners@);
    assert forall|q: Seq<char>| as_map(more).contains_key(q) == expected.contains_key(q) by {
        if as_map(more).contains_key(q) {
            let i = choose|i: int| is_at(more, q, i);
            if i < es.len() {
                assert(is_at(es, q, i));
            }
        }
        if expected.contains_key(q) {
            if q == e.query@ {
                assert(is_at(more, q, es.len() as int));
            } else {
                let i = choose|i: int| is_at(es, q, i);
                assert(is_at(more, q, i));
            }
        }
    }
    assert forall|q: Seq<char>| as_map(more).contains_key(q) implies as_map(more)[q] == expected[q] by {
        let i = choose|i: int| is_at(more, q, i);
        lemma_at(more, i);
        if i < es.len() {
            lemma_at(es, i);
        }
    }
    assert(as_map(more) =~= expected);
}

proof fn lemma_remove(es: Seq<Entry>, k: int)
    requires
        distinct(es),
        0 <= k < es.len(),
    ensures
        distinct(es.remove(k)),
        as_map(es.remove(k)) == as_map(es).remove(es[k].query@),
{
    let fewer = es.remove(k);
    let gone = es[k].query@;
    assert forall|i: int| 0 <= i < fewer.len() implies fewer[i] == es[if i < k {
        i
    } else {
        i + 1
    }] by {}
    assert forall|i: int, j: int| 0 <= i < fewer.len() && 0 <= j < fewer.len() && i != j implies fewer[i].query@
        != fewer[j].query@ by {
        let a = if i < k {
            i
        } else {
            i + 1
        };
        let b = if j < k {
            j
        } else {
            j + 1
        };
        assert(es[a].query@ != es[b].query@);
    }
    let expected = as_map(es).remove(gone);
    assert forall|q: Seq<char>| as_map(fewer).contains_key(q) == expected.contains_key(q) by {
        if as_map(fewer).contains_key(q) {
            let i = choose|i: int| is_at(fewer, q, i);
            let a = if i < k {
                i
            } else {
                i + 1
            };
            assert(is_at(es, q, a));
            assert(es[a].query@ != es[k].query@);
        }
        if expected.contains_key(q) {
            let a = choose|a: int| is_at(es, q, a);
            assert(a != k);
            let i = if a < k {
                a
            } else {
                a - 1
            };
            assert(is_at(fewer, q, i));
        }
    }
    assert forall|q: Seq<char>| as_map(fewer).contains_key(q) implies as_map(fewer)[q] == expected[q] by {
        let i = choose|i: int| is_at(fewer, q, i);
        lemma_at(fewer, i);
        let a = if i < k {
            i
        } else {
            i + 1
        };
        lemma_at(es, a);
    }
    assert(as_map(fewer) =~= expected);
}

impl View for Table {
    type V = Map<Seq<char>, Seq<u64>>;

    closed spec fn view(&self) -> Map<Seq<char>, Seq<u64>> {
        as_map(self.entries@)
    }
}

impl Table {
    /// No query string stands twice, and every query has a listener.
    pub closed spec fn wf(&self) -> bool {
        &&& distinct(self.entries@)
        &&& forall|i: int| 0 <= i < self.entries@.len() ==> (#[trigger] self.entries@[i]).listeners@.len() > 0
    }

    /// In a well-formed table every query has a listener.
    pub proof fn every_query_has_a_listener(&self, q: Seq<char>)
        requires
            self.wf(),
            self@.contains_key(q),
        ensures
            self@[q].len() > 0,
    {
        let i = choose|i: int| is_at(self.entries@, q, i);
        lemma_at(self.entries@, i);
    }

    /// The table without any subscription.
    pub fn new() -> (t: Table)
        ensures
            t.wf(),
            t@ == Map::<Seq<char>, Seq<u64>>::empty(),
    {
        let t = Table { entries: Vec::new() };
        assert(t@ =~= Map::<Seq<char>, Seq<u64>>::empty());
        t
    }

    fn find(&self, query: &String) -> (r: Option<usize>)
        requires
            self.wf(),
        ensures
            match r {
                Some(i) => i < self.entries@.len() && self.entries@[i as int].query@ == query@
                    && self@.contains_key(query@) && self@[query@]
                    == self.entries@[i as int].listeners@,
                None => !self@.contains_key(query@),
            },
    {
        let mut i: usize = 0;
        while i < self.entries.len()
            invariant
                self.wf(),
                i <= self.entries.len(),
                forall|j: int| 0 <= j < i ==> !is_at(self.entries@, query@, j),
            decreases self.entries.len() - i,
        {
            if self.entries[i].query == *query {
                proof {
                    lemma_at(self.entries@, i as int);
                }
                return Some(i);
            }
            i += 1;
        }
        None
    }

    /// Whether `query` has a subscription.
    pub fn contains(&self, query: &String) -> (r: bool)
        requires
            self.wf(),
        ensures
            r == self@.contains_key(query@),
    {
        self.find(query).is_some()
    }

    /// The listeners of `query`, in the order in which they joined; none
    /// where the query has no subscription.
    pub fn listeners(&self, query: &String) -> (r: Vec<u64>)
        requires
            self.wf(),
        ensures
            r@ == (if self@.contains_key(query@) {
                self@[query@]
            } else {
                Seq::empty()
            }),
    {
        match self.find(query) {
            Some(i) => self.entries[i].listeners.clone(),
            None => Vec::new(),
        }
    }

    /// Adds `listener` at the end of the listeners of `query`, as the first
    /// one where the query had no subscription.
    pub fn join(&mut self, query: &String, listener: u64)
        requires
            old(self).wf(),
        ensures
            final(self).wf(),
            final(self)@ == old(self)@.insert(
                query@,
                (if old(self)@.contains_key(query@) {
                    old(self)@[query@]
                } else {
                    Seq::empty()
                }).push(listener),
            ),
    {
        let mut listeners = match self.find(query) {
            Some(i) => {
                proof {
                    lemma_remove(self.entries@, i as int);
                }
                let entry = self.entries.remove(i);
                entry.listeners
            },
            None => Vec::new(),
        };
        listeners.push(listener);
        let entry = Entry { query: query.clone(), listeners };
        proof {
            lemma_push(self.entries@, entry);
            assert(old(self)@.remove(query@).insert(query@, entry.listeners@) =~= old(self)@.insert(
                query@,
                entry.listeners@,
            ));
        }
        self.entries.push(entry);
    }

    /// Takes the subscription of `query` out of the table and returns its
    /// listeners; none where the query had no subscription.
    pub fn take(&mut self, query: &String) -> (r: Vec<u64>)
        requires
            old(self).wf(),
        ensures
            final(self).wf(),
            final(self)@ == old(self)@.remove(query@),
            r@ == (if old(self)@.contains_key(query@) {
                old(self)@[query@]
            } else {
                Seq::empty()
            }),
    {
        match self.find(query) {
            Some(i) => {
                proof {
                    lemma_remove(self.entries@, i as int);
                }
                let entry = self.entries.remove(i);
                entry.listeners
            },
            None => {
                assert(old(self)@.remove(query@) =~= old(self)@);
                Vec::new()
            },
        }
    }

    /// Puts `listeners` in place of the listeners of `query`.
    pub fn put(&mut self, query: &String, listeners: Vec<u64>)
        requires
            old(self).wf(),
            listeners@.len() > 0,
        ensures
            final(self).wf(),
            final(self)@ == old(self)@.insert(query@, listeners@),
    {
        let _ = self.take(query);
        let entry = Entry { query: query.clone(), listeners };
        proof {
            lemma_push(self.entries@, entry);
            assert(old(self)@.remove(query@).insert(query@, entry.listeners@) =~= old(self)@.insert(
                query@,
                entry.listeners@,
            ));
        }
        self.entries.push(entry);
    }

    /// Empties the table and returns the listeners of all its queries.
    pub fn clear(&mut self) -> (r: Vec<u64>)
        requires
            old(self).wf(),
        ensures
            final(self).wf(),
            final(self)@ == Map::<Seq<char>, Seq<u64>>::empty(),
            forall|l: u64| r@.contains(l) <==> listens(old(self)@, l),
    {
        let mut out: Vec<u64> = Vec::new();
        let mut k: usize = 0;
        while k < self.entries.len()
            invariant
                self.wf(),
                *self == *old(self),
                k <= self.entries.len(),
                forall|l: u64| out@.contains(l) <==> held_before(self.entries@, k as int, l),
            decreases self.entries.len() - k,
        {
            let mut more = self.entries[k].listeners.clone();
            let ghost before = out@;
            let ghost added = more@;
            out.append(&mut more);
            proof {
                let es = self.entries@;
                let k0 = k as int;
                let k1 = k as int + 1;
                assert forall|l: u64| out@.contains(l) <==> held_before(es, k1, l) by {
                    if out@.contains(l) {
                        let j = choose|j: int| 0 <= j < out@.len() && out@[j] == l;
                        if j < before.len() {
                            assert(before[j] == l);
                            assert(before.contains(l));
                            let (e, i) = choose|e: int, i: int| is_held(es, k0, l, e, i);
                            assert(is_held(es, k1, l, e, i));
                        } else {
                            assert(added[j - before.len()] == l);
                            assert(is_held(es, k1, l, k as int, j - before.len()));
                        }
                    }
                    if held_before(es, k1, l) {
                        let (e, i) = choose|e: int, i: int| is_held(es, k1, l, e, i);
                        if e < k {
                            assert(is_held(es, k0, l, e, i));
                            assert(before.contains(l));
                            let j = choose|j: int| 0 <= j < before.len() && before[j] == l;
                            assert(out@[j] == l);
                        } else {
                            assert(out@[before.len() + i] == l);
                        }
                    }
                }
            }
            k += 1;
        }
        proof {
            let es = self.entries@;
            let m = old(self)@;
            let n = es.len() as int;
            assert forall|l: u64| out@.contains(l) <==> listens(m, l) by {
                if held_before(es, n, l) {
                    let (e, i) = choose|e: int, i: int| is_held(es, n, l, e, i);
                    lemma_at(es, e);
                    assert(m.contains_key(es[e].query@) && m[es[e].query@][i] == l);
                }
                if listens(m, l) {
                    let (q, i) = choose|q: Seq<char>, i: int| #[trigger]
                        m.contains_key(q) && 0 <= i < m[q].len() && #[trigger] m[q][i] == l;
                    let e = choose|e: int| is_at(es, q, e);
                    lemma_at(es, e);
                    assert(is_held(es, n, l, e, i));
                }
            }
        }
        self.entries = Vec::new();
        assert(self@ =~= Map::<Seq<char>, Seq<u64>>::empty());
        out
    }
}

/// Whether `listener` is listener `i` of entry `e`, one of the first `k`.
spec fn is_held(es: Seq<Entry>, k: int, listener: u64, e: int, i: int) -> bool {
    0 <= e < k && e < es.len() && 0 <= i < es[e].listeners@.len() && es[e].listeners@[i] == listener
}

/// Whether one of the first `k` entries has `listener`.
spec fn held_before(es: Seq<Entry>, k: int, listener: u64) -> bool {
    exists|e: int, i: int| is_held(es, k, listener, e, i)
}

} // verus!
