//! Request parameters: a map from parameter names to values whose entries
//! are kept in ascending key order, the order in which Last.fm signs them.

use vstd::prelude::*;
use crate::text::chars_of;

verus! {

/// Lexicographic order of strings by character code; for UTF-8 text this is
/// the byte order that `String`'s `Ord` uses.
pub open spec fn key_less(a: Seq<char>, b: Seq<char>) -> bool
    decreases a.len(),
{
    if a.len() == 0 {
        b.len() > 0
    } else if b.len() == 0 {
        false
    } else if a[0] < b[0] {
        true
    } else if b[0] < a[0] {
        false
    } else {
        key_less(a.drop_first(), b.drop_first())
    }
}

/// Entries whose keys strictly ascend.
pub open spec fn keys_ascending(e: Seq<(Seq<char>, Seq<char>)>) -> bool {
    forall|i: int, j: int| 0 <= i < j < e.len() ==> key_less(#[trigger] e[i].0, #[trigger] e[j].0)
}

/// The map that a sequence of entries denotes (a later entry wins).
pub open spec fn entries_map(e: Seq<(Seq<char>, Seq<char>)>) -> Map<Seq<char>, Seq<char>>
    decreases e.len(),
{
    if e.len() == 0 {
        Map::empty()
    } else {
        entries_map(e.drop_last()).insert(e.last().0, e.last().1)
    }
}

/// `key_less` is irreflexive.
pub proof fn lemma_key_less_irreflexive(a: Seq<char>)
    ensures
        !key_less(a, a),
    decreases a.len(),
{
    if a.len() > 0 {
        lemma_key_less_irreflexive(a.drop_first());
    }
}

/// `key_less` is transitive.
pub proof fn lemma_key_less_transitive(a: Seq<char>, b: Seq<char>, c: Seq<char>)
    requires
        key_less(a, b),
        key_less(b, c),
    ensures
        key_less(a, c),
    decreases a.len(),
{
    if a.len() > 0 && b.len() > 0 && c.len() > 0 {
        if a[0] == b[0] && b[0] == c[0] {
            lemma_key_less_transitive(a.drop_first(), b.drop_first(), c.drop_first());
        }
    }
}

/// Any two strings are equal or ordered one way.
pub proof fn lemma_key_less_total(a: Seq<char>, b: Seq<char>)
    ensures
        a == b || key_less(a, b) || key_less(b, a),
    decreases a.len(),
{
    if a.len() > 0 && b.len() > 0 && a[0] == b[0] {
        lemma_key_less_total(a.drop_first(), b.drop_first());
        if a.drop_first() == b.drop_first() {
            assert(a =~= seq![a[0]] + a.drop_first());
            assert(b =~= seq![b[0]] + b.drop_first());
        }
    } else if a.len() == 0 && b.len() == 0 {
        assert(a =~= b);
    }
}

/// With ascending keys, each key occurs once.
pub proof fn lemma_ascending_unique(e: Seq<(Seq<char>, Seq<char>)>, i: int, j: int)
    requires
        keys_ascending(e),
        0 <= i < e.len(),
        0 <= j < e.len(),
        e[i].0 == e[j].0,
    ensures
        i == j,
{
    if i < j {
        lemma_key_less_irreflexive(e[i].0);
    } else if j < i {
        lemma_key_less_irreflexive(e[i].0);
    }
}

/// The domain and values of `entries_map` for entries with ascending keys.
pub proof fn lemma_entries_map(e: Seq<(Seq<char>, Seq<char>)>)
    requires
        keys_ascending(e),
    ensures
        forall|k: Seq<char>|
            #![trigger entries_map(e).dom().contains(k)]
            entries_map(e).dom().contains(k) <==> exists|i: int| 0 <= i < e.len() && e[i].0 == k,
        forall|i: int| 0 <= i < e.len() ==> #[trigger] entries_map(e)[e[i].0] == e[i].1,
        entries_map(e).dom().finite(),
        entries_map(e).dom().len() == e.len(),
    decreases e.len(),
{
    if e.len() > 0 {
        let d = e.drop_last();
        assert(keys_ascending(d));
        lemma_entries_map(d);
        let last = e.last();
        assert forall|k: Seq<char>| #[trigger]
            entries_map(e).dom().contains(k) <==> exists|i: int| 0 <= i < e.len() && e[i].0 == k by {
            if entries_map(e).dom().contains(k) {
                if k == last.0 {
                    assert(e[e.len() - 1].0 == k);
                } else {
                    let i = choose|i: int| 0 <= i < d.len() && d[i].0 == k;
                    assert(e[i].0 == k);
                }
            }
            if exists|i: int| 0 <= i < e.len() && e[i].0 == k {
                let i = choose|i: int| 0 <= i < e.len() && e[i].0 == k;
                if i < e.len() - 1 {
                    assert(d[i].0 == k);
                }
            }
        }
        assert forall|i: int| 0 <= i < e.len() implies #[trigger] entries_map(e)[e[i].0] == e[i].1 by {
            if i < e.len() - 1 {
                assert(d[i] == e[i]);
                if e[i].0 == last.0 {
                    lemma_ascending_unique(e, i, e.len() - 1);
                }
            }
        }
        assert(!entries_map(d).dom().contains(last.0)) by {
            if entries_map(d).dom().contains(last.0) {
                let i = choose|i: int| 0 <= i < d.len() && d[i].0 == last.0;
                assert(e[i].0 == last.0);
                lemma_ascending_unique(e, i, e.len() - 1);
            }
        }
    }
}

/// Entries with ascending keys are determined by the map they denote.
pub proof fn lemma_ascending_canonical(
    e1: Seq<(Seq<char>, Seq<char>)>,
    e2: Seq<(Seq<char>, Seq<char>)>,
)
    requires
        keys_ascending(e1),
        keys_ascending(e2),
        entries_map(e1) == entries_map(e2),
    ensures
        e1 == e2,
    decreases e1.len(),
{
    lemma_entries_map(e1);
    lemma_entries_map(e2);
    if e1.len() == 0 {
        assert(e2.len() == 0);
        assert(e1 =~= e2);
    } else {
        assert(e2.len() == e1.len());
        let n = e1.len() - 1;
        let k1 = e1[n].0;
        let k2 = e2[n].0;
        assert(entries_map(e1).dom().contains(k1));
        assert(entries_map(e2).dom().contains(k2));
        let j = choose|j: int| 0 <= j < e2.len() && e2[j].0 == k1;
        let i = choose|i: int| 0 <= i < e1.len() && e1[i].0 == k2;
        if j != n {
            assert(key_less(k1, k2));
            if i != n {
                assert(key_less(k2, k1));
                lemma_key_less_transitive(k1, k2, k1);
                lemma_key_less_irreflexive(k1);
            } else {
                lemma_key_less_irreflexive(k1);
            }
        }
        assert(k1 == k2);
        assert(e1[n].1 == entries_map(e1)[k1]);
        assert(e2[n].1 == entries_map(e2)[k2]);
        let d1 = e1.drop_last();
        let d2 = e2.drop_last();
        assert(keys_ascending(d1));
        assert(keys_ascending(d2));
        lemma_entries_map(d1);
        lemma_entries_map(d2);
        assert(entries_map(d1) =~= entries_map(d2)) by {
            assert forall|k: Seq<char>| #[trigger] entries_map(d1).dom().contains(k) implies entries_map(
                d2,
            ).dom().contains(k) && entries_map(d1)[k] == entries_map(d2)[k] by {
                let a = choose|a: int| 0 <= a < d1.len() && d1[a].0 == k;
                assert(e1[a].0 == k);
                assert(entries_map(e1).dom().contains(k));
                let b = choose|b: int| 0 <= b < e2.len() && e2[b].0 == k;
                if b == n {
                    lemma_ascending_unique(e1, a, n);
                }
                assert(d2[b].0 == k);
                assert(entries_map(d1)[d1[a].0] == d1[a].1);
                assert(entries_map(d2)[d2[b].0] == d2[b].1);
                assert(entries_map(e1)[e1[a].0] == e1[a].1);
                assert(entries_map(e2)[e2[b].0] == e2[b].1);
            }
            assert forall|k: Seq<char>| #[trigger] entries_map(d2).dom().contains(k) implies entries_map(
                d1,
            ).dom().contains(k) by {
                let b = choose|b: int| 0 <= b < d2.len() && d2[b].0 == k;
                assert(e2[b].0 == k);
                assert(entries_map(e2).dom().contains(k));
                let a = choose|a: int| 0 <= a < e1.len() && e1[a].0 == k;
                if a == n {
                    lemma_ascending_unique(e2, b, n);
                }
                assert(d1[a].0 == k);
            }
        }
        lemma_ascending_canonical(d1, d2);
        assert(e1 =~= d1.push(e1[n]));
        assert(e2 =~= d2.push(e2[n]));
    }
}

/// The entries, in ascending key order, that denote the finite map `m`.
pub open spec fn sorted_entries(m: Map<Seq<char>, Seq<char>>) -> Seq<(Seq<char>, Seq<char>)> {
    choose|e: Seq<(Seq<char>, Seq<char>)>| keys_ascending(e) && entries_map(e) == m
}

/// Entries with ascending keys are the sorted entries of the map they denote.
pub proof fn lemma_sorted_entries(e: Seq<(Seq<char>, Seq<char>)>)
    requires
        keys_ascending(e),
    ensures
        sorted_entries(entries_map(e)) == e,
{
    let m = entries_map(e);
    assert(keys_ascending(e) && entries_map(e) == m);
    let c = sorted_entries(m);
    lemma_ascending_canonical(c, e);
}

/// A set of request parameters, kept in ascending key order.
pub struct Params {
    entries: Vec<(String, String)>,
}

impl View for Params {
    type V = Map<Seq<char>, Seq<char>>;

    open spec fn view(&self) -> Map<Seq<char>, Seq<char>> {
        entries_map(self.entry_seq())
    }
}

/// Which way one key compares with another.
pub enum KeyOrder {
    Less,
    Equal,
    Greater,
}

/// Compares two keys in the order of `key_less`.
pub fn compare_keys(a: &str, b: &str) -> (res: KeyOrder)
    ensures
        res is Less <==> key_less(a@, b@),
        res is Equal <==> a@ == b@,
        res is Greater <==> key_less(b@, a@),
{
    let ac = chars_of(a);
    let bc = chars_of(b);
    let mut i: usize = 0;
    proof {
        lemma_key_less_irreflexive(a@);
        lemma_key_less_total(a@, b@);
        if key_less(a@, b@) && key_less(b@, a@) {
            lemma_key_less_transitive(a@, b@, a@);
        }
        assert(ac@.subrange(0, ac@.len() as int) =~= ac@);
        assert(bc@.subrange(0, bc@.len() as int) =~= bc@);
    }
    while i < ac.len() && i < bc.len()
        invariant
            ac@ == a@,
            bc@ == b@,
            i <= ac.len(),
            i <= bc.len(),
            ac@.subrange(0, i as int) == bc@.subrange(0, i as int),
            key_less(a@, b@) == key_less(
                ac@.subrange(i as int, ac@.len() as int),
                bc@.subrange(i as int, bc@.len() as int),
            ),
            key_less(b@, a@) == key_less(
                bc@.subrange(i as int, bc@.len() as int),
                ac@.subrange(i as int, ac@.len() as int),
            ),
        decreases ac.len() - i,
    {
        let ghost ra = ac@.subrange(i as int, ac@.len() as int);
        let ghost rb = bc@.subrange(i as int, bc@.len() as int);
        assert(ra[0] == ac@[i as int]);
        assert(rb[0] == bc@[i as int]);
        if ac[i] < bc[i] {
            assert(a@ != b@) by {
                assert(a@[i as int] != b@[i as int]);
            }
            return KeyOrder::Less;
        }
        if bc[i] < ac[i] {
            assert(a@ != b@) by {
                assert(a@[i as int] != b@[i as int]);
            }
            return KeyOrder::Greater;
        }
        assert(ra.drop_first() =~= ac@.subrange(i + 1, ac@.len() as int));
        assert(rb.drop_first() =~= bc@.subrange(i + 1, bc@.len() as int));
        assert(ac@.subrange(0, i + 1) =~= ac@.subrange(0, i as int).push(ac@[i as int]));
        assert(bc@.subrange(0, i + 1) =~= bc@.subrange(0, i as int).push(bc@[i as int]));
        i = i + 1;
    }
    if i == ac.len() && i == bc.len() {
        assert(ac@ =~= ac@.subrange(0, i as int));
        assert(bc@ =~= bc@.subrange(0, i as int));
        KeyOrder::Equal
    } else if i == ac.len() {
        assert(a@.len() != b@.len());
        KeyOrder::Less
    } else {
        assert(a@.len() != b@.len());
        KeyOrder::Greater
    }
}

impl Params {
    /// The entries as text, in ascending key order.
    pub closed spec fn entry_seq(&self) -> Seq<(Seq<char>, Seq<char>)> {
        self.entries@.map_values(|p: (String, String)| (p.0@, p.1@))
    }

    /// The entries' keys ascend.
    pub closed spec fn wf(&self) -> bool {
        keys_ascending(self.entry_seq())
    }

    /// What the sequence of entries is.
    pub proof fn lemma_wf(&self)
        requires
            self.wf(),
        ensures
            keys_ascending(self.entry_seq()),
            self@ == entries_map(self.entry_seq()),
            self.entry_seq() == sorted_entries(self@),
    {
        lemma_sorted_entries(self.entry_seq());
    }

    /// No parameters.
    pub fn new() -> (res: Params)
        ensures
            res.wf(),
            res@ == Map::<Seq<char>, Seq<char>>::empty(),
            res.entry_seq() == Seq::<(Seq<char>, Seq<char>)>::empty(),
    {
        let res = Params { entries: Vec::new() };
        assert(res.entry_seq() =~= Seq::<(Seq<char>, Seq<char>)>::empty());
        res
    }

    /// The number of parameters.
    pub fn len(&self) -> (res: usize)
        ensures
            res == self.entry_seq().len(),
    {
        self.entries.len()
    }

    /// The key and value of the entry at `i` in ascending key order.
    pub fn entry(&self, i: usize) -> (res: (&String, &String))
        requires
            i < self.entry_seq().len(),
        ensures
            res.0@ == self.entry_seq()[i as int].0,
            res.1@ == self.entry_seq()[i as int].1,
    {
        let e = &self.entries[i];
        (&e.0, &e.1)
    }

    /// Sets `key` to `value`, replacing any value it had (`HashMap::insert`,
    /// `BTreeMap::insert`).
    pub fn insert(&mut self, key: String, value: String)
        requires
            old(self).wf(),
        ensures
            final(self).wf(),
            final(self)@ == old(self)@.insert(key@, value@),
    {
        let ghost e0 = self.entry_seq();
        proof {
            lemma_entries_map(e0);
        }
        let mut i: usize = 0;
        while i < self.entries.len()
            invariant
                self.entry_seq() == e0,
                old(self).entry_seq() == e0,
                keys_ascending(e0),
                i <= e0.len(),
                forall|j: int| 0 <= j < i ==> key_less(#[trigger] e0[j].0, key@),
            ensures
                self.entry_seq() == e0,
                i <= e0.len(),
                forall|j: int| 0 <= j < i ==> key_less(#[trigger] e0[j].0, key@),
                i < e0.len() ==> key_less(key@, e0[i as int].0),
            decreases e0.len() - i,
        {
            assert(e0[i as int].0 == self.entries@[i as int].0@);
            match compare_keys(self.entries[i].0.as_str(), key.as_str()) {
                KeyOrder::Less => {
                    i = i + 1;
                },
                KeyOrder::Equal => {
                    let k = self.entries[i].0.clone();
                    self.entries.set(i, (k, value));
                    let ghost e1 = self.entry_seq();
                    assert(e1 =~= e0.update(i as int, (key@, value@)));
                    assert(keys_ascending(e1)) by {
                        assert forall|a: int, b: int| 0 <= a < b < e1.len() implies key_less(
                            #[trigger] e1[a].0,
                            #[trigger] e1[b].0,
                        ) by {
                            assert(e1[a].0 == e0[a].0);
                            assert(e1[b].0 == e0[b].0);
                        }
                    }
                    proof {
                        lemma_entries_map(e0);
                        lemma_entries_map(e1);
                        assert(entries_map(e1) =~= entries_map(e0).insert(key@, value@)) by {
                            assert forall|k: Seq<char>| #[trigger]
                                entries_map(e1).dom().contains(k) implies entries_map(
                                e0,
                            ).insert(key@, value@).dom().contains(k) by {
                                let a = choose|a: int| 0 <= a < e1.len() && e1[a].0 == k;
                                if a != i {
                                    assert(e0[a].0 == k);
                                    assert(entries_map(e0).dom().contains(k));
                                }
                            }
                            assert forall|k: Seq<char>| #[trigger]
                                entries_map(e0).insert(key@, value@).dom().contains(
                                k,
                            ) implies entries_map(e1).dom().contains(k) && entries_map(e1)[k]
                                == entries_map(e0).insert(key@, value@)[k] by {
                                if k == key@ {
                                    assert(e1[i as int].0 == k);
                                    assert(entries_map(e1)[e1[i as int].0] == e1[i as int].1);
                                } else {
                                    assert(entries_map(e0).dom().contains(k));
                                    let a = choose|a: int| 0 <= a < e0.len() && e0[a].0 == k;
                                    assert(e1[a] == e0[a]);
                                    assert(entries_map(e1)[e1[a].0] == e1[a].1);
                                    assert(entries_map(e0)[e0[a].0] == e0[a].1);
                                }
                            }
                        }
                    }
                    return ;
                },
                KeyOrder::Greater => {
                    break ;
                },
            }
        }
        // `key` is absent and belongs at position `i`.
        proof {
            assert forall|j: int| i <= j < e0.len() implies key_less(key@, #[trigger] e0[j].0) by {
                if j > i {
                    lemma_key_less_transitive(key@, e0[i as int].0, e0[j].0);
                }
            }
            assert forall|j: int| 0 <= j < e0.len() implies #[trigger] e0[j].0 != key@ by {
                if j < i {
                    lemma_key_less_irreflexive(key@);
                } else {
                    lemma_key_less_irreflexive(key@);
                }
            }
        }
        self.entries.insert(i, (key, value));
        let ghost e1 = self.entry_seq();
        assert(e1 =~= e0.insert(i as int, (key@, value@)));
        assert(keys_ascending(e1)) by {
            assert forall|a: int, b: int| 0 <= a < b < e1.len() implies key_less(
                #[trigger] e1[a].0,
                #[trigger] e1[b].0,
            ) by {
                if b < i {
                    assert(e1[a] == e0[a] && e1[b] == e0[b]);
                } else if b == i {
                    assert(e1[a] == e0[a]);
                } else if a < i {
                    assert(e1[a] == e0[a] && e1[b] == e0[b - 1]);
                    lemma_key_less_transitive(e0[a].0, key@, e0[b - 1].0);
                } else if a == i {
                    assert(e1[b] == e0[b - 1]);
                } else {
                    assert(e1[a] == e0[a - 1] && e1[b] == e0[b - 1]);
                }
            }
        }
        proof {
            lemma_entries_map(e1);
            assert(entries_map(e1) =~= entries_map(e0).insert(key@, value@)) by {
                assert forall|k: Seq<char>| #[trigger]
                    entries_map(e1).dom().contains(k) implies entries_map(e0).insert(
                    key@,
                    value@,
                ).dom().contains(k) by {
                    let a = choose|a: int| 0 <= a < e1.len() && e1[a].0 == k;
                    if a < i {
                        assert(e0[a].0 == k);
                        assert(entries_map(e0).dom().contains(k));
                    } else if a > i {
                        assert(e0[a - 1].0 == k);
                        assert(entries_map(e0).dom().contains(k));
                    }
                }
                assert forall|k: Seq<char>| #[trigger]
                    entries_map(e0).insert(key@, value@).dom().contains(k) implies entries_map(
                    e1,
                ).dom().contains(k) && entries_map(e1)[k] == entries_map(e0).insert(
                    key@,
                    value@,
                )[k] by {
                    if k == key@ {
                        assert(e1[i as int].0 == k);
                        assert(entries_map(e1)[e1[i as int].0] == e1[i as int].1);
                    } else {
                        assert(entries_map(e0).dom().contains(k));
                        let a = choose|a: int| 0 <= a < e0.len() && e0[a].0 == k;
                        assert(entries_map(e0)[e0[a].0] == e0[a].1);
                        if a < i {
                            assert(e1[a] == e0[a]);
                            assert(entries_map(e1)[e1[a].0] == e1[a].1);
                        } else {
                            assert(e1[a + 1] == e0[a]);
                            assert(entries_map(e1)[e1[a + 1].0] == e1[a + 1].1);
                        }
                    }
                }
            }
        }
    }
}

/// Two parameter sets that hold the same names and values are stored
/// identically, whatever order they were built in.
pub proof fn lemma_params_canonical(p: Params, q: Params)
    requires
        p.wf(),
        q.wf(),
        p@ == q@,
    ensures
        p.entry_seq() == q.entry_seq(),
{
    lemma_ascending_canonical(p.entry_seq(), q.entry_seq());
}

} // verus!
