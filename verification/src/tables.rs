//! Keyed tables: vectors of entries in which no key occurs twice, seen as maps
//! from key to entry.
use vstd::prelude::*;

use crate::text::{lemma_text_order, text_before, text_eq, text_lt};
use crate::types::VmState;

verus! {

/// An entry that carries its own key.
pub trait Keyed: Sized {
    type Key: View;

    /// The key of the entry, as a mathematical value.
    spec fn key_of(&self) -> <Self::Key as View>::V;

    /// Whether the entry has key `k`.
    fn has_key(&self, k: &Self::Key) -> (r: bool)
        ensures
            r == (self.key_of() == k@),
    ;

    /// A copy of the entry's key.
    fn key(&self) -> (k: Self::Key)
        ensures
            k@ == self.key_of(),
    ;
}

impl<T> Keyed for (u64, T) {
    type Key = u64;

    open spec fn key_of(&self) -> u64 {
        self.0
    }

    fn has_key(&self, k: &u64) -> (r: bool) {
        self.0 == *k
    }

    fn key(&self) -> (k: u64) {
        self.0
    }
}

impl<T> Keyed for (String, T) {
    type Key = String;

    open spec fn key_of(&self) -> Seq<char> {
        self.0@
    }

    fn has_key(&self, k: &String) -> (r: bool) {
        text_eq(self.0.as_str(), k.as_str())
    }

    fn key(&self) -> (k: String) {
        self.0.clone()
    }
}

impl Keyed for VmState {
    type Key = String;

    open spec fn key_of(&self) -> Seq<char> {
        self.name@
    }

    fn has_key(&self, k: &String) -> (r: bool) {
        text_eq(self.name.as_str(), k.as_str())
    }

    fn key(&self) -> (k: String) {
        self.name.clone()
    }
}

/// An entry whose keys are ordered: a strict total order.
pub trait OrderedKey: Keyed {
    /// Whether key `a` comes before key `b`.
    spec fn key_lt(a: <Self::Key as View>::V, b: <Self::Key as View>::V) -> bool;

    /// The order is strict, total and transitive.
    proof fn lemma_key_order(a: <Self::Key as View>::V, b: <Self::Key as View>::V, c: <Self::Key as View>::V)
        ensures
            !Self::key_lt(a, a),
            a != b ==> Self::key_lt(a, b) || Self::key_lt(b, a),
            Self::key_lt(a, b) && Self::key_lt(b, c) ==> Self::key_lt(a, c),
    ;

    /// Whether this entry's key comes before the other's.
    fn key_before(&self, other: &Self) -> (r: bool)
        ensures
            r == Self::key_lt(self.key_of(), other.key_of()),
    ;
}

impl<T> OrderedKey for (u64, T) {
    open spec fn key_lt(a: u64, b: u64) -> bool {
        a < b
    }

    proof fn lemma_key_order(a: u64, b: u64, c: u64) {
    }

    fn key_before(&self, other: &Self) -> (r: bool) {
        self.0 < other.0
    }
}

impl<T> OrderedKey for (String, T) {
    open spec fn key_lt(a: Seq<char>, b: Seq<char>) -> bool {
        text_lt(a, b)
    }

    proof fn lemma_key_order(a: Seq<char>, b: Seq<char>, c: Seq<char>) {
        lemma_text_order(a, b, c);
    }

    fn key_before(&self, other: &Self) -> (r: bool) {
        text_before(self.0.as_str(), other.0.as_str())
    }
}

impl OrderedKey for VmState {
    open spec fn key_lt(a: Seq<char>, b: Seq<char>) -> bool {
        text_lt(a, b)
    }

    proof fn lemma_key_order(a: Seq<char>, b: Seq<char>, c: Seq<char>) {
        lemma_text_order(a, b, c);
    }

    fn key_before(&self, other: &Self) -> (r: bool) {
        text_before(self.name.as_str(), other.name.as_str())
    }
}

/// The entries of `s` come in strictly ascending key order.
pub open spec fn sorted_keys<E: OrderedKey>(s: Seq<E>) -> bool {
    forall|i: int, j: int| 0 <= i < j < s.len() ==> E::key_lt((#[trigger] s[i]).key_of(), (#[trigger] s[j]).key_of())
}

/// Keys in strictly ascending order are distinct.
pub proof fn lemma_sorted_distinct<E: OrderedKey>(s: Seq<E>)
    requires
        sorted_keys(s),
    ensures
        distinct_keys(s),
{
    assert forall|i: int, j: int| 0 <= i < j < s.len() implies (#[trigger] s[i]).key_of() != (#[trigger] s[j]).key_of() by {
        E::lemma_key_order(s[i].key_of(), s[i].key_of(), s[i].key_of());
    }
}

/// The first entry of `s` with key `k`.
pub open spec fn lookup<E: Keyed>(s: Seq<E>, k: <E::Key as View>::V) -> Option<E>
    decreases s.len(),
{
    if s.len() == 0 {
        None
    } else if s[0].key_of() == k {
        Some(s[0])
    } else {
        lookup(s.drop_first(), k)
    }
}

/// No key occurs twice in `s`.
pub open spec fn distinct_keys<E: Keyed>(s: Seq<E>) -> bool {
    forall|i: int, j: int| 0 <= i < j < s.len() ==> (#[trigger] s[i]).key_of() != (#[trigger] s[j]).key_of()
}

/// The map from key to entry that `s` stands for.
pub open spec fn table_map<E: Keyed>(s: Seq<E>) -> Map<<E::Key as View>::V, E> {
    Map::new(|k: <E::Key as View>::V| lookup(s, k) is Some, |k: <E::Key as View>::V| lookup(s, k)->0)
}

/// With distinct keys, the entry found for the key of `s[i]` is `s[i]`; and a key
/// that no entry has is found nowhere.
pub proof fn lemma_lookup_index<E: Keyed>(s: Seq<E>, k: <E::Key as View>::V)
    requires
        distinct_keys(s),
    ensures
        forall|i: int| 0 <= i < s.len() && (#[trigger] s[i]).key_of() == k ==> lookup(s, k) == Some(s[i]),
        (forall|i: int| 0 <= i < s.len() ==> (#[trigger] s[i]).key_of() != k) ==> lookup(s, k) is None,
        lookup(s, k) is Some ==> exists|i: int| 0 <= i < s.len() && s[i] == lookup(s, k)->0 && s[i].key_of() == k,
    decreases s.len(),
{
    if s.len() > 0 {
        let t = s.drop_first();
        assert forall|i: int, j: int| 0 <= i < j < t.len() implies (#[trigger] t[i]).key_of() != (#[trigger] t[j]).key_of() by {
            assert(t[i] == s[i + 1]);
            assert(t[j] == s[j + 1]);
        }
        lemma_lookup_index(t, k);
        assert forall|i: int| 0 <= i < s.len() && (#[trigger] s[i]).key_of() == k implies lookup(s, k) == Some(s[i]) by {
            if i > 0 {
                assert(s[0].key_of() != s[i].key_of());
                assert(t[i - 1] == s[i]);
            }
        }
        if (forall|i: int| 0 <= i < s.len() ==> (#[trigger] s[i]).key_of() != k) {
            assert(s[0].key_of() != k);
            assert forall|i: int| 0 <= i < t.len() implies (#[trigger] t[i]).key_of() != k by {
                assert(t[i] == s[i + 1]);
            }
        }
        if lookup(s, k) is Some && s[0].key_of() != k {
            let i = choose|i: int| 0 <= i < t.len() && t[i] == lookup(t, k)->0 && t[i].key_of() == k;
            assert(s[i + 1] == t[i]);
        }
    }
}

/// The map that inserting the entries of `s` one after another into `m` gives: a
/// later entry replaces an earlier one with the same key.
pub open spec fn inserted<E: Keyed>(m: Map<<E::Key as View>::V, E>, s: Seq<E>) -> Map<<E::Key as View>::V, E>
    decreases s.len(),
{
    if s.len() == 0 {
        m
    } else {
        inserted(m, s.drop_last()).insert(s.last().key_of(), s.last())
    }
}

/// With distinct keys, inserting the entries one by one gives the map they stand for.
pub proof fn lemma_inserted_distinct<E: Keyed>(s: Seq<E>)
    requires
        distinct_keys(s),
    ensures
        inserted(Map::<<E::Key as View>::V, E>::empty(), s) == table_map(s),
    decreases s.len(),
{
    if s.len() > 0 {
        let t = s.drop_last();
        let n = s.len() - 1;
        assert forall|i: int, j: int| 0 <= i < j < t.len() implies (#[trigger] t[i]).key_of() != (#[trigger] t[j]).key_of() by {
            assert(t[i] == s[i] && t[j] == s[j]);
        }
        lemma_inserted_distinct(t);
        assert forall|q: <E::Key as View>::V| #![auto] lookup(s, q) == (if q == s.last().key_of() {
            Some(s.last())
        } else {
            lookup(t, q)
        }) by {
            lemma_lookup_index(s, q);
            lemma_lookup_index(t, q);
            if q == s.last().key_of() {
                assert(s[n].key_of() == q);
            } else if lookup(t, q) is Some {
                let j = choose|j: int| 0 <= j < t.len() && t[j] == lookup(t, q)->0 && t[j].key_of() == q;
                assert(s[j] == t[j]);
            } else {
                assert forall|j: int| 0 <= j < s.len() implies (#[trigger] s[j]).key_of() != q by {
                    if j < n {
                        assert(t[j] == s[j]);
                    }
                }
            }
        }
        assert(table_map(s) =~= table_map(t).insert(s.last().key_of(), s.last()));
    } else {
        assert(table_map(s) =~= Map::<<E::Key as View>::V, E>::empty());
    }
}

/// Putting a new entry into a table of distinct keys, at any position, gives the
/// table with that entry added.
pub proof fn lemma_insert_new_key<E: Keyed>(s: Seq<E>, p: int, e: E)
    requires
        distinct_keys(s),
        0 <= p <= s.len(),
        forall|i: int| 0 <= i < s.len() ==> (#[trigger] s[i]).key_of() != e.key_of(),
    ensures
        distinct_keys(s.insert(p, e)),
        table_map(s.insert(p, e)) == table_map(s).insert(e.key_of(), e),
{
    let t = s.insert(p, e);
    assert forall|q: int| 0 <= q < t.len() implies #[trigger] t[q] == (if q < p {
        s[q]
    } else if q == p {
        e
    } else {
        s[q - 1]
    }) by {}
    assert forall|a: int, b: int| 0 <= a < b < t.len() implies (#[trigger] t[a]).key_of() != (#[trigger] t[b]).key_of() by {
        if a != p && b != p {
            let a0 = if a < p { a } else { a - 1 };
            let b0 = if b < p { b } else { b - 1 };
            assert(s[a0].key_of() != s[b0].key_of());
        } else if a == p {
            assert(s[b - 1].key_of() != e.key_of());
        } else {
            assert(s[a].key_of() != e.key_of());
        }
    }
    assert forall|k: <E::Key as View>::V| #![auto] lookup(t, k) == (if k == e.key_of() { Some(e) } else { lookup(s, k) }) by {
        lemma_lookup_index(s, k);
        lemma_lookup_index(t, k);
        if k == e.key_of() {
            assert(t[p].key_of() == k);
        } else if lookup(s, k) is Some {
            let j = choose|j: int| 0 <= j < s.len() && s[j] == lookup(s, k)->0 && s[j].key_of() == k;
            let jt = if j < p { j } else { j + 1 };
            assert(t[jt] == s[j]);
        } else {
            assert forall|q: int| 0 <= q < t.len() implies (#[trigger] t[q]).key_of() != k by {
                if q < p {
                    assert(t[q] == s[q]);
                } else if q > p {
                    assert(t[q] == s[q - 1]);
                }
            }
        }
    }
    assert(table_map(t) =~= table_map(s).insert(e.key_of(), e));
}

/// Leaving out the last entry of a sorted table leaves out its key.
proof fn lemma_sorted_drop_last<E: OrderedKey>(s: Seq<E>)
    requires
        sorted_keys(s),
        s.len() > 0,
    ensures
        sorted_keys(s.drop_last()),
        table_map(s) == table_map(s.drop_last()).insert(s.last().key_of(), s.last()),
        !table_map(s.drop_last()).contains_key(s.last().key_of()),
{
    let d = s.drop_last();
    let n = s.len() - 1;
    assert forall|i: int, j: int| 0 <= i < j < d.len() implies E::key_lt((#[trigger] d[i]).key_of(), (#[trigger] d[j]).key_of()) by {
        assert(d[i] == s[i] && d[j] == s[j]);
    }
    lemma_sorted_distinct(d);
    assert forall|i: int| 0 <= i < d.len() implies (#[trigger] d[i]).key_of() != s.last().key_of() by {
        assert(d[i] == s[i]);
        assert(E::key_lt(s[i].key_of(), s[n].key_of()));
        E::lemma_key_order(s[i].key_of(), s[i].key_of(), s[i].key_of());
    }
    lemma_insert_new_key(d, n, s.last());
    assert(d.insert(n, s.last()) =~= s);
    lemma_lookup_index(d, s.last().key_of());
}

/// Two tables in ascending key order with the same keys and contents hold, at
/// each position, entries of the same key and content.
pub proof fn lemma_sorted_same_tables<E: EntryCopy + OrderedKey>(a: Seq<E>, b: Seq<E>)
    requires
        sorted_keys(a),
        sorted_keys(b),
        same_tables(table_map(a), table_map(b)),
    ensures
        a.len() == b.len(),
        forall|i: int| 0 <= i < a.len() ==> (#[trigger] a[i]).key_of() == b[i].key_of() && a[i].same_content(&b[i]),
    decreases a.len() + b.len(),
{
    lemma_sorted_distinct(a);
    lemma_sorted_distinct(b);
    if a.len() == 0 && b.len() == 0 {
    } else if a.len() == 0 {
        lemma_lookup_index(b, b[0].key_of());
        lemma_lookup_index(a, b[0].key_of());
        assert(table_map(b).contains_key(b[0].key_of()));
    } else if b.len() == 0 {
        lemma_lookup_index(a, a[0].key_of());
        lemma_lookup_index(b, a[0].key_of());
        assert(table_map(a).contains_key(a[0].key_of()));
    } else {
        let na = a.len() - 1;
        let nb = b.len() - 1;
        let ka = a.last().key_of();
        let kb = b.last().key_of();
        lemma_lookup_index(a, ka);
        lemma_lookup_index(b, ka);
        lemma_lookup_index(a, kb);
        lemma_lookup_index(b, kb);
        assert(table_map(a).contains_key(ka));
        assert(table_map(b).contains_key(kb));
        if ka != kb {
            let j = choose|j: int| 0 <= j < b.len() && b[j] == lookup(b, ka)->0 && b[j].key_of() == ka;
            let i = choose|i: int| 0 <= i < a.len() && a[i] == lookup(a, kb)->0 && a[i].key_of() == kb;
            E::lemma_key_order(kb, ka, kb);
            E::lemma_key_order(ka, kb, ka);
            if j < nb {
                assert(E::key_lt(b[j].key_of(), b[nb].key_of()));
            }
            if i < na {
                assert(E::key_lt(a[i].key_of(), a[na].key_of()));
            }
            assert(false);
        }
        assert(table_map(a)[ka] == a[na]);
        assert(table_map(b)[ka] == b[nb]);
        lemma_sorted_drop_last(a);
        lemma_sorted_drop_last(b);
        let da = a.drop_last();
        let db = b.drop_last();
        assert(table_map(da) =~= table_map(a).remove(ka));
        assert(table_map(db) =~= table_map(b).remove(ka));
        assert(table_map(da).dom() =~= table_map(db).dom());
        lemma_sorted_same_tables(da, db);
        assert forall|i: int| 0 <= i < a.len() implies (#[trigger] a[i]).key_of() == b[i].key_of() && a[i].same_content(&b[i]) by {
            if i < na {
                assert(a[i] == da[i] && b[i] == db[i]);
            }
        }
    }
}

/// The entries of `v`, sorted by ascending key.
pub fn sort_by_key<E: OrderedKey>(v: Vec<E>) -> (r: Vec<E>)
    requires
        distinct_keys(v@),
    ensures
        sorted_keys(r@),
        table_map(r@) == table_map(v@),
{
    let ghost all = v@;
    let n = v.len();
    let mut rest = v;
    let mut out: Vec<E> = Vec::new();
    let mut i: usize = 0;
    proof {
        assert(rest@ =~= all.skip(0));
        assert(all.take(0) =~= Seq::<E>::empty());
        assert(table_map(out@) =~= table_map(all.take(0)));
    }
    while rest.len() > 0
        invariant
            all.len() == n,
            i <= n,
            distinct_keys(all),
            rest@ == all.skip(i as int),
            sorted_keys(out@),
            table_map(out@) == table_map(all.take(i as int)),
        decreases rest@.len(),
    {
        let e = rest.remove(0);
        proof {
            assert(e == all[i as int]);
            assert(rest@ =~= all.skip(i as int + 1));
            lemma_sorted_distinct(out@);
            let t = all.take(i as int);
            assert forall|a: int, b: int| 0 <= a < b < t.len() implies (#[trigger] t[a]).key_of() != (#[trigger] t[b]).key_of() by {
                assert(t[a] == all[a] && t[b] == all[b]);
            }
            lemma_inserted_distinct(t);
            let t1 = all.take(i as int + 1);
            assert forall|a: int, b: int| 0 <= a < b < t1.len() implies (#[trigger] t1[a]).key_of() != (#[trigger] t1[b]).key_of() by {
                assert(t1[a] == all[a] && t1[b] == all[b]);
            }
            lemma_inserted_distinct(t1);
            assert(t1.drop_last() =~= t);
            assert(table_map(t1) == table_map(t).insert(e.key_of(), e));
            // the key of e is not among the keys of out
            assert forall|q: int| 0 <= q < out@.len() implies (#[trigger] out@[q]).key_of() != e.key_of() by {
                lemma_lookup_index(out@, out@[q].key_of());
                lemma_lookup_index(t, out@[q].key_of());
                if out@[q].key_of() == e.key_of() {
                    assert(table_map(out@).contains_key(e.key_of()));
                    let j = choose|j: int| 0 <= j < t.len() && t[j] == lookup(t, e.key_of())->0 && t[j].key_of() == e.key_of();
                    assert(all[j].key_of() != all[i as int].key_of());
                }
            }
        }
        let mut p: usize = 0;
        let mut stop = false;
        while !stop && p < out.len()
            invariant
                p <= out@.len(),
                forall|q: int| 0 <= q < p ==> !E::key_lt(e.key_of(), (#[trigger] out@[q]).key_of()),
                stop ==> p < out@.len() && E::key_lt(e.key_of(), out@[p as int].key_of()),
            decreases out@.len() - p + (if stop { 0int } else { 1int }),
        {
            if e.key_before(&out[p]) {
                stop = true;
            } else {
                p = p + 1;
            }
        }
        let ghost old_out = out@;
        out.insert(p, e);
        proof {
            lemma_insert_new_key(old_out, p as int, e);
            let s2 = out@;
            assert forall|a: int, b: int| 0 <= a < b < s2.len() implies E::key_lt((#[trigger] s2[a]).key_of(), (#[trigger] s2[b]).key_of()) by {
                if a < p && b < p {
                    assert(s2[a] == old_out[a] && s2[b] == old_out[b]);
                } else if a < p && b == p {
                    E::lemma_key_order(old_out[a].key_of(), e.key_of(), e.key_of());
                    assert(!E::key_lt(e.key_of(), old_out[a].key_of()));
                } else if a < p && b > p {
                    assert(s2[b] == old_out[b - 1]);
                } else if a == p {
                    assert(s2[b] == old_out[b - 1]);
                    E::lemma_key_order(e.key_of(), old_out[p as int].key_of(), old_out[b - 1].key_of());
                    if b - 1 > p {
                        assert(E::key_lt(old_out[p as int].key_of(), old_out[b - 1].key_of()));
                    }
                } else {
                    assert(s2[a] == old_out[a - 1] && s2[b] == old_out[b - 1]);
                }
            }
        }
        i = i + 1;
    }
    proof {
        assert(all.take(i as int) =~= all);
    }
    out
}

/// An entry that can be copied: the copy has the same key and the same content.
pub trait EntryCopy: Keyed {
    /// Whether `other` holds the same content as `self`.
    spec fn same_content(&self, other: &Self) -> bool;

    /// A copy of the entry.
    fn copy_entry(&self) -> (r: Self)
        ensures
            r.key_of() == self.key_of(),
            self.same_content(&r),
    ;
}

/// Whether `c` holds, in order, copies of the entries of `s`.
pub open spec fn copies_of<E: EntryCopy>(c: Seq<E>, s: Seq<E>) -> bool {
    &&& c.len() == s.len()
    &&& forall|i: int| 0 <= i < s.len() ==> (#[trigger] c[i]).key_of() == s[i].key_of() && s[i].same_content(&c[i])
}

/// Whether two maps have the same keys, with entries of the same content.
pub open spec fn same_tables<E: EntryCopy>(a: Map<<E::Key as View>::V, E>, b: Map<<E::Key as View>::V, E>) -> bool {
    &&& a.dom() == b.dom()
    &&& forall|k: <E::Key as View>::V| #[trigger] a.contains_key(k) ==> a[k].same_content(&b[k])
}

/// Copies of the entries of a table stand for the same table.
pub proof fn lemma_copies_same_table<E: EntryCopy>(s: Seq<E>, c: Seq<E>)
    requires
        distinct_keys(s),
        copies_of(c, s),
    ensures
        distinct_keys(c),
        same_tables(table_map(s), table_map(c)),
{
    assert forall|i: int, j: int| 0 <= i < j < c.len() implies (#[trigger] c[i]).key_of() != (#[trigger] c[j]).key_of() by {
        assert(s[i].key_of() != s[j].key_of());
    }
    assert forall|k: <E::Key as View>::V| #[trigger] table_map(s).contains_key(k) implies table_map(c).contains_key(k)
        && table_map(s)[k].same_content(&table_map(c)[k]) by {
        lemma_lookup_index(s, k);
        lemma_lookup_index(c, k);
        let i = choose|i: int| 0 <= i < s.len() && s[i] == lookup(s, k)->0 && s[i].key_of() == k;
        assert(c[i].key_of() == k);
    }
    assert forall|k: <E::Key as View>::V| #[trigger] table_map(c).contains_key(k) implies table_map(s).contains_key(k) by {
        lemma_lookup_index(s, k);
        lemma_lookup_index(c, k);
        let i = choose|i: int| 0 <= i < c.len() && c[i] == lookup(c, k)->0 && c[i].key_of() == k;
        assert(s[i].key_of() == k);
    }
    assert(table_map(s).dom() =~= table_map(c).dom());
}

/// A table of entries, no two with the same key.
pub struct Table<E: Keyed> {
    pub entries: Vec<E>,
}

impl<E: Keyed> Table<E> {
    /// Well-formed: no key occurs twice.
    pub open spec fn wf(&self) -> bool {
        distinct_keys(self.entries@)
    }

    /// The table as a map from key to entry.
    pub open spec fn map(&self) -> Map<<E::Key as View>::V, E> {
        table_map(self.entries@)
    }

    /// An empty table.
    pub fn new() -> (t: Self)
        ensures
            t.wf(),
            t.map() == Map::<<E::Key as View>::V, E>::empty(),
            t.entries@.len() == 0,
    {
        let t = Table { entries: Vec::new() };
        assert(t.map() =~= Map::<<E::Key as View>::V, E>::empty());
        t
    }

    /// The position of the entry with key `k`.
    pub fn position(&self, k: &E::Key) -> (r: Option<usize>)
        ensures
            match r {
                Some(i) => i < self.entries@.len() && self.entries@[i as int].key_of() == k@,
                None => forall|i: int| 0 <= i < self.entries@.len() ==> (#[trigger] self.entries@[i]).key_of() != k@,
            },
    {
        let mut i: usize = 0;
        while i < self.entries.len()
            invariant
                i <= self.entries@.len(),
                forall|j: int| 0 <= j < i ==> (#[trigger] self.entries@[j]).key_of() != k@,
            decreases self.entries@.len() - i,
        {
            if self.entries[i].has_key(k) {
                return Some(i);
            }
            i = i + 1;
        }
        None
    }

    /// The entry with key `k`, if any.
    pub fn get(&self, k: &E::Key) -> (r: Option<&E>)
        requires
            self.wf(),
        ensures
            match r {
                Some(e) => self.map().contains_key(k@) && self.map()[k@] == *e,
                None => !self.map().contains_key(k@),
            },
    {
        proof {
            lemma_lookup_index(self.entries@, k@);
        }
        match self.position(k) {
            Some(i) => Some(&self.entries[i]),
            None => None,
        }
    }

    /// Whether an entry has key `k`.
    pub fn contains(&self, k: &E::Key) -> (r: bool)
        requires
            self.wf(),
        ensures
            r == self.map().contains_key(k@),
    {
        proof {
            lemma_lookup_index(self.entries@, k@);
        }
        self.position(k).is_some()
    }

    /// Puts `e` in the table, in place of the entry with its key if there is one.
    pub fn insert(&mut self, e: E, k: &E::Key)
        requires
            old(self).wf(),
            e.key_of() == k@,
        ensures
            final(self).wf(),
            final(self).map() == old(self).map().insert(k@, e),
            forall|i: int|
                0 <= i < final(self).entries@.len() ==> final(self).entries@[i] == e || old(self).entries@.contains(
                    #[trigger] final(self).entries@[i],
                ),
    {
        let ghost s0 = self.entries@;
        let ghost mut at: int = s0.len() as int;
        match self.position(k) {
            Some(i) => {
                self.entries.set(i, e);
                proof {
                    at = i as int;
                }
            },
            None => {
                self.entries.push(e);
            },
        }
        let ghost s1 = self.entries@;
        assert(s1[at] == e);
        assert(forall|j: int| 0 <= j < s1.len() && j != at ==> s1[j] == s0[j]);
        assert(distinct_keys(s1)) by {
            assert forall|a: int, b: int| 0 <= a < b < s1.len() implies (#[trigger] s1[a]).key_of() != (#[trigger] s1[b]).key_of() by {
                if a != at && b != at {
                    assert(s0[a].key_of() != s0[b].key_of());
                } else if a == at {
                    assert(s0[b].key_of() != k@);
                } else {
                    assert(s0[a].key_of() != k@);
                }
            }
        }
        assert forall|q: <E::Key as View>::V| #![auto] lookup(s1, q) == (if q == k@ { Some(e) } else { lookup(s0, q) }) by {
            lemma_lookup_index(s0, q);
            lemma_lookup_index(s1, q);
            if q == k@ {
                assert(s1[at].key_of() == q);
            } else {
                if lookup(s0, q) is Some {
                    let j = choose|j: int| 0 <= j < s0.len() && s0[j] == lookup(s0, q)->0 && s0[j].key_of() == q;
                    assert(j != at);
                    assert(s1[j] == s0[j]);
                } else {
                    assert forall|j: int| 0 <= j < s1.len() implies (#[trigger] s1[j]).key_of() != q by {
                        if j != at {
                            assert(s1[j] == s0[j]);
                        }
                    }
                }
            }
        }
        assert(self.map() =~= table_map(s0).insert(k@, e));
        assert forall|i: int| 0 <= i < s1.len() implies s1[i] == e || s0.contains(#[trigger] s1[i]) by {
            if i != at {
                assert(s1[i] == s0[i]);
            }
        }
    }

    /// Takes the entry with key `k` out of the table, if there is one, and hands it
    /// back.
    pub fn take(&mut self, k: &E::Key) -> (r: Option<E>)
        requires
            old(self).wf(),
        ensures
            final(self).wf(),
            final(self).map() == old(self).map().remove(k@),
            match r {
                Some(e) => old(self).map().contains_key(k@) && old(self).map()[k@] == e && e.key_of() == k@
                    && old(self).entries@.contains(e),
                None => !old(self).map().contains_key(k@),
            },
            forall|i: int| 0 <= i < final(self).entries@.len() ==> old(self).entries@.contains(#[trigger] final(self).entries@[i]),
    {
        let ghost s0 = self.entries@;
        proof {
            lemma_lookup_index(s0, k@);
        }
        match self.position(k) {
            Some(i) => {
                let e = self.entries.remove(i);
                let ghost s1 = self.entries@;
                assert(distinct_keys(s1)) by {
                    assert forall|a: int, b: int| 0 <= a < b < s1.len() implies (#[trigger] s1[a]).key_of() != (#[trigger] s1[b]).key_of() by {
                        if b < i {
                            assert(s1[a] == s0[a] && s1[b] == s0[b]);
                        } else if a < i {
                            assert(s1[a] == s0[a] && s1[b] == s0[b + 1]);
                        } else {
                            assert(s1[a] == s0[a + 1] && s1[b] == s0[b + 1]);
                        }
                    }
                }
                assert forall|q: <E::Key as View>::V| #![auto] lookup(s1, q) == (if q == k@ { None } else { lookup(s0, q) }) by {
                    lemma_lookup_index(s0, q);
                    lemma_lookup_index(s1, q);
                    if q == k@ {
                        assert forall|j: int| 0 <= j < s1.len() implies (#[trigger] s1[j]).key_of() != q by {
                            if j < i {
                                assert(s1[j] == s0[j]);
                            } else {
                                assert(s1[j] == s0[j + 1]);
                            }
                        }
                    } else if lookup(s0, q) is Some {
                        let j = choose|j: int| 0 <= j < s0.len() && s0[j] == lookup(s0, q)->0 && s0[j].key_of() == q;
                        if j < i {
                            assert(s1[j] == s0[j]);
                        } else {
                            assert(s1[j - 1] == s0[j]);
                        }
                    } else {
                        assert forall|j: int| 0 <= j < s1.len() implies (#[trigger] s1[j]).key_of() != q by {
                            if j < i {
                                assert(s1[j] == s0[j]);
                            } else {
                                assert(s1[j] == s0[j + 1]);
                            }
                        }
                    }
                }
                assert(self.map() =~= table_map(s0).remove(k@));
                assert(s0[i as int] == e);
                assert forall|j: int| 0 <= j < s1.len() implies s0.contains(#[trigger] s1[j]) by {
                    if j < i {
                        assert(s1[j] == s0[j]);
                    } else {
                        assert(s1[j] == s0[j + 1]);
                    }
                }
                Some(e)
            },
            None => {
                assert(self.map() =~= table_map(s0).remove(k@));
                None
            },
        }
    }

    /// Takes the entry with key `k` out of the table, if there is one.
    pub fn remove(&mut self, k: &E::Key)
        requires
            old(self).wf(),
        ensures
            final(self).wf(),
            final(self).map() == old(self).map().remove(k@),
    {
        let _ = self.take(k);
    }
}


impl<E: Keyed> Table<E> {
    /// The table that inserting `entries` one after another into an empty table
    /// gives: a later entry replaces an earlier one with the same key.
    pub fn from_entries(entries: Vec<E>) -> (t: Self)
        ensures
            t.wf(),
            t.map() == inserted(Map::<<E::Key as View>::V, E>::empty(), entries@),
    {
        let ghost all = entries@;
        let n = entries.len();
        assert(all.len() == n);
        let mut rest = entries;
        let mut t = Table::new();
        let mut i: usize = 0;
        while rest.len() > 0
            invariant
                t.wf(),
                i <= all.len(),
                all.len() <= usize::MAX,
                rest@ == all.skip(i as int),
                t.map() == inserted(Map::<<E::Key as View>::V, E>::empty(), all.take(i as int)),
            decreases rest@.len(),
        {
            let e = rest.remove(0);
            proof {
                assert(e == all[i as int]);
                assert(all.take(i as int + 1).drop_last() =~= all.take(i as int));
                assert(rest@ =~= all.skip(i as int + 1));
            }
            let k = e.key();
            t.insert(e, &k);
            i = i + 1;
        }
        proof {
            assert(all.take(i as int) =~= all);
        }
        t
    }
}

impl<E: EntryCopy> Table<E> {
    /// Copies of the entries, in order.
    pub fn copy_entries(&self) -> (r: Vec<E>)
        ensures
            copies_of(r@, self.entries@),
    {
        let mut r: Vec<E> = Vec::new();
        let mut i: usize = 0;
        while i < self.entries.len()
            invariant
                i <= self.entries@.len(),
                r@.len() == i,
                forall|q: int|
                    0 <= q < i ==> (#[trigger] r@[q]).key_of() == self.entries@[q].key_of()
                        && self.entries@[q].same_content(&r@[q]),
            decreases self.entries@.len() - i,
        {
            r.push(self.entries[i].copy_entry());
            i = i + 1;
        }
        r
    }
}


impl<E: EntryCopy + OrderedKey> Table<E> {
    /// Copies of the entries, in ascending key order.
    pub fn sorted_copies(&self) -> (r: Vec<E>)
        requires
            self.wf(),
        ensures
            sorted_keys(r@),
            same_tables(self.map(), table_map(r@)),
    {
        let copies = self.copy_entries();
        proof {
            lemma_copies_same_table(self.entries@, copies@);
        }
        sort_by_key(copies)
    }
}

} // verus!
