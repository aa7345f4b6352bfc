//! The pattern index: an ordered association from patterns to font
//! locations, and the queries it answers.
//!
//! The index is kept as a vector of entries whose keys ascend strictly in
//! the order of [`precedes`].  Its view is that sequence; [`as_map`] reads
//! it as a map.
use crate::memory::{fits_in_path, memory_font_bytes, memory_location};
use crate::order::{lemma_precedes_total, lemma_precedes_transitive, precedes, KeyOrder};
use crate::pattern::{
    query_matches, same_text, FcFont, FcFontPath, FcPattern, LocationModel, PatternModel,
};
use vstd::prelude::*;

verus! {

/// One entry of the index, as plain values.
pub type Entry = (PatternModel, LocationModel);

/// The plain values of a sequence of entries.
pub open spec fn entries_of(v: Seq<(FcPattern, FcFontPath)>) -> Seq<Entry> {
    Seq::new(v.len(), |i: int| (v[i].0@, v[i].1@))
}

/// Keys ascend strictly: each entry's key precedes every later one's.
pub open spec fn ascending(s: Seq<Entry>) -> bool {
    forall|i: int, j: int|
        #![trigger s[i], s[j]]
        0 <= i < j < s.len() ==> precedes(s[i].0, s[j].0)
}

/// Some entry of `s` has the key `k`.
pub open spec fn holds_key(s: Seq<Entry>, k: PatternModel) -> bool {
    exists|i: int| 0 <= i < s.len() && (#[trigger] s[i]).0 == k
}

/// The position of an entry with key `k`.
pub open spec fn index_of(s: Seq<Entry>, k: PatternModel) -> int {
    choose|i: int| 0 <= i < s.len() && (#[trigger] s[i]).0 == k
}

/// The keys that occur in `s`.
pub open spec fn keys_of(s: Seq<Entry>) -> Set<PatternModel> {
    Set::new(|k: PatternModel| holds_key(s, k))
}

/// An ascending sequence of entries read as a map from key to location.
pub open spec fn as_map(s: Seq<Entry>) -> Map<PatternModel, LocationModel> {
    Map::new(|k: PatternModel| holds_key(s, k), |k: PatternModel| s[index_of(s, k)].1)
}

/// The map that results from inserting `pairs` into `base` one after the
/// other: of two pairs with the same key the later one stays.
pub open spec fn inserted_all(
    base: Map<PatternModel, LocationModel>,
    pairs: Seq<Entry>,
) -> Map<PatternModel, LocationModel>
    decreases pairs.len(),
{
    if pairs.len() == 0 {
        base
    } else {
        inserted_all(base, pairs.drop_last()).insert(pairs.last().0, pairs.last().1)
    }
}

/// The locations of the entries that `pattern` admits, in the order of
/// the entries.
pub open spec fn matching(s: Seq<Entry>, pattern: PatternModel) -> Seq<LocationModel> {
    s.filter(|e: Entry| query_matches(e.0, pattern)).map_values(|e: Entry| e.1)
}

/// The location of the first entry that `pattern` admits, if any.
pub open spec fn first_match(s: Seq<Entry>, pattern: PatternModel) -> Option<LocationModel> {
    let found = matching(s, pattern);
    if found.len() > 0 {
        Some(found[0])
    } else {
        None
    }
}

/// In an ascending sequence every key occurs once: the entry at `i` is the
/// one that its key finds.
pub proof fn lemma_ascending_lookup(s: Seq<Entry>, i: int)
    requires
        ascending(s),
        0 <= i < s.len(),
    ensures
        holds_key(s, s[i].0),
        index_of(s, s[i].0) == i,
        as_map(s).contains_key(s[i].0),
        as_map(s)[s[i].0] == s[i].1,
{
    let j = index_of(s, s[i].0);
    assert(s[i].0 == s[i].0);
    if j < i {
        assert(precedes(s[j].0, s[i].0));
        lemma_precedes_total(s[j].0, s[i].0);
    } else if i < j {
        assert(precedes(s[i].0, s[j].0));
        lemma_precedes_total(s[i].0, s[j].0);
    }
}

/// Placing a new key between the entries that precede it and those that
/// it precedes keeps the sequence ascending and inserts into its map.
pub proof fn lemma_insert_entry(s: Seq<Entry>, pos: int, k: PatternModel, v: LocationModel)
    requires
        ascending(s),
        0 <= pos <= s.len(),
        forall|j: int| 0 <= j < pos ==> precedes((#[trigger] s[j]).0, k),
        forall|j: int| pos <= j < s.len() ==> precedes(k, (#[trigger] s[j]).0),
    ensures
        ascending(s.insert(pos, (k, v))),
        as_map(s.insert(pos, (k, v))) == as_map(s).insert(k, v),
{
    let t = s.insert(pos, (k, v));
    assert forall|i: int, j: int| 0 <= i < j < t.len() implies precedes(
        (#[trigger] t[i]).0,
        (#[trigger] t[j]).0,
    ) by {
        if j < pos {
            assert(t[i] == s[i] && t[j] == s[j]);
        } else if j == pos {
            assert(t[i] == s[i]);
        } else if i < pos {
            assert(t[i] == s[i] && t[j] == s[j - 1]);
            if i >= j - 1 {
                lemma_precedes_transitive(s[i].0, k, s[j - 1].0);
            }
        } else if i == pos {
            assert(t[j] == s[j - 1]);
        } else {
            assert(t[i] == s[i - 1] && t[j] == s[j - 1]);
        }
    }
    assert forall|q: PatternModel| holds_key(t, q) <==> (q == k || holds_key(s, q)) by {
        if holds_key(t, q) {
            let i = index_of(t, q);
            if i < pos {
                assert(s[i].0 == q);
            } else if i > pos {
                assert(s[i - 1].0 == q);
            }
        }
        if q == k {
            assert(t[pos].0 == q);
        }
        if holds_key(s, q) {
            let i = index_of(s, q);
            if i < pos {
                assert(t[i].0 == q);
            } else {
                assert(t[i + 1].0 == q);
            }
        }
    }
    assert forall|q: PatternModel| holds_key(t, q) implies #[trigger] as_map(t)[q] == as_map(
        s,
    ).insert(k, v)[q] by {
        let i = index_of(t, q);
        lemma_ascending_lookup(t, i);
        if i < pos {
            lemma_ascending_lookup(s, i);
            lemma_precedes_total(s[i].0, k);
        } else if i > pos {
            lemma_ascending_lookup(s, i - 1);
            lemma_precedes_total(k, s[i - 1].0);
        }
    }
    assert(as_map(t) =~= as_map(s).insert(k, v));
}

/// Replacing the location of an entry keeps the sequence ascending and
/// inserts into its map.
pub proof fn lemma_replace_entry(s: Seq<Entry>, pos: int, v: LocationModel)
    requires
        ascending(s),
        0 <= pos < s.len(),
    ensures
        ascending(s.update(pos, (s[pos].0, v))),
        as_map(s.update(pos, (s[pos].0, v))) == as_map(s).insert(s[pos].0, v),
{
    let k = s[pos].0;
    let t = s.update(pos, (k, v));
    assert forall|i: int, j: int| 0 <= i < j < t.len() implies precedes(
        (#[trigger] t[i]).0,
        (#[trigger] t[j]).0,
    ) by {
        assert(t[i].0 == s[i].0 && t[j].0 == s[j].0);
    }
    assert forall|q: PatternModel| holds_key(t, q) <==> (q == k || holds_key(s, q)) by {
        if holds_key(t, q) {
            let i = index_of(t, q);
            assert(s[i].0 == q);
        }
        if q == k {
            assert(t[pos].0 == q);
        }
        if holds_key(s, q) {
            let i = index_of(s, q);
            assert(t[i].0 == q);
        }
    }
    assert forall|q: PatternModel| holds_key(t, q) implies #[trigger] as_map(t)[q] == as_map(
        s,
    ).insert(k, v)[q] by {
        let i = index_of(t, q);
        lemma_ascending_lookup(t, i);
        assert(t[i].0 == s[i].0);
        lemma_ascending_lookup(s, i);
        lemma_ascending_lookup(s, pos);
    }
    assert(as_map(t) =~= as_map(s).insert(k, v));
}

/// Taking the last entry off an ascending sequence removes its key from
/// the map.
pub proof fn lemma_drop_last_entry(s: Seq<Entry>)
    requires
        ascending(s),
        s.len() > 0,
    ensures
        ascending(s.drop_last()),
        as_map(s.drop_last()) == as_map(s).remove(s.last().0),
{
    let t = s.drop_last();
    assert forall|i: int, j: int| 0 <= i < j < t.len() implies precedes(
        (#[trigger] t[i]).0,
        (#[trigger] t[j]).0,
    ) by {
        assert(t[i] == s[i] && t[j] == s[j]);
    }
    assert forall|q: PatternModel| holds_key(t, q) <==> (holds_key(s, q) && q != s.last().0) by {
        if holds_key(t, q) {
            let i = index_of(t, q);
            assert(s[i].0 == q);
            assert(precedes(s[i].0, s[s.len() - 1].0));
            lemma_precedes_total(q, s.last().0);
        }
        if holds_key(s, q) && q != s.last().0 {
            let i = index_of(s, q);
            assert(t[i].0 == q);
        }
    }
    assert forall|q: PatternModel| holds_key(t, q) implies #[trigger] as_map(t)[q] == as_map(
        s,
    )[q] by {
        let i = index_of(t, q);
        lemma_ascending_lookup(t, i);
        assert(t[i] == s[i]);
        lemma_ascending_lookup(s, i);
    }
    assert(as_map(t) =~= as_map(s).remove(s.last().0));
}

/// An ascending sequence is determined by its map: two indexes that
/// agree as maps hold the same entries in the same order.
pub proof fn lemma_ascending_unique(a: Seq<Entry>, b: Seq<Entry>)
    requires
        ascending(a),
        ascending(b),
        as_map(a) == as_map(b),
    ensures
        a == b,
    decreases a.len(),
{
    if a.len() == 0 {
        if b.len() > 0 {
            lemma_ascending_lookup(b, 0);
            assert(as_map(a).contains_key(b[0].0));
        }
        assert(a =~= b);
    } else {
        let last_a = a.len() - 1;
        lemma_ascending_lookup(a, last_a);
        assert(as_map(b).contains_key(a[last_a].0));
        let j = index_of(b, a[last_a].0);
        let last_b = b.len() - 1;
        lemma_ascending_lookup(b, last_b);
        assert(as_map(a).contains_key(b[last_b].0));
        let i = index_of(a, b[last_b].0);
        if j < last_b {
            assert(precedes(b[j].0, b[last_b].0));
            if i < last_a {
                assert(precedes(a[i].0, a[last_a].0));
                lemma_precedes_total(a[last_a].0, b[last_b].0);
            }
        }
        assert(a[last_a].0 == b[last_b].0);
        assert(a[last_a].1 == b[last_b].1);
        lemma_drop_last_entry(a);
        lemma_drop_last_entry(b);
        lemma_ascending_unique(a.drop_last(), b.drop_last());
        assert(a =~= a.drop_last().push(a[last_a]));
        assert(b =~= b.drop_last().push(b[last_b]));
    }
}

/// The entries that stand for fonts held in memory.
pub open spec fn memory_entries(f: Seq<(FcPattern, FcFont)>) -> Seq<Entry> {
    Seq::new(f.len(), |i: int| (f[i].0@, memory_location(f[i].1.bytes@, f[i].1.font_index)))
}

/// How `matching` grows with the sequence: the last entry contributes its
/// location exactly when the pattern admits its key.
pub proof fn lemma_matching_step(s: Seq<Entry>, pattern: PatternModel)
    requires
        s.len() > 0,
    ensures
        matching(s, pattern) == if query_matches(s.last().0, pattern) {
            matching(s.drop_last(), pattern).push(s.last().1)
        } else {
            matching(s.drop_last(), pattern)
        },
{
    reveal(Seq::filter);
    let pred = |e: Entry| query_matches(e.0, pattern);
    let value = |e: Entry| e.1;
    let rest = s.drop_last().filter(pred);
    if query_matches(s.last().0, pattern) {
        assert(s.filter(pred) == rest.push(s.last()));
        assert(rest.push(s.last()).map_values(value) =~= rest.map_values(value).push(s.last().1));
    } else {
        assert(s.filter(pred) == rest);
    }
}

/// A location is among the results of a query exactly when it is stored
/// under a key that the pattern admits.
pub proof fn lemma_matching_contains(s: Seq<Entry>, pattern: PatternModel, v: LocationModel)
    ensures
        matching(s, pattern).contains(v) <==> exists|i: int|
            0 <= i < s.len() && (#[trigger] s[i]).1 == v && query_matches(s[i].0, pattern),
    decreases s.len(),
{
    if s.len() == 0 {
        reveal(Seq::filter);
        assert(matching(s, pattern) =~= Seq::<LocationModel>::empty());
    } else {
        let t = s.drop_last();
        lemma_matching_step(s, pattern);
        lemma_matching_contains(t, pattern, v);
        let found = matching(t, pattern);
        if matching(s, pattern).contains(v) {
            let j = choose|j: int| 0 <= j < matching(s, pattern).len() && matching(s, pattern)[j] == v;
            if j < found.len() {
                assert(found[j] == v);
                let i = choose|i: int|
                    0 <= i < t.len() && (#[trigger] t[i]).1 == v && query_matches(t[i].0, pattern);
                assert(s[i] == t[i]);
            } else {
                assert(s[s.len() - 1].1 == v);
            }
        }
        if exists|i: int|
            0 <= i < s.len() && (#[trigger] s[i]).1 == v && query_matches(s[i].0, pattern) {
            let i = choose|i: int|
                0 <= i < s.len() && (#[trigger] s[i]).1 == v && query_matches(s[i].0, pattern);
            if i < t.len() {
                assert(t[i] == s[i]);
                let j = choose|j: int| 0 <= j < found.len() && found[j] == v;
                assert(matching(s, pattern)[j] == v);
            } else {
                assert(matching(s, pattern)[found.len() as int] == v);
            }
        }
    }
}

/// A pattern without name and family whose style flags are all `DontCare`
/// admits every key: such a query returns the location of every entry.
pub proof fn lemma_neutral_query_returns_all(s: Seq<Entry>, pattern: PatternModel)
    requires
        pattern.is_neutral(),
    ensures
        matching(s, pattern) == s.map_values(|e: Entry| e.1),
    decreases s.len(),
{
    if s.len() == 0 {
        reveal(Seq::filter);
        assert(matching(s, pattern) =~= s.map_values(|e: Entry| e.1));
    } else {
        lemma_matching_step(s, pattern);
        lemma_neutral_query_returns_all(s.drop_last(), pattern);
        assert(matching(s, pattern) =~= s.map_values(|e: Entry| e.1));
    }
}

/// Where no entry is admitted, a query finds nothing.
pub proof fn lemma_no_match(s: Seq<Entry>, pattern: PatternModel)
    requires
        forall|j: int| 0 <= j < s.len() ==> !query_matches((#[trigger] s[j]).0, pattern),
    ensures
        matching(s, pattern).len() == 0,
        first_match(s, pattern) is None,
    decreases s.len(),
{
    if s.len() == 0 {
        reveal(Seq::filter);
    } else {
        lemma_matching_step(s, pattern);
        assert(!query_matches(s[s.len() - 1].0, pattern));
        lemma_no_match(s.drop_last(), pattern);
    }
}

/// The first result of a query is the location of the first entry that
/// the pattern admits.
pub proof fn lemma_first_match(s: Seq<Entry>, pattern: PatternModel, i: int)
    requires
        0 <= i < s.len(),
        query_matches(s[i].0, pattern),
        forall|j: int| 0 <= j < i ==> !query_matches((#[trigger] s[j]).0, pattern),
    ensures
        first_match(s, pattern) == Some(s[i].1),
    decreases s.len(),
{
    let t = s.drop_last();
    lemma_matching_step(s, pattern);
    if i == s.len() - 1 {
        assert forall|j: int| 0 <= j < t.len() implies !query_matches(
            (#[trigger] t[j]).0,
            pattern,
        ) by {
            assert(t[j] == s[j]);
        }
        lemma_no_match(t, pattern);
    } else {
        assert forall|j: int| 0 <= j < i implies !query_matches((#[trigger] t[j]).0, pattern) by {
            assert(t[j] == s[j]);
        }
        assert(t[i] == s[i]);
        lemma_first_match(t, pattern, i);
    }
}

/// A key is in the map built from pairs exactly when it is in the base
/// map or occurs among the pairs: the order of the pairs does not matter
/// to the set of keys.
pub proof fn lemma_inserted_keys(base: Map<PatternModel, LocationModel>, pairs: Seq<Entry>)
    ensures
        inserted_all(base, pairs).dom() == base.dom().union(keys_of(pairs)),
    decreases pairs.len(),
{
    if pairs.len() == 0 {
        assert(base.dom().union(keys_of(pairs)) =~= base.dom());
    } else {
        let t = pairs.drop_last();
        lemma_inserted_keys(base, t);
        assert forall|k: PatternModel| holds_key(pairs, k) <==> (holds_key(t, k) || k
            == pairs.last().0) by {
            if holds_key(pairs, k) {
                let i = index_of(pairs, k);
                if i < t.len() {
                    assert(t[i].0 == k);
                }
            }
            if holds_key(t, k) {
                let i = index_of(t, k);
                assert(pairs[i].0 == k);
            }
            if k == pairs.last().0 {
                assert(pairs[pairs.len() - 1].0 == k);
            }
        }
        assert(inserted_all(base, pairs).dom() =~= base.dom().union(keys_of(pairs)));
    }
}

/// Two runs of discovery that emit the same pairs, in whatever order,
/// build indexes with the same set of keys.
pub proof fn lemma_rebuild_same_keys(first: Seq<Entry>, second: Seq<Entry>)
    requires
        first.to_multiset() == second.to_multiset(),
    ensures
        inserted_all(Map::empty(), first).dom() == inserted_all(Map::empty(), second).dom(),
{
    broadcast use vstd::seq_lib::group_to_multiset_ensures;

    lemma_inserted_keys(Map::empty(), first);
    lemma_inserted_keys(Map::empty(), second);
    assert forall|k: PatternModel| holds_key(first, k) <==> holds_key(second, k) by {
        if holds_key(first, k) {
            let i = index_of(first, k);
            assert(first.contains(first[i]));
            assert(second.to_multiset().count(first[i]) > 0);
            assert(second.contains(first[i]));
            let j = choose|j: int| 0 <= j < second.len() && second[j] == first[i];
            assert(second[j].0 == k);
        }
        if holds_key(second, k) {
            let i = index_of(second, k);
            assert(second.contains(second[i]));
            assert(first.to_multiset().count(second[i]) > 0);
            assert(first.contains(second[i]));
            let j = choose|j: int| 0 <= j < first.len() && first[j] == second[i];
            assert(first[j].0 == k);
        }
    }
    assert(keys_of(first) =~= keys_of(second));
}

/// After a location is stored under a pattern, a query with that same
/// pattern returns it first, provided that no key which the pattern
/// admits was stored before it in key order.  (A pattern always admits
/// itself.)
pub proof fn lemma_query_finds_inserted(
    before: Seq<Entry>,
    after: Seq<Entry>,
    pattern: PatternModel,
    location: LocationModel,
)
    requires
        ascending(before),
        ascending(after),
        as_map(after) == as_map(before).insert(pattern, location),
        forall|j: int|
            0 <= j < before.len() && precedes((#[trigger] before[j]).0, pattern)
                ==> !query_matches(before[j].0, pattern),
    ensures
        query_matches(pattern, pattern),
        first_match(after, pattern) == Some(location),
{
    assert(as_map(after).contains_key(pattern));
    let i = index_of(after, pattern);
    lemma_ascending_lookup(after, i);
    assert forall|j: int| 0 <= j < i implies !query_matches((#[trigger] after[j]).0, pattern) by {
        lemma_ascending_lookup(after, j);
        assert(precedes(after[j].0, after[i].0));
        lemma_precedes_total(after[j].0, pattern);
        assert(as_map(before).contains_key(after[j].0));
        let b = index_of(before, after[j].0);
        assert(before[b].0 == after[j].0);
    }
    lemma_first_match(after, pattern, i);
}

/// A font held in memory is found again: after a single font is added
/// under a pattern, a query with that pattern returns the font's
/// location first, and decoding the path of that location gives the
/// font's bytes.  This holds unless the index already held, before the
/// pattern in key order, a key that the pattern admits.
pub proof fn lemma_memory_font_is_found(
    before: Seq<Entry>,
    after: Seq<Entry>,
    f: Seq<(FcPattern, FcFont)>,
)
    requires
        ascending(before),
        ascending(after),
        f.len() == 1,
        as_map(after) == inserted_all(as_map(before), memory_entries(f)),
        memory_font_bytes(memory_entries(f)[0].1.path) == Some(f[0].1.bytes@),
        forall|j: int|
            0 <= j < before.len() && precedes((#[trigger] before[j]).0, f[0].0@) ==> !query_matches(
                before[j].0,
                f[0].0@,
            ),
    ensures
        first_match(after, f[0].0@) == Some(memory_location(f[0].1.bytes@, f[0].1.font_index)),
        memory_font_bytes(first_match(after, f[0].0@)->0.path) == Some(f[0].1.bytes@),
{
    let entries = memory_entries(f);
    assert(entries.drop_last() =~= Seq::<Entry>::empty());
    assert(inserted_all(as_map(before), entries.drop_last()) == as_map(before));
    assert(entries.last() == entries[0]);
    lemma_query_finds_inserted(before, after, f[0].0@, entries[0].1);
}

/// The pattern index.
#[derive(Debug, PartialEq, Eq, PartialOrd, Ord)]
pub struct FcFontCache {
    map: Vec<(FcPattern, FcFontPath)>,
}

impl View for FcFontCache {
    type V = Seq<Entry>;

    /// The entries in key order.
    closed spec fn view(&self) -> Seq<Entry> {
        entries_of(self.map@)
    }
}

impl FcFontCache {
    /// The invariant of the index: its keys ascend strictly, so that no
    /// key occurs twice.
    pub open spec fn wf(&self) -> bool {
        ascending(self@)
    }

    /// The index read as a map from pattern to location.
    pub open spec fn as_map(&self) -> Map<PatternModel, LocationModel> {
        as_map(self@)
    }

    /// An index without entries.
    pub fn new() -> (r: FcFontCache)
        ensures
            r.wf(),
            r@ == Seq::<Entry>::empty(),
            r.as_map() == Map::<PatternModel, LocationModel>::empty(),
    {
        let r = FcFontCache { map: Vec::new() };
        assert(r@ =~= Seq::<Entry>::empty());
        assert(r.as_map() =~= Map::<PatternModel, LocationModel>::empty());
        r
    }

    /// Whether the index has no entries.
    pub fn is_empty(&self) -> (r: bool)
        ensures
            r == (self@.len() == 0),
    {
        self.map.len() == 0
    }

    /// The number of entries.
    pub fn len(&self) -> (n: usize)
        ensures
            n == self@.len(),
    {
        self.map.len()
    }

    /// The number of entries that precede `key`, found by bisection.
    fn position(&self, key: &FcPattern) -> (pos: usize)
        requires
            self.wf(),
        ensures
            pos <= self@.len(),
            forall|j: int| 0 <= j < pos ==> precedes((#[trigger] self@[j]).0, key@),
            forall|j: int| pos <= j < self@.len() ==> !precedes((#[trigger] self@[j]).0, key@),
    {
        let mut lo: usize = 0;
        let mut hi: usize = self.map.len();
        while lo < hi
            invariant
                self.wf(),
                lo <= hi <= self.map.len(),
                self@.len() == self.map.len(),
                forall|j: int| 0 <= j < lo ==> precedes((#[trigger] self@[j]).0, key@),
                forall|j: int| hi <= j < self@.len() ==> !precedes((#[trigger] self@[j]).0, key@),
            decreases hi - lo,
        {
            let mid = lo + (hi - lo) / 2;
            let c = self.map[mid].0.key_order(key);
            assert(self@[mid as int].0 == self.map@[mid as int].0@);
            if c == KeyOrder::Before {
                assert forall|j: int| 0 <= j < mid + 1 implies precedes(
                    (#[trigger] self@[j]).0,
                    key@,
                ) by {
                    if j < mid {
                        assert(precedes(self@[j].0, self@[mid as int].0));
                        lemma_precedes_transitive(self@[j].0, self@[mid as int].0, key@);
                    }
                }
                lo = mid + 1;
            } else {
                assert forall|j: int| mid <= j < self@.len() implies !precedes(
                    (#[trigger] self@[j]).0,
                    key@,
                ) by {
                    if mid < j && precedes(self@[j].0, key@) {
                        assert(precedes(self@[mid as int].0, self@[j].0));
                        lemma_precedes_transitive(self@[mid as int].0, self@[j].0, key@);
                    }
                }
                hi = mid;
            }
        }
        lo
    }

    /// Associates `key` with `value`.  A location already stored under an
    /// equal key is replaced; no other entry changes.
    pub fn insert(&mut self, key: FcPattern, value: FcFontPath)
        requires
            old(self).wf(),
        ensures
            final(self).wf(),
            final(self).as_map() == old(self).as_map().insert(key@, value@),
    {
        let pos = self.position(&key);
        let ghost before = self@;
        if pos < self.map.len() {
            let c = self.map[pos].0.key_order(&key);
            assert(before[pos as int].0 == self.map@[pos as int].0@);
            if c == KeyOrder::Same {
                self.map.set(pos, (key, value));
                proof {
                    assert(self@ =~= before.update(pos as int, (before[pos as int].0, value@)));
                    lemma_replace_entry(before, pos as int, value@);
                }
                return ;
            }
        }
        proof {
            assert forall|j: int| pos <= j < before.len() implies precedes(
                key@,
                (#[trigger] before[j]).0,
            ) by {
                lemma_precedes_total(before[j].0, key@);
                if before[j].0 == key@ {
                    assert(precedes(before[pos as int].0, before[j].0));
                    lemma_precedes_total(before[pos as int].0, key@);
                }
            }
            lemma_insert_entry(before, pos as int, key@, value@);
        }
        self.map.insert(pos, (key, value));
        assert(self@ =~= before.insert(pos as int, (key@, value@)));
    }

    /// Adds fonts held in memory, each under its pattern.  The path of
    /// each location is the marker `base64:` followed by the encoded bytes
    /// of the font, so that decoding it gives the bytes back; of two fonts
    /// under equal patterns the later one stays.
    pub fn with_memory_fonts(&mut self, f: &[(FcPattern, FcFont)]) -> (r: &mut FcFontCache)
        requires
            old(self).wf(),
            forall|i: int| 0 <= i < f@.len() ==> fits_in_path((#[trigger] f@[i]).1.bytes@.len()),
        ensures
            *final(self) == *final(r),
            r.wf(),
            r.as_map() == inserted_all(old(self).as_map(), memory_entries(f@)),
            forall|i: int|
                0 <= i < f@.len() ==> memory_font_bytes((#[trigger] memory_entries(f@)[i]).1.path)
                    == Some(f@[i].1.bytes@),
    {
        let ghost start = self.as_map();
        let ghost all = memory_entries(f@);
        let mut i: usize = 0;
        assert(all.take(0) =~= Seq::<Entry>::empty());
        while i < f.len()
            invariant
                i <= f@.len(),
                all == memory_entries(f@),
                self.wf(),
                self.as_map() == inserted_all(start, all.take(i as int)),
                forall|j: int| 0 <= j < f@.len() ==> fits_in_path((#[trigger] f@[j]).1.bytes@.len()),
                forall|j: int|
                    0 <= j < i ==> memory_font_bytes((#[trigger] all[j]).1.path) == Some(
                        f@[j].1.bytes@,
                    ),
            decreases f@.len() - i,
        {
            let location = f[i].1.location();
            let key = f[i].0.clone();
            proof {
                assert(all.take(i + 1).drop_last() =~= all.take(i as int));
                assert(all.take(i + 1).last() == (key@, location@));
            }
            self.insert(key, location);
            i += 1;
        }
        assert(all.take(f@.len() as int) =~= all);
        self
    }

    /// Builds the index from what discovery emitted: every pair is
    /// inserted in turn, so that of two pairs with equal patterns the
    /// later one stays.  Where discovery failed (`None`), the index is
    /// empty.
    pub fn build(found: Option<Vec<(FcPattern, FcFontPath)>>) -> (r: FcFontCache)
        ensures
            r.wf(),
            r.as_map() == match found {
                Some(pairs) => inserted_all(Map::empty(), entries_of(pairs@)),
                None => Map::empty(),
            },
            found is None ==> r@.len() == 0,
    {
        let mut cache = FcFontCache::new();
        if let Some(pairs) = found {
            let ghost all = entries_of(pairs@);
            assert(all.take(0) =~= Seq::<Entry>::empty());
            for pair in it: pairs
                invariant
                    cache.wf(),
                    it.seq() == pairs@,
                    all == entries_of(pairs@),
                    cache.as_map() == inserted_all(Map::empty(), all.take(it.index() as int)),
            {
                proof {
                    let n = it.index();
                    assert(all.take(n + 1).drop_last() =~= all.take(n as int));
                    assert(all.take(n + 1).last() == (pair.0@, pair.1@));
                }
                cache.insert(pair.0, pair.1);
            }
            assert(all.take(pairs@.len() as int) =~= all);
        }
        cache
    }

    /// Decides [`query_matches`] for an indexed key and a query pattern.
    pub fn query_matches_internal(k: &FcPattern, pattern: &FcPattern) -> (r: bool)
        ensures
            r == query_matches(k@, pattern@),
    {
        if pattern.name.is_some() && !same_text(&k.name, &pattern.name) {
            return false;
        }
        if pattern.family.is_some() && !same_text(&k.family, &pattern.family) {
            return false;
        }
        if pattern.italic.needs_to_match() && k.italic != pattern.italic {
            return false;
        }
        if pattern.oblique.needs_to_match() && k.oblique != pattern.oblique {
            return false;
        }
        if pattern.bold.needs_to_match() && k.bold != pattern.bold {
            return false;
        }
        if pattern.monospace.needs_to_match() && k.monospace != pattern.monospace {
            return false;
        }
        true
    }

    /// Every location whose key the pattern admits, in key order.
    pub fn query_all(&self, pattern: &FcPattern) -> (r: Vec<&FcFontPath>)
        ensures
            r.deep_view() == matching(self@, pattern@),
            forall|v: LocationModel|
                r.deep_view().contains(v) <==> exists|i: int|
                    0 <= i < self@.len() && (#[trigger] self@[i]).1 == v && query_matches(
                        self@[i].0,
                        pattern@,
                    ),
            pattern@.is_neutral() ==> r.deep_view() == self@.map_values(|e: Entry| e.1),
    {
        let mut out: Vec<&FcFontPath> = Vec::new();
        let mut i: usize = 0;
        proof {
            reveal(Seq::filter);
            assert(matching(self@.take(0), pattern@) =~= Seq::<LocationModel>::empty());
            assert(out.deep_view() =~= Seq::<LocationModel>::empty());
        }
        while i < self.map.len()
            invariant
                i <= self.map.len(),
                self@.len() == self.map.len(),
                out.deep_view() == matching(self@.take(i as int), pattern@),
            decreases self.map.len() - i,
        {
            let ghost found = out.deep_view();
            proof {
                assert(self@.take(i + 1).drop_last() =~= self@.take(i as int));
                lemma_matching_step(self@.take(i + 1), pattern@);
                assert(self@.take(i + 1).last() == (self.map@[i as int].0@, self.map@[i as int].1@));
            }
            if Self::query_matches_internal(&self.map[i].0, pattern) {
                out.push(&self.map[i].1);
                assert(out.deep_view() =~= found.push(self.map@[i as int].1@));
            }
            i += 1;
        }
        proof {
            assert(self@.take(self@.len() as int) =~= self@);
            assert forall|v: LocationModel|
                out.deep_view().contains(v) <==> exists|i: int|
                    0 <= i < self@.len() && (#[trigger] self@[i]).1 == v && query_matches(
                        self@[i].0,
                        pattern@,
                    ) by {
                lemma_matching_contains(self@, pattern@, v);
            }
            if pattern@.is_neutral() {
                lemma_neutral_query_returns_all(self@, pattern@);
            }
        }
        out
    }

    /// The location of the first entry, in key order, whose key the
    /// pattern admits; `None` where it admits none.
    pub fn query(&self, pattern: &FcPattern) -> (r: Option<&FcFontPath>)
        ensures
            match r {
                Some(v) => first_match(self@, pattern@) == Some(v@),
                None => first_match(self@, pattern@) is None,
            },
            match r {
                Some(v) => exists|i: int|
                    0 <= i < self@.len() && (#[trigger] self@[i]).1 == v@ && query_matches(
                        self@[i].0,
                        pattern@,
                    ) && forall|j: int|
                        0 <= j < i ==> !query_matches((#[trigger] self@[j]).0, pattern@),
                None => forall|j: int|
                    0 <= j < self@.len() ==> !query_matches((#[trigger] self@[j]).0, pattern@),
            },
    {
        let mut i: usize = 0;
        while i < self.map.len()
            invariant
                i <= self.map.len(),
                self@.len() == self.map.len(),
                forall|j: int| 0 <= j < i ==> !query_matches((#[trigger] self@[j]).0, pattern@),
            decreases self.map.len() - i,
        {
            assert(self@[i as int] == (self.map@[i as int].0@, self.map@[i as int].1@));
            if Self::query_matches_internal(&self.map[i].0, pattern) {
                proof {
                    lemma_first_match(self@, pattern@, i as int);
                }
                return Some(&self.map[i].1);
            }
            i += 1;
        }
        proof {
            lemma_no_match(self@, pattern@);
        }
        None
    }

    /// Gives up the index for its entries, in key order.
    pub fn into_entries(self) -> (r: Vec<(FcPattern, FcFontPath)>)
        ensures
            entries_of(r@) == self@,
    {
        self.map
    }

    /// The entries of the index in key order.
    pub fn list(&self) -> (r: &Vec<(FcPattern, FcFontPath)>)
        ensures
            entries_of(r@) == self@,
    {
        &self.map
    }
}

impl Default for FcFontCache {
    /// An index without entries.
    fn default() -> (r: FcFontCache)
        ensures
            r.wf(),
            r@ == Seq::<Entry>::empty(),
    {
        FcFontCache::new()
    }
}

impl Clone for FcFontCache {
    /// An index with the same entries.
    fn clone(&self) -> (r: FcFontCache)
        ensures
            r@ == self@,
    {
        let mut map: Vec<(FcPattern, FcFontPath)> = Vec::new();
        let mut i: usize = 0;
        while i < self.map.len()
            invariant
                i <= self.map.len(),
                map.len() == i,
                forall|j: int|
                    0 <= j < i ==> (#[trigger] map@[j]).0@ == self.map@[j].0@ && map@[j].1@
                        == self.map@[j].1@,
            decreases self.map.len() - i,
        {
            map.push((self.map[i].0.clone(), self.map[i].1.clone()));
            i += 1;
        }
        let r = FcFontCache { map };
        assert(r@ =~= self@);
        r
    }
}

} // verus!
