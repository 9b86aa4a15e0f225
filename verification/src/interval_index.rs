//! The per-processor index from guest addresses to symbols.

use crate::symbols::SymbolInfo;
use crate::symbols::SymbolInfoView;
use intervaltree::Element;
use intervaltree::IntervalTree;
use std::collections::HashSet;
use vstd::multiset::Multiset;
use vstd::prelude::*;

verus! {

broadcast use vstd::std_specs::hash::group_hash_axioms;

/// A symbol placed in the guest's address space: the half-open range of
/// addresses from `start` up to `end` belongs to `symbol`.
#[derive(Debug, PartialEq, Eq)]
pub struct IntervalEntry {
    /// The first address of the symbol.
    pub start: u64,
    /// The address after the symbol's last.
    pub end: u64,
    /// The symbol.
    pub symbol: SymbolInfo,
}

/// The mathematical value of an [`IntervalEntry`].
pub struct IntervalEntryView {
    pub start: u64,
    pub end: u64,
    pub symbol: SymbolInfoView,
}

impl View for IntervalEntry {
    type V = IntervalEntryView;

    open spec fn view(&self) -> IntervalEntryView {
        IntervalEntryView { start: self.start, end: self.end, symbol: self.symbol@ }
    }
}

/// The values of a run of entries.
pub open spec fn entries_view(entries: Seq<IntervalEntry>) -> Seq<IntervalEntryView> {
    Seq::new(entries.len(), |i: int| entries[i]@)
}

/// Whether two entries span exactly the same addresses.
pub open spec fn same_range(a: IntervalEntryView, b: IntervalEntryView) -> bool {
    a.start == b.start && a.end == b.end
}

/// Whether some entry of `entries` spans exactly the addresses of `entry`.
pub open spec fn range_seen(entries: Seq<IntervalEntryView>, entry: IntervalEntryView) -> bool {
    exists|i: int| 0 <= i < entries.len() && same_range(#[trigger] entries[i], entry)
}

/// Whether no two entries of `entries` span exactly the same addresses.
pub open spec fn distinct_ranges(entries: Seq<IntervalEntryView>) -> bool {
    forall|i: int, j: int|
        0 <= i < j < entries.len() ==> !same_range(#[trigger] entries[i], #[trigger] entries[j])
}

/// The entries of `entries` whose range no earlier entry has, in their order.
pub open spec fn first_by_range(entries: Seq<IntervalEntryView>) -> Seq<IntervalEntryView>
    decreases entries.len(),
{
    if entries.len() == 0 {
        Seq::empty()
    } else if range_seen(entries.drop_last(), entries.last()) {
        first_by_range(entries.drop_last())
    } else {
        first_by_range(entries.drop_last()).push(entries.last())
    }
}

/// A range as one number: the start in the upper half, the end in the lower.
pub open spec fn range_key(start: u64, end: u64) -> u128 {
    (start as u128 * 0x1_0000_0000_0000_0000u128 + end as u128) as u128
}

fn make_range_key(start: u64, end: u64) -> (key: u128)
    ensures
        key == range_key(start, end),
{
    (start as u128) * 0x1_0000_0000_0000_0000u128 + (end as u128)
}

proof fn lemma_range_key_injective(a: u64, b: u64, c: u64, d: u64)
    ensures
        range_key(a, b) == range_key(c, d) <==> a == c && b == d,
{
}

/// Drops every entry whose exact range an earlier entry already has.
pub fn dedup_by_range(elements: Vec<IntervalEntry>) -> (kept: Vec<IntervalEntry>)
    ensures
        entries_view(kept@) == first_by_range(entries_view(elements@)),
{
    let ghost all = entries_view(elements@);
    let mut seen: HashSet<u128> = HashSet::new();
    let mut kept: Vec<IntervalEntry> = Vec::new();
    for element in it: elements.into_iter()
        invariant
            entries_view(it.seq()) == all,
            entries_view(kept@) == first_by_range(all.subrange(0, it.index() as int)),
            forall|key: u128|
                seen@.contains(key) <==> exists|j: int|
                    0 <= j < it.index() && key == range_key(
                        (#[trigger] all[j]).start,
                        all[j].end,
                    ),
    {
        let ghost n = it.index() as int;
        let ghost before = all.subrange(0, n);
        let ghost after = all.subrange(0, n + 1);
        let key = make_range_key(element.start, element.end);
        let fresh = seen.insert(key);
        proof {
            assert(element@ == all[n]);
            assert(after.drop_last() =~= before);
            assert(after.last() == all[n]);
            if !fresh {
                let j = choose|j: int|
                    0 <= j < n && key == range_key((#[trigger] all[j]).start, all[j].end);
                lemma_range_key_injective(all[j].start, all[j].end, all[n].start, all[n].end);
                assert(same_range(before[j], all[n]));
            } else {
                if range_seen(before, all[n]) {
                    let j = choose|j: int|
                        0 <= j < before.len() && same_range(#[trigger] before[j], all[n]);
                    assert(key == range_key(all[j].start, all[j].end));
                }
            }
        }
        if fresh {
            kept.push(element);
            proof {
                assert(entries_view(kept@) =~= first_by_range(before).push(all[n]));
            }
        }
    }
    proof {
        assert(all.subrange(0, all.len() as int) =~= all);
    }
    kept
}

/// Every entry that survives deduplication is an entry of the input.
pub proof fn lemma_first_by_range_members(entries: Seq<IntervalEntryView>)
    ensures
        first_by_range(entries).len() <= entries.len(),
        forall|k: int|
            0 <= k < first_by_range(entries).len() ==> entries.contains(
                #[trigger] first_by_range(entries)[k],
            ),
    decreases entries.len(),
{
    if entries.len() > 0 {
        let head = entries.drop_last();
        lemma_first_by_range_members(head);
        assert forall|k: int| 0 <= k < first_by_range(entries).len() implies entries.contains(
            #[trigger] first_by_range(entries)[k],
        ) by {
            if k < first_by_range(head).len() {
                let i = choose|i: int| 0 <= i < head.len() && head[i] == first_by_range(head)[k];
                assert(entries[i] == first_by_range(entries)[k]);
            } else {
                assert(entries[entries.len() - 1] == first_by_range(entries)[k]);
            }
        }
    }
}

/// After deduplication no two entries span exactly the same addresses.
pub proof fn lemma_first_by_range_distinct(entries: Seq<IntervalEntryView>)
    ensures
        distinct_ranges(first_by_range(entries)),
    decreases entries.len(),
{
    if entries.len() > 0 {
        let head = entries.drop_last();
        lemma_first_by_range_distinct(head);
        lemma_first_by_range_members(head);
        if !range_seen(head, entries.last()) {
            let kept = first_by_range(head);
            assert forall|i: int, j: int| 0 <= i < j < kept.len() + 1 implies !same_range(
                #[trigger] kept.push(entries.last())[i],
                #[trigger] kept.push(entries.last())[j],
            ) by {
                if j == kept.len() {
                    let m = choose|m: int| 0 <= m < head.len() && head[m] == kept[i];
                    assert(!same_range(head[m], entries.last()));
                }
            }
        }
    }
}

/// Deduplication loses no range: whatever range occurs in the input occurs
/// in the result.
pub proof fn lemma_first_by_range_covers(entries: Seq<IntervalEntryView>, i: int)
    requires
        0 <= i < entries.len(),
    ensures
        range_seen(first_by_range(entries), entries[i]),
    decreases entries.len(),
{
    let head = entries.drop_last();
    let kept = first_by_range(head);
    if i < entries.len() - 1 {
        lemma_first_by_range_covers(head, i);
        let k = choose|k: int| 0 <= k < kept.len() && same_range(#[trigger] kept[k], head[i]);
        assert(same_range(first_by_range(entries)[k], entries[i]));
    } else if range_seen(head, entries.last()) {
        let m = choose|m: int| 0 <= m < head.len() && same_range(#[trigger] head[m], entries.last());
        lemma_first_by_range_covers(head, m);
        let k = choose|k: int| 0 <= k < kept.len() && same_range(#[trigger] kept[k], head[m]);
        assert(same_range(first_by_range(entries)[k], entries[i]));
    } else {
        assert(same_range(first_by_range(entries)[kept.len() as int], entries[i]));
    }
}

/// Entries whose ranges already differ pass deduplication unchanged.
pub proof fn lemma_first_by_range_of_distinct(entries: Seq<IntervalEntryView>)
    requires
        distinct_ranges(entries),
    ensures
        first_by_range(entries) == entries,
    decreases entries.len(),
{
    if entries.len() > 0 {
        let head = entries.drop_last();
        assert(distinct_ranges(head)) by {
            assert forall|i: int, j: int| 0 <= i < j < head.len() implies !same_range(
                #[trigger] head[i],
                #[trigger] head[j],
            ) by {
                assert(!same_range(entries[i], entries[j]));
            }
        }
        lemma_first_by_range_of_distinct(head);
        if range_seen(head, entries.last()) {
            let m = choose|m: int| 0 <= m < head.len() && same_range(#[trigger] head[m], entries.last());
            assert(same_range(entries[m], entries[entries.len() - 1]));
        }
        assert(head.push(entries.last()) =~= entries);
    } else {
        assert(first_by_range(entries) =~= entries);
    }
}

/// The interval tree of the `intervaltree` crate, opaque to the verifier.
#[verifier::external_type_specification]
#[verifier::external_body]
#[verifier::reject_recursive_types(K)]
#[verifier::reject_recursive_types(V)]
pub struct ExIntervalTree<K, V>(IntervalTree<K, V>);

/// What a tree holds: one triple of start, end and slot for each element,
/// where the slot is the element's value.
pub uninterp spec fn tree_entries(tree: IntervalTree<u64, usize>) -> Multiset<(u64, u64, usize)>;

/// Whether the half-open range of `entry` contains `address`.
pub open spec fn covers(entry: (u64, u64, usize), address: u64) -> bool {
    entry.0 <= address < entry.1
}

/// Builds a tree with `IntervalTree::from_iter`, which keeps every element it
/// is given: the tree holds exactly the triples of `entries`, as often as they
/// occur there.
#[verifier::external_body]
fn tree_from_entries(entries: &Vec<(u64, u64, usize)>) -> (tree: IntervalTree<u64, usize>)
    ensures
        tree_entries(tree) == entries@.to_multiset(),
{
    entries.iter().map(|e| Element { range: e.0..e.1, value: e.2 }).collect()
}

/// Asks `IntervalTree::query_point` for the elements whose range contains
/// `address` and takes the first it yields. The iterator yields every such
/// element and no other, in an order that the crate leaves open: an answer is
/// an element of the tree that covers the address, and there is none only
/// where no element covers it.
#[verifier::external_body]
fn tree_query_point(tree: &IntervalTree<u64, usize>, address: u64) -> (hit: Option<
    (u64, u64, usize),
>)
    ensures
        match hit {
            Some(entry) => tree_entries(*tree).count(entry) > 0 && covers(entry, address),
            None => forall|entry: (u64, u64, usize)|
                tree_entries(*tree).count(entry) > 0 ==> !covers(entry, address),
        },
{
    tree.query_point(address).next().map(|e| (e.range.start, e.range.end, e.value))
}

/// The triples that stand in the tree for `entries`: each entry's range with
/// the entry's position.
pub open spec fn slot_triples(entries: Seq<IntervalEntryView>) -> Seq<(u64, u64, usize)> {
    Seq::new(entries.len(), |i: int| (entries[i].start, entries[i].end, i as usize))
}

/// The index of one processor: its entries, no two with the same range, and a
/// tree over their ranges for lookup by address.
#[derive(Debug)]
pub struct SymbolIndex {
    entries: Vec<IntervalEntry>,
    tree: IntervalTree<u64, usize>,
}

impl View for SymbolIndex {
    type V = Seq<IntervalEntryView>;

    closed spec fn view(&self) -> Seq<IntervalEntryView> {
        entries_view(self.entries@)
    }
}

impl SymbolIndex {
    /// The tree holds one element for each entry, and no two entries have the
    /// same range.
    #[verifier::type_invariant]
    pub closed spec fn wf(&self) -> bool {
        &&& tree_entries(self.tree) == slot_triples(self@).to_multiset()
        &&& distinct_ranges(self@)
    }

    /// A well-formed index holds no two entries with the same range.
    pub proof fn lemma_distinct(self)
        requires
            self.wf(),
        ensures
            distinct_ranges(self@),
    {
    }

    /// Builds the index of `elements`: of several with the same range the
    /// first is kept.
    pub fn build(elements: Vec<IntervalEntry>) -> (index: SymbolIndex)
        ensures
            index.wf(),
            index@ == first_by_range(entries_view(elements@)),
    {
        let ghost given = entries_view(elements@);
        let entries = dedup_by_range(elements);
        let mut triples: Vec<(u64, u64, usize)> = Vec::new();
        let mut i: usize = 0;
        while i < entries.len()
            invariant
                i <= entries.len(),
                triples.len() == i,
                forall|j: int|
                    0 <= j < i ==> triples[j] == (entries[j].start, entries[j].end, j as usize),
            decreases entries.len() - i,
        {
            triples.push((entries[i].start, entries[i].end, i));
            i += 1;
        }
        let tree = tree_from_entries(&triples);
        proof {
            assert(triples@ =~= slot_triples(entries_view(entries@)));
            lemma_first_by_range_distinct(given);
        }
        SymbolIndex { entries, tree }
    }

    /// The entries, in the order in which they were given.
    pub fn entries(&self) -> (entries: &Vec<IntervalEntry>)
        ensures
            entries_view(entries@) == self@,
            distinct_ranges(self@),
            self.wf(),
    {
        proof {
            use_type_invariant(self);
        }
        &self.entries
    }

    /// The number of entries.
    pub fn len(&self) -> (n: usize)
        ensures
            n == self@.len(),
    {
        self.entries.len()
    }

    /// An entry whose range contains `address`; none where the address is
    /// unresolved, that is where no entry's range contains it.
    pub fn lookup(&self, address: u64) -> (hit: Option<&IntervalEntry>)
        ensures
            match hit {
                Some(entry) => self@.contains(entry@) && entry.start <= address < entry.end,
                None => forall|i: int|
                    0 <= i < self@.len() ==> !((#[trigger] self@[i]).start <= address
                        < self@[i].end),
            },
    {
        let n = self.entries.len();
        proof {
            use_type_invariant(self);
            slot_triples(self@).to_multiset_ensures();
        }
        match tree_query_point(&self.tree, address) {
            Some(found) => {
                proof {
                    assert(slot_triples(self@).contains(found));
                    let i = choose|i: int|
                        0 <= i < slot_triples(self@).len() && slot_triples(self@)[i] == found;
                    assert(i < n);
                    assert(found.2 == i);
                    assert(self@[i] == self.entries[i]@);
                }
                Some(&self.entries[found.2])
            },
            None => {
                proof {
                    assert forall|i: int| 0 <= i < self@.len() implies !((#[trigger] self@[i]).start
                        <= address < self@[i].end) by {
                        let triple = slot_triples(self@)[i];
                        assert(slot_triples(self@).contains(triple));
                        assert(!covers(triple, address));
                    }
                }
                None
            },
        }
    }
}

} // verus!
