//! The browsable cluster objects — indices, aliases and data streams — and
//! the per-kind collections the dashboard pages through: a free-text filter
//! over identity keys and a selection that survives refreshes by key, not
//! by position.

use vstd::prelude::*;
use vstd::string::*;
use crate::text::contains_sub;
use crate::text::contains_sub_exec;
use crate::text::lower_of;
use crate::text::str_eq;
use crate::text::to_lower;

verus! {

/// Which of the three collections is being browsed.
#[derive(Clone, Copy, PartialEq, Eq, Structural, Debug)]
pub enum ScopeKind {
    Indices,
    Aliases,
    DataStreams,
}

/// One browsable cluster object. The identity key is the name or alias
/// string; entries are immutable once fetched and replaced wholesale on
/// refresh.
#[derive(Clone, Debug)]
pub enum ScopeEntry {
    Index { name: String, health: String, docs_count: String },
    Alias { alias: String, target_index: String },
    DataStream { name: String, status: Option<String>, generation: Option<u64>, backing_index_count: u64 },
}

impl ScopeEntry {
    /// The identity key of the entry.
    pub open spec fn spec_key(self) -> Seq<char> {
        match self {
            ScopeEntry::Index { name, .. } => name@,
            ScopeEntry::Alias { alias, .. } => alias@,
            ScopeEntry::DataStream { name, .. } => name@,
        }
    }

    /// The kind of collection the entry belongs to.
    pub open spec fn spec_kind(self) -> ScopeKind {
        match self {
            ScopeEntry::Index { .. } => ScopeKind::Indices,
            ScopeEntry::Alias { .. } => ScopeKind::Aliases,
            ScopeEntry::DataStream { .. } => ScopeKind::DataStreams,
        }
    }

    /// The identity key of the entry.
    pub fn key(&self) -> (r: &str)
        ensures
            r@ == self.spec_key(),
    {
        match self {
            ScopeEntry::Index { name, .. } => name.as_str(),
            ScopeEntry::Alias { alias, .. } => alias.as_str(),
            ScopeEntry::DataStream { name, .. } => name.as_str(),
        }
    }
}

/// The position of a kind among the scope tabs.
pub fn scope_tab_index(scope: ScopeKind) -> (r: usize)
    ensures
        r == match scope {
            ScopeKind::Indices => 0int,
            ScopeKind::Aliases => 1int,
            ScopeKind::DataStreams => 2int,
        },
{
    match scope {
        ScopeKind::Indices => 0,
        ScopeKind::Aliases => 1,
        ScopeKind::DataStreams => 2,
    }
}

/// The list title of a kind.
pub fn scope_title(scope: ScopeKind) -> (r: &'static str)
    ensures
        r@ == match scope {
            ScopeKind::Indices => "Indices"@,
            ScopeKind::Aliases => "Aliases"@,
            ScopeKind::DataStreams => "DataStreams"@,
        },
{
    match scope {
        ScopeKind::Indices => "Indices",
        ScopeKind::Aliases => "Aliases",
        ScopeKind::DataStreams => "DataStreams",
    }
}

// ---------------------------------------------------------------------------
// Filtering
// ---------------------------------------------------------------------------

/// Whether an entry passes the filter: its lowercased identity key
/// contains `needle` (itself already trimmed and lowercased) as a
/// substring.
pub open spec fn entry_matches(e: ScopeEntry, needle: Seq<char>) -> bool {
    contains_sub(lower_of(e.spec_key()), needle)
}

/// The positions, from `i` on and in order, of the entries that pass the
/// filter.
pub open spec fn filtered_from(entries: Seq<ScopeEntry>, needle: Seq<char>, i: int) -> Seq<int>
    decreases entries.len() - i,
{
    if 0 <= i < entries.len() {
        if entry_matches(entries[i], needle) {
            seq![i] + filtered_from(entries, needle, i + 1)
        } else {
            filtered_from(entries, needle, i + 1)
        }
    } else {
        Seq::empty()
    }
}

/// The positions, in order, of the entries that pass the filter.
pub open spec fn filtered_idx(entries: Seq<ScopeEntry>, needle: Seq<char>) -> Seq<int> {
    filtered_from(entries, needle, 0)
}

proof fn lemma_filtered_from(entries: Seq<ScopeEntry>, needle: Seq<char>, i: int)
    requires
        0 <= i,
    ensures
        forall|k: int|
            0 <= k < filtered_from(entries, needle, i).len() ==> {
                let j = #[trigger] filtered_from(entries, needle, i)[k];
                i <= j < entries.len() && entry_matches(entries[j], needle)
            },
        forall|j: int|
            i <= j < entries.len() && entry_matches(entries[j], needle)
                ==> filtered_from(entries, needle, i).contains(j),
        forall|a: int, b: int|
            0 <= a < b < filtered_from(entries, needle, i).len()
                ==> filtered_from(entries, needle, i)[a] < filtered_from(entries, needle, i)[b],
    decreases entries.len() - i,
{
    if 0 <= i < entries.len() {
        lemma_filtered_from(entries, needle, i + 1);
        let rest = filtered_from(entries, needle, i + 1);
        if entry_matches(entries[i], needle) {
            let whole = seq![i] + rest;
            assert(whole[0] == i);
            assert(forall|k: int| 0 < k < whole.len() ==> whole[k] == rest[k - 1]);
            assert forall|j: int|
                i <= j < entries.len() && entry_matches(entries[j], needle) implies whole.contains(
                j,
            ) by {
                if j == i {
                    assert(whole[0] == j);
                } else {
                    assert(rest.contains(j));
                    let k = choose|k: int| 0 <= k < rest.len() && rest[k] == j;
                    assert(whole[k + 1] == j);
                }
            }
        } else {
            assert forall|j: int|
                i <= j < entries.len() && entry_matches(entries[j], needle) implies rest.contains(
                j,
            ) by {
                assert(j != i);
            }
        }
    }
}

/// The filtered view of a collection is exactly the subset of entries
/// whose identity key contains the filter, case-insensitively, in the
/// collection's original order; an empty filter admits the full
/// collection in original order.
pub proof fn lemma_filtered_view(entries: Seq<ScopeEntry>, needle: Seq<char>)
    ensures
        forall|k: int|
            0 <= k < filtered_idx(entries, needle).len() ==> {
                let j = #[trigger] filtered_idx(entries, needle)[k];
                0 <= j < entries.len() && entry_matches(entries[j], needle)
            },
        forall|j: int|
            0 <= j < entries.len() && entry_matches(entries[j], needle) ==> filtered_idx(
                entries,
                needle,
            ).contains(j),
        forall|a: int, b: int|
            0 <= a < b < filtered_idx(entries, needle).len() ==> filtered_idx(entries, needle)[a]
                < filtered_idx(entries, needle)[b],
        needle.len() == 0 ==> filtered_idx(entries, needle) =~= Seq::new(
            entries.len(),
            |j: int| j,
        ),
{
    lemma_filtered_from(entries, needle, 0);
    if needle.len() == 0 {
        assert forall|j: int| 0 <= j < entries.len() implies entry_matches(
            entries[j],
            needle,
        ) by {
            crate::text::lemma_empty_contained(lower_of(entries[j].spec_key()), needle);
        }
        lemma_filtered_full(entries, needle, 0);
    }
}

proof fn lemma_filtered_full(entries: Seq<ScopeEntry>, needle: Seq<char>, i: int)
    requires
        forall|j: int| 0 <= j < entries.len() ==> entry_matches(entries[j], needle),
        0 <= i,
    ensures
        filtered_from(entries, needle, i) =~= Seq::new(
            if i <= entries.len() {
                (entries.len() - i) as nat
            } else {
                0nat
            },
            |k: int| i + k,
        ),
    decreases entries.len() - i,
{
    if i < entries.len() {
        lemma_filtered_full(entries, needle, i + 1);
    }
}

/// The positions of the entries whose lowercased identity key contains
/// `needle`, in order; an empty `needle` admits every entry.
pub fn filter_indices_by(entries: &Vec<ScopeEntry>, needle: &str) -> (r: Vec<usize>)
    ensures
        r@.map_values(|x: usize| x as int) == filtered_idx(entries@, needle@),
{
    let mut r: Vec<usize> = Vec::new();
    let n = entries.len();
    let mut i: usize = 0;
    while i < n
        invariant
            0 <= i <= n,
            n == entries@.len(),
            r@.map_values(|x: usize| x as int) + filtered_from(entries@, needle@, i as int)
                == filtered_from(entries@, needle@, 0),
        decreases n - i,
    {
        let ghost pre = r@.map_values(|x: usize| x as int);
        let hay = to_lower(entries[i].key());
        if contains_sub_exec(hay.as_str(), needle) {
            r.push(i);
            proof {
                assert(r@.map_values(|x: usize| x as int) =~= pre + seq![i as int]);
                assert((pre + seq![i as int]) + filtered_from(entries@, needle@, i + 1) =~= pre + (
                seq![i as int] + filtered_from(entries@, needle@, i + 1)));
            }
        }
        i = i + 1;
    }
    proof {
        assert(filtered_from(entries@, needle@, n as int) =~= Seq::<int>::empty());
        assert(r@.map_values(|x: usize| x as int) + Seq::<int>::empty() =~= r@.map_values(
            |x: usize| x as int,
        ));
    }
    r
}

// ---------------------------------------------------------------------------
// Collections and selection reconciliation
// ---------------------------------------------------------------------------

/// An ordered collection of entries of one kind, plus the selected
/// position, if any.
#[derive(Clone, Debug)]
pub struct ScopeCollection {
    pub entries: Vec<ScopeEntry>,
    pub selected: Option<usize>,
}

/// `Some(u)` as a mathematical option.
pub open spec fn sel_view(o: Option<usize>) -> Option<int> {
    match o {
        Some(u) => Some(u as int),
        None => None,
    }
}

/// The position of the first entry with identity key `key`, from `i` on.
pub open spec fn find_key_from(entries: Seq<ScopeEntry>, key: Seq<char>, i: int) -> Option<int>
    decreases entries.len() - i,
{
    if 0 <= i < entries.len() {
        if entries[i].spec_key() == key {
            Some(i)
        } else {
            find_key_from(entries, key, i + 1)
        }
    } else {
        None
    }
}

/// The selection after a collection replacement: the first entry carrying
/// the previously selected key when one exists, else the first entry, or
/// nothing when the new collection is empty.
pub open spec fn reconciled_selection(prev_key: Option<Seq<char>>, entries: Seq<ScopeEntry>) -> Option<int> {
    if entries.len() == 0 {
        None
    } else {
        match prev_key {
            Some(k) => match find_key_from(entries, k, 0) {
                Some(j) => Some(j),
                None => Some(0),
            },
            None => Some(0),
        }
    }
}

impl ScopeCollection {
    /// The selection, when present, points at an entry.
    pub open spec fn wf(self) -> bool {
        match self.selected {
            Some(i) => (i as int) < self.entries@.len(),
            None => true,
        }
    }

    /// The identity key of the selected entry, if any.
    pub open spec fn selected_key(self) -> Option<Seq<char>> {
        match self.selected {
            Some(i) => if (i as int) < self.entries@.len() {
                Some(self.entries@[i as int].spec_key())
            } else {
                None
            },
            None => None,
        }
    }

    /// An empty collection with no selection.
    pub fn new() -> (r: ScopeCollection)
        ensures
            r.entries@.len() == 0,
            r.selected is None,
            r.wf(),
    {
        ScopeCollection { entries: Vec::new(), selected: None }
    }

    /// Replaces the entries wholesale and reconciles the selection by
    /// identity key, as `reconciled_selection` describes.
    pub fn replace_entries(&mut self, new_entries: Vec<ScopeEntry>)
        ensures
            final(self).entries == new_entries,
            sel_view(final(self).selected) == reconciled_selection(
                old(self).selected_key(),
                new_entries@,
            ),
            final(self).wf(),
    {
        let prev: Option<String> = match self.selected {
            Some(i) => if i < self.entries.len() {
                Some(self.entries[i].key().to_owned())
            } else {
                None
            },
            None => None,
        };
        self.entries = new_entries;
        if self.entries.len() == 0 {
            self.selected = None;
        } else {
            let next = match &prev {
                Some(name) => find_key_exec(&self.entries, name.as_str()),
                None => None,
            };
            proof {
                if prev is Some {
                    lemma_find_key_from(self.entries@, prev.unwrap()@, 0);
                }
            }
            self.selected = match next {
                Some(j) => Some(j),
                None => Some(0),
            };
        }
    }
}

fn find_key_exec(entries: &Vec<ScopeEntry>, key: &str) -> (r: Option<usize>)
    ensures
        sel_view(r) == find_key_from(entries@, key@, 0),
{
    let n = entries.len();
    let mut i: usize = 0;
    while i < n
        invariant
            0 <= i <= n,
            n == entries@.len(),
            find_key_from(entries@, key@, 0) == find_key_from(entries@, key@, i as int),
        decreases n - i,
    {
        if str_eq(entries[i].key(), key) {
            return Some(i);
        }
        i = i + 1;
    }
    None
}

proof fn lemma_find_key_from(entries: Seq<ScopeEntry>, key: Seq<char>, i: int)
    requires
        0 <= i,
    ensures
        match find_key_from(entries, key, i) {
            Some(j) => i <= j < entries.len() && entries[j].spec_key() == key,
            None => forall|j: int|
                i <= j < entries.len() ==> entries[j].spec_key() != key,
        },
    decreases entries.len() - i,
{
    if 0 <= i < entries.len() && entries[i].spec_key() != key {
        lemma_find_key_from(entries, key, i + 1);
    }
}

/// After a collection replacement, if the previously selected identity
/// key exists in the new collection, the new selection references that
/// same key, regardless of its position; otherwise the selection falls to
/// the first entry, or to nothing when the new collection is empty.
pub proof fn lemma_reconcile_selection(prev_key: Option<Seq<char>>, entries: Seq<ScopeEntry>)
    ensures
        (prev_key matches Some(k) && (exists|j: int|
            0 <= j < entries.len() && entries[j].spec_key() == k)) ==> {
            &&& reconciled_selection(prev_key, entries) matches Some(r)
            &&& 0 <= r < entries.len()
            &&& entries[r].spec_key() == prev_key->0
        },
        (match prev_key {
            Some(k) => forall|j: int| 0 <= j < entries.len() ==> entries[j].spec_key() != k,
            None => true,
        } && entries.len() > 0) ==> reconciled_selection(prev_key, entries) == Some(0int),
        entries.len() == 0 ==> reconciled_selection(prev_key, entries) is None,
{
    match prev_key {
        Some(k) => lemma_find_key_from(entries, k, 0),
        None => (),
    }
}

} // verus!
