//! A map from text labels to values, kept in insertion order.

use crate::utils::text::same_text;
use vstd::prelude::*;

verus! {

/// Whether some entry of `entries` is filed under `label`.
spec fn has_label<V>(entries: Seq<(String, V)>, label: Seq<char>) -> bool {
    exists|i: int| 0 <= i < entries.len() && (#[trigger] entries[i]).0@ == label
}

/// The position of an entry of `entries` filed under `label`.
spec fn position_of<V>(entries: Seq<(String, V)>, label: Seq<char>) -> int {
    choose|i: int| 0 <= i < entries.len() && (#[trigger] entries[i]).0@ == label
}

/// The labels of a list of entries, in order.
spec fn labels_of<V>(entries: Seq<(String, V)>) -> Seq<Seq<char>> {
    entries.map_values(|entry: (String, V)| entry.0@)
}

/// Whether no two entries of `entries` share a label.
spec fn labels_distinct<V>(entries: Seq<(String, V)>) -> bool {
    forall|i: int, j: int|
        0 <= i < j < entries.len() ==> (#[trigger] entries[i]).0@ != (#[trigger] entries[j]).0@
}

/// The map that a list of entries with distinct labels stands for.
spec fn map_of<V>(entries: Seq<(String, V)>) -> Map<Seq<char>, V> {
    Map::new(
        |label: Seq<char>| has_label(entries, label),
        |label: Seq<char>| entries[position_of(entries, label)].1,
    )
}

/// Under distinct labels, the entry at a position is what the map holds for
/// its label.
proof fn lemma_entry_is_mapped<V>(entries: Seq<(String, V)>, i: int)
    requires
        labels_distinct(entries),
        0 <= i < entries.len(),
    ensures
        map_of(entries).contains_key(entries[i].0@),
        map_of(entries)[entries[i].0@] == entries[i].1,
{
    let label = entries[i].0@;
    assert(has_label(entries, label));
    let j = position_of(entries, label);
    assert(0 <= j < entries.len() && entries[j].0@ == label);
    if j < i {
        assert(entries[j].0@ != entries[i].0@);
    } else if i < j {
        assert(entries[i].0@ != entries[j].0@);
    }
}

/// Appending an entry under a new label inserts it into the map.
proof fn lemma_push_inserts<V>(entries: Seq<(String, V)>, label: String, value: V)
    requires
        labels_distinct(entries),
        !has_label(entries, label@),
    ensures
        labels_distinct(entries.push((label, value))),
        map_of(entries.push((label, value))) == map_of(entries).insert(label@, value),
{
    let longer = entries.push((label, value));
    assert forall|i: int, j: int| 0 <= i < j < longer.len() implies
        (#[trigger] longer[i]).0@ != (#[trigger] longer[j]).0@ by {
        if j < entries.len() {
            assert(entries[i].0@ != entries[j].0@);
        } else {
            assert(longer[i] == entries[i]);
        }
    }
    let grown = map_of(entries).insert(label@, value);
    assert forall|other: Seq<char>|
        map_of(longer).contains_key(other) <==> #[trigger] grown.contains_key(other) by {
        if has_label(longer, other) {
            let i = position_of(longer, other);
            if i < entries.len() {
                assert(entries[i] == longer[i]);
            }
        }
        if has_label(entries, other) {
            let i = position_of(entries, other);
            assert(longer[i] == entries[i]);
        }
        if other == label@ {
            assert(longer[entries.len() as int].0@ == other);
        }
    }
    assert forall|other: Seq<char>| #[trigger] map_of(longer).contains_key(other) implies
        map_of(longer)[other] == grown[other] by {
        let i = position_of(longer, other);
        lemma_entry_is_mapped(longer, i);
        if i < entries.len() {
            assert(entries[i] == longer[i]);
            lemma_entry_is_mapped(entries, i);
        }
    }
    assert(map_of(longer) =~= grown);
}

/// Replacing the value of an entry, under the same label, overwrites it in
/// the map.
proof fn lemma_update_inserts<V>(entries: Seq<(String, V)>, i: int, label: String, value: V)
    requires
        labels_distinct(entries),
        0 <= i < entries.len(),
        entries[i].0@ == label@,
    ensures
        labels_distinct(entries.update(i, (label, value))),
        map_of(entries.update(i, (label, value))) == map_of(entries).insert(label@, value),
{
    let changed = entries.update(i, (label, value));
    assert forall|a: int, b: int| 0 <= a < b < changed.len() implies
        (#[trigger] changed[a]).0@ != (#[trigger] changed[b]).0@ by {
        assert(changed[a].0@ == entries[a].0@);
        assert(changed[b].0@ == entries[b].0@);
        assert(entries[a].0@ != entries[b].0@);
    }
    let replaced = map_of(entries).insert(label@, value);
    assert forall|other: Seq<char>|
        map_of(changed).contains_key(other) <==> #[trigger] replaced.contains_key(other) by {
        if has_label(changed, other) {
            let a = position_of(changed, other);
            assert(entries[a].0@ == changed[a].0@);
        }
        if has_label(entries, other) {
            let a = position_of(entries, other);
            assert(changed[a].0@ == entries[a].0@);
        }
        if other == label@ {
            assert(changed[i].0@ == other);
        }
    }
    assert forall|other: Seq<char>| #[trigger] map_of(changed).contains_key(other) implies
        map_of(changed)[other] == replaced[other] by {
        let a = position_of(changed, other);
        lemma_entry_is_mapped(changed, a);
        if a != i {
            assert(entries[a] == changed[a]);
            lemma_entry_is_mapped(entries, a);
        }
    }
    assert(map_of(changed) =~= replaced);
}

/// The labels of entries with distinct labels are distinct, and they are the
/// keys of the map that the entries stand for.
proof fn lemma_labels_are_keys<V>(entries: Seq<(String, V)>)
    requires
        labels_distinct(entries),
    ensures
        labels_of(entries).no_duplicates(),
        forall|label: Seq<char>|
            map_of(entries).contains_key(label) <==> labels_of(entries).contains(label),
        map_of(entries).dom().finite(),
        map_of(entries).len() == entries.len(),
{
    let labels = labels_of(entries);
    assert forall|i: int, j: int|
        0 <= i < labels.len() && 0 <= j < labels.len() && i != j implies labels[i] != labels[j] by {
        if i < j {
            assert(entries[i].0@ != entries[j].0@);
        } else {
            assert(entries[j].0@ != entries[i].0@);
        }
    }
    assert forall|label: Seq<char>|
        map_of(entries).contains_key(label) <==> labels.contains(label) by {
        if has_label(entries, label) {
            let i = position_of(entries, label);
            assert(labels[i] == label);
        }
        if labels.contains(label) {
            let i = choose|i: int| 0 <= i < labels.len() && labels[i] == label;
            assert(entries[i].0@ == label);
        }
    }
    labels.unique_seq_to_set();
    assert(labels.to_set() =~= map_of(entries).dom());
}

/// A map from labels to values that remembers the order in which its labels
/// first came in. No label occurs twice.
#[derive(Debug, PartialEq, Eq)]
pub struct LabelMap<V> {
    entries: Vec<(String, V)>,
}

impl<V> View for LabelMap<V> {
    type V = Map<Seq<char>, V>;

    closed spec fn view(&self) -> Map<Seq<char>, V> {
        map_of(self.entries@)
    }
}

impl<V> LabelMap<V> {
    #[verifier::type_invariant]
    spec fn well_formed(self) -> bool {
        labels_distinct(self.entries@)
    }

    /// The labels in the order in which they first came in.
    pub closed spec fn labels(&self) -> Seq<Seq<char>> {
        labels_of(self.entries@)
    }

    /// The empty map.
    pub fn new() -> (map: Self)
        ensures
            map@ == Map::<Seq<char>, V>::empty(),
            map.labels() == Seq::<Seq<char>>::empty(),
    {
        let map = LabelMap { entries: Vec::new() };
        assert(map@ =~= Map::<Seq<char>, V>::empty());
        assert(map.labels() =~= Seq::<Seq<char>>::empty());
        map
    }

    /// How many labels the map holds. The labels are distinct, and they are
    /// the keys of the view.
    pub fn len(&self) -> (count: usize)
        ensures
            count == self.labels().len(),
            count == self@.len(),
            self.labels().no_duplicates(),
            forall|label: Seq<char>| self@.contains_key(label) <==> self.labels().contains(label),
    {
        proof {
            use_type_invariant(self);
            lemma_labels_are_keys(self.entries@);
        }
        self.entries.len()
    }

    /// The position of `label` among the entries, if it is there.
    fn find(&self, label: &str) -> (found: Option<usize>)
        ensures
            match found {
                Some(i) => i < self.entries@.len() && self.entries@[i as int].0@ == label@,
                None => !has_label(self.entries@, label@),
            },
    {
        let mut i: usize = 0;
        while i < self.entries.len()
            invariant
                i <= self.entries@.len(),
                forall|j: int| 0 <= j < i ==> (#[trigger] self.entries@[j]).0@ != label@,
            decreases self.entries@.len() - i,
        {
            if same_text(self.entries[i].0.as_str(), label) {
                return Some(i);
            }
            i += 1;
        }
        None
    }

    /// Whether the map holds `label`.
    pub fn contains_key(&self, label: &str) -> (found: bool)
        ensures
            found == self@.contains_key(label@),
    {
        self.find(label).is_some()
    }

    /// The value filed under `label`, if there is one.
    pub fn get(&self, label: &str) -> (value: Option<&V>)
        ensures
            match value {
                Some(v) => self@.contains_key(label@) && *v == self@[label@],
                None => !self@.contains_key(label@),
            },
    {
        match self.find(label) {
            Some(i) => {
                proof {
                    use_type_invariant(self);
                    lemma_entry_is_mapped(self.entries@, i as int);
                }
                Some(&self.entries[i].1)
            },
            None => None,
        }
    }

    /// Files `value` under `label`, in place of what was there before. A new
    /// label goes to the end of the order; a known one keeps its place.
    pub fn insert(&mut self, label: String, value: V)
        ensures
            final(self)@ == old(self)@.insert(label@, value),
            old(self)@.contains_key(label@) ==> final(self).labels() == old(self).labels(),
            !old(self)@.contains_key(label@) ==> final(self).labels()
                == old(self).labels().push(label@),
    {
        proof {
            use_type_invariant(&*self);
        }
        let found = self.find(label.as_str());
        // The list leaves the map while it changes: the map holds a
        // well-formed list at every step.
        let mut entries: Vec<(String, V)> = Vec::new();
        core::mem::swap(&mut self.entries, &mut entries);
        match found {
            Some(i) => {
                proof {
                    lemma_update_inserts(entries@, i as int, label, value);
                }
                entries[i] = (label, value);
            },
            None => {
                proof {
                    lemma_push_inserts(entries@, label, value);
                }
                entries.push((label, value));
            },
        }
        core::mem::swap(&mut self.entries, &mut entries);
        proof {
            if found is Some {
                lemma_entry_is_mapped(old(self).entries@, found->0 as int);
                assert(self.labels() =~= old(self).labels());
            } else {
                assert(self.labels() =~= old(self).labels().push(label@));
            }
        }
    }

    /// The label at position `index` of the order.
    pub fn label_at(&self, index: usize) -> (label: &String)
        requires
            index < self.labels().len(),
        ensures
            label@ == self.labels()[index as int],
    {
        &self.entries[index].0
    }

    /// The value filed under the label at position `index` of the order.
    pub fn value_at(&self, index: usize) -> (value: &V)
        requires
            index < self.labels().len(),
        ensures
            self@.contains_key(self.labels()[index as int]),
            *value == self@[self.labels()[index as int]],
    {
        proof {
            use_type_invariant(self);
            lemma_entry_is_mapped(self.entries@, index as int);
        }
        &self.entries[index].1
    }
}

} // verus!
