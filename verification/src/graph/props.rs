//! Property maps: what a row of a graph statement, a node or an edge holds.
use vstd::prelude::*;

use crate::text::same_text;

verus! {

/// The value of one property.
#[derive(Debug, PartialEq, Eq)]
pub enum Prop {
    /// No value.
    Null,
    Boolean(bool),
    Integer(i64),
    Text(String),
    /// A value of a kind that the library neither writes nor reads.
    Other,
}

/// What a `Prop` holds.
pub ghost enum PropView {
    Null,
    Boolean(bool),
    Integer(int),
    Text(Seq<char>),
    Other,
}

impl DeepView for Prop {
    type V = PropView;

    open spec fn deep_view(&self) -> PropView {
        match self {
            Prop::Null => PropView::Null,
            Prop::Boolean(value) => PropView::Boolean(*value),
            Prop::Integer(value) => PropView::Integer(*value as int),
            Prop::Text(value) => PropView::Text(value@),
            Prop::Other => PropView::Other,
        }
    }
}

/// The map from key to value that a sequence of entries stands for.
pub open spec fn entries_map(entries: Seq<(String, Prop)>) -> Map<Seq<char>, PropView>
    decreases entries.len(),
{
    if entries.len() == 0 {
        Map::empty()
    } else {
        entries_map(entries.drop_last()).insert(entries.last().0@, entries.last().1.deep_view())
    }
}

/// Whether no key occurs twice.
pub open spec fn keys_unique(entries: Seq<(String, Prop)>) -> bool {
    forall|i: int, j: int|
        0 <= i < j < entries.len() ==> (#[trigger] entries[i]).0@ != (#[trigger] entries[j]).0@
}

/// A property map: each key occurs once, and the entries stand in the order in
/// which their keys were first set.
#[derive(Debug, PartialEq, Eq)]
pub struct Props {
    entries: Vec<(String, Prop)>,
}

impl DeepView for Props {
    type V = Map<Seq<char>, PropView>;

    closed spec fn deep_view(&self) -> Map<Seq<char>, PropView> {
        entries_map(self.entries@)
    }
}

proof fn lemma_entries_map_domain(entries: Seq<(String, Prop)>, key: Seq<char>)
    ensures
        entries_map(entries).dom().contains(key) <==> exists|i: int|
            0 <= i < entries.len() && (#[trigger] entries[i]).0@ == key,
    decreases entries.len(),
{
    if entries.len() > 0 {
        lemma_entries_map_domain(entries.drop_last(), key);
        let front = entries.drop_last();
        if entries_map(entries).dom().contains(key) {
            if entries.last().0@ == key {
                assert(entries[entries.len() - 1].0@ == key);
            } else {
                let i = choose|i: int| 0 <= i < front.len() && (#[trigger] front[i]).0@ == key;
                assert(entries[i].0@ == key);
            }
        }
        if exists|i: int| 0 <= i < entries.len() && (#[trigger] entries[i]).0@ == key {
            let i = choose|i: int| 0 <= i < entries.len() && (#[trigger] entries[i]).0@ == key;
            if i < front.len() {
                assert(front[i].0@ == key);
            }
        }
    }
}

proof fn lemma_entries_map_value(entries: Seq<(String, Prop)>, i: int)
    requires
        keys_unique(entries),
        0 <= i < entries.len(),
    ensures
        entries_map(entries).dom().contains(entries[i].0@),
        entries_map(entries)[entries[i].0@] == entries[i].1.deep_view(),
    decreases entries.len(),
{
    if i < entries.len() - 1 {
        lemma_entries_map_value(entries.drop_last(), i);
        assert(entries[i].0@ != entries[entries.len() - 1].0@);
    }
}

proof fn lemma_entries_map_update(
    entries: Seq<(String, Prop)>,
    i: int,
    entry: (String, Prop),
)
    requires
        keys_unique(entries),
        0 <= i < entries.len(),
        entry.0@ == entries[i].0@,
    ensures
        keys_unique(entries.update(i, entry)),
        entries_map(entries.update(i, entry)) == entries_map(entries).insert(
            entry.0@,
            entry.1.deep_view(),
        ),
    decreases entries.len(),
{
    let updated = entries.update(i, entry);
    if i < entries.len() - 1 {
        let front = entries.drop_last();
        lemma_entries_map_update(front, i, entry);
        assert(updated.drop_last() =~= front.update(i, entry));
        assert(entries[i].0@ != entries[entries.len() - 1].0@);
        assert(entries_map(updated) =~= entries_map(entries).insert(
            entry.0@,
            entry.1.deep_view(),
        ));
    } else {
        assert(updated.drop_last() =~= entries.drop_last());
        assert(entries_map(updated) =~= entries_map(entries).insert(
            entry.0@,
            entry.1.deep_view(),
        ));
    }
}

impl Props {
    #[verifier::type_invariant]
    spec fn each_key_once(self) -> bool {
        keys_unique(self.entries@)
    }

    /// The map without properties.
    pub fn new() -> (props: Props)
        ensures
            props.deep_view() == Map::<Seq<char>, PropView>::empty(),
    {
        Props { entries: Vec::new() }
    }

    /// Where the entry for `key` stands.
    fn position(&self, key: &str) -> (position: Option<usize>)
        ensures
            position matches Some(i) ==> i < self.entries@.len() && self.entries@[i as int].0@
                == key@,
            position is None ==> forall|i: int|
                0 <= i < self.entries@.len() ==> (#[trigger] self.entries@[i]).0@ != key@,
    {
        let mut i: usize = 0;
        while i < self.entries.len()
            invariant
                0 <= i <= self.entries@.len(),
                forall|j: int| 0 <= j < i ==> (#[trigger] self.entries@[j]).0@ != key@,
            decreases self.entries@.len() - i,
        {
            if same_text(self.entries[i].0.as_str(), key) {
                return Some(i);
            }
            i = i + 1;
        }
        None
    }

    /// This map with `key` set to `value`.
    pub fn with(self, key: &str, value: Prop) -> (props: Props)
        ensures
            props.deep_view() == self.deep_view().insert(key@, value.deep_view()),
    {
        proof {
            use_type_invariant(&self);
        }
        let position = self.position(key);
        let mut entries = self.entries;
        let ghost before = entries@;
        let key_text = key.to_owned();
        match position {
            Some(i) => {
                proof {
                    lemma_entries_map_update(before, i as int, (key_text, value));
                }
                entries.set(i, (key_text, value));
            },
            None => {
                entries.push((key_text, value));
                assert(entries@.drop_last() =~= before);
            },
        }
        Props { entries }
    }

    /// The value of `key`, where it is set.
    pub fn get(&self, key: &str) -> (value: Option<&Prop>)
        ensures
            value is Some == self.deep_view().dom().contains(key@),
            value matches Some(found) ==> found.deep_view() == self.deep_view()[key@],
    {
        proof {
            use_type_invariant(self);
            lemma_entries_map_domain(self.entries@, key@);
        }
        match self.position(key) {
            Some(i) => {
                proof {
                    lemma_entries_map_value(self.entries@, i as int);
                }
                Some(&self.entries[i].1)
            },
            None => None,
        }
    }

    /// Whether no property is set.
    pub fn is_empty(&self) -> (empty: bool)
        ensures
            empty == (self.deep_view() == Map::<Seq<char>, PropView>::empty()),
    {
        proof {
            if self.entries@.len() > 0 {
                lemma_entries_map_domain(self.entries@, self.entries@[0].0@);
                assert(self.entries@[0].0@ == self.entries@[0].0@);
                assert(entries_map(self.entries@).dom().contains(self.entries@[0].0@));
            }
        }
        self.entries.len() == 0
    }

    /// The entries of this map, each key once.
    pub fn entries(&self) -> (entries: &Vec<(String, Prop)>)
        ensures
            entries_map(entries@) == self.deep_view(),
            keys_unique(entries@),
    {
        proof {
            use_type_invariant(self);
        }
        &self.entries
    }
}

} // verus!
