use crate::text::same_text;
use vstd::prelude::*;

verus! {

/// A row of a source: an identifier and named fields.
pub trait Record {
    /// The row's identifier.
    spec fn spec_id(&self) -> u64;

    /// The row's fields, by name. A name that is not a key has no value.
    spec fn fields(&self) -> Map<Seq<char>, Seq<char>>;

    fn id(&self) -> (id: u64)
        ensures
            id == self.spec_id(),
    ;

    /// The value of the field of that name, if the row has one.
    fn value_for(&self, name: &str) -> (value: Option<&String>)
        ensures
            value is Some <==> self.fields().contains_key(name@),
            value matches Some(text) ==> text@ == self.fields()[name@],
    ;
}

/// The fields that a list of names and values gives: where a name stands twice, its later
/// value counts.
pub open spec fn fields_of(entries: Seq<(String, String)>) -> Map<Seq<char>, Seq<char>>
    decreases entries.len(),
{
    if entries.len() == 0 {
        Map::empty()
    } else {
        fields_of(entries.drop_last()).insert(entries.last().0@, entries.last().1@)
    }
}

/// Entries behind position `from` that bear another name do not touch what `name` has.
pub proof fn lemma_later_names_differ(entries: Seq<(String, String)>, name: Seq<char>, from: int)
    requires
        0 <= from <= entries.len(),
        forall|j: int| from <= j < entries.len() ==> (#[trigger] entries[j]).0@ != name,
    ensures
        fields_of(entries).contains_key(name) == fields_of(entries.take(from)).contains_key(name),
        fields_of(entries).contains_key(name) ==> fields_of(entries)[name] == fields_of(
            entries.take(from),
        )[name],
    decreases entries.len() - from,
{
    if from == entries.len() {
        assert(entries.take(from) =~= entries);
    } else {
        let front = entries.drop_last();
        assert(entries.last() == entries[entries.len() - 1]);
        assert forall|j: int| from <= j < front.len() implies (#[trigger] front[j]).0@ != name by {
            assert(front[j] == entries[j]);
        }
        lemma_later_names_differ(front, name, from);
        assert(front.take(from) =~= entries.take(from));
    }
}

/// The name of every entry is the name of a field.
pub proof fn lemma_entry_is_field(entries: Seq<(String, String)>, at: int)
    requires
        0 <= at < entries.len(),
    ensures
        fields_of(entries).contains_key(entries[at].0@),
    decreases entries.len(),
{
    if at < entries.len() - 1 {
        lemma_entry_is_field(entries.drop_last(), at);
    }
}

/// The name of every field is the name of an entry.
pub proof fn lemma_field_is_entry(entries: Seq<(String, String)>, name: Seq<char>)
    requires
        fields_of(entries).contains_key(name),
    ensures
        exists|at: int| 0 <= at < entries.len() && (#[trigger] entries[at]).0@ == name,
    decreases entries.len(),
{
    if entries.len() > 0 {
        if entries.last().0@ == name {
            assert(entries[entries.len() - 1].0@ == name);
        } else {
            lemma_field_is_entry(entries.drop_last(), name);
            let at: int = choose|at: int|
                0 <= at < entries.drop_last().len() && (#[trigger] entries.drop_last()[at]).0@
                    == name;
            assert(entries[at].0@ == name);
        }
    }
}

/// Whether `other` has every field of `fields`, with the same value.
pub open spec fn within(fields: Map<Seq<char>, Seq<char>>, other: Map<Seq<char>, Seq<char>>) -> bool {
    forall|name: Seq<char>| #[trigger]
        fields.contains_key(name) ==> other.contains_key(name) && other[name] == fields[name]
}

/// A record that keeps its fields as a list of names and values, so that what a lookup
/// returns is proved: of a hash map with strings for keys nothing can be. Two such records
/// are equal when they have the same identifier and the same fields, in whatever order and
/// however often they were given.
#[derive(Debug, Eq)]
pub struct MapRecord {
    id: u64,
    entries: Vec<(String, String)>,
}

impl MapRecord {
    /// The record with that identifier and those fields. Where a name stands twice in
    /// `entries`, its later value counts.
    pub fn new(id: u64, entries: Vec<(String, String)>) -> (record: MapRecord)
        ensures
            record.spec_id() == id,
            record.fields() == fields_of(entries@),
    {
        MapRecord { id, entries }
    }
}

impl MapRecord {
    /// Whether `other` has every field of this record, with the same value.
    fn is_within(&self, other: &MapRecord) -> (within: bool)
        ensures
            within == self::within(self.fields(), other.fields()),
    {
        let mut at: usize = 0;
        while at < self.entries.len()
            invariant
                at <= self.entries.len(),
                forall|j: int|
                    0 <= j < at ==> other.fields().contains_key(
                        (#[trigger] self.entries@[j]).0@,
                    ) && other.fields()[self.entries@[j].0@] == self.fields()[self.entries@[j].0@],
            decreases self.entries.len() - at,
        {
            let name = self.entries[at].0.as_str();
            proof {
                lemma_entry_is_field(self.entries@, at as int);
            }
            let same = match (self.value_for(name), other.value_for(name)) {
                (Some(ours), Some(theirs)) => same_text(ours.as_str(), theirs.as_str()),
                _ => false,
            };
            if !same {
                return false;
            }
            at = at + 1;
        }
        proof {
            assert forall|name: Seq<char>| #[trigger]
                self.fields().contains_key(name) implies other.fields().contains_key(name)
                && other.fields()[name] == self.fields()[name] by {
                lemma_field_is_entry(self.entries@, name);
                let j: int = choose|j: int|
                    0 <= j < self.entries@.len() && (#[trigger] self.entries@[j]).0@ == name;
                assert(other.fields().contains_key(self.entries@[j].0@));
            }
        }
        true
    }
}

impl PartialEq for MapRecord {
    fn eq(&self, other: &MapRecord) -> (same: bool) {
        let same = self.id == other.id && self.is_within(other) && other.is_within(self);
        proof {
            if same {
                assert(self.fields() =~= other.fields());
            }
        }
        same
    }
}

impl vstd::std_specs::cmp::PartialEqSpecImpl for MapRecord {
    open spec fn obeys_eq_spec() -> bool {
        true
    }

    open spec fn eq_spec(&self, other: &MapRecord) -> bool {
        self.spec_id() == other.spec_id() && self.fields() == other.fields()
    }
}

impl Record for MapRecord {
    closed spec fn spec_id(&self) -> u64 {
        self.id
    }

    closed spec fn fields(&self) -> Map<Seq<char>, Seq<char>> {
        fields_of(self.entries@)
    }

    fn id(&self) -> (id: u64) {
        self.id
    }

    fn value_for(&self, name: &str) -> (value: Option<&String>) {
        let mut at: usize = self.entries.len();
        while at > 0
            invariant
                at <= self.entries.len(),
                forall|j: int| at <= j < self.entries.len() ==> (#[trigger] self.entries@[j]).0@ != name@,
            decreases at,
        {
            at = at - 1;
            let entry = &self.entries[at];
            if same_text(entry.0.as_str(), name) {
                proof {
                    lemma_later_names_differ(self.entries@, name@, at + 1);
                    assert(self.entries@.take(at + 1).drop_last() =~= self.entries@.take(at as int));
                    assert(self.entries@.take(at + 1).last() == self.entries@[at as int]);
                }
                return Some(&entry.1);
            }
        }
        proof {
            lemma_later_names_differ(self.entries@, name@, 0);
            assert(self.entries@.take(0).len() == 0);
        }
        None
    }
}

} // verus!
