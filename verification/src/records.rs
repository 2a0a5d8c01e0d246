//! Trees of named records: what the nested-record grammar denotes.

use crate::flags::Flags;
use crate::index::{index_entries, index_get, index_insert, index_key_at, index_new};
use indexmap::IndexMap;
use vstd::prelude::*;

verus! {

/// What a value holds.
pub enum DataModel {
    Records(RecordsModel),
    Flags(Seq<Seq<char>>),
    LitInt(Seq<char>),
    LitStr(Seq<char>),
    Path(Seq<char>),
}

/// A value and the position of its first token.
pub struct ValueModel {
    pub span: int,
    pub data: DataModel,
}

/// A record map: its fields in order, no key twice, and the position of
/// its first token.
pub struct RecordsModel {
    pub span: int,
    pub fields: Seq<(Seq<char>, ValueModel)>,
}

/// Whether some field has the key.
pub open spec fn has_key(fields: Seq<(Seq<char>, ValueModel)>, key: Seq<char>) -> bool {
    exists|i: int| 0 <= i < fields.len() && (#[trigger] fields[i]).0 == key
}

/// The position of a field with the key.
pub open spec fn key_position(fields: Seq<(Seq<char>, ValueModel)>, key: Seq<char>) -> int {
    choose|i: int| 0 <= i < fields.len() && (#[trigger] fields[i]).0 == key
}

/// No key occurs twice.
pub open spec fn distinct_keys(fields: Seq<(Seq<char>, ValueModel)>) -> bool {
    forall|i: int, j: int|
        0 <= i < j < fields.len() ==> (#[trigger] fields[i]).0 != (#[trigger] fields[j]).0
}

/// The value stored for a key.
pub open spec fn lookup(fields: Seq<(Seq<char>, ValueModel)>, key: Seq<char>) -> Option<
    ValueModel,
> {
    if has_key(fields, key) {
        Some(fields[key_position(fields, key)].1)
    } else {
        None
    }
}

/// The fields after a key has been given a value: a key that is there
/// keeps its place and takes the new value, a new key comes last.
pub open spec fn inserted(
    fields: Seq<(Seq<char>, ValueModel)>,
    key: Seq<char>,
    value: ValueModel,
) -> Seq<(Seq<char>, ValueModel)> {
    if has_key(fields, key) {
        fields.update(key_position(fields, key), (key, value))
    } else {
        fields.push((key, value))
    }
}

/// Giving a key a value keeps the keys distinct.
pub proof fn lemma_inserted_distinct(
    fields: Seq<(Seq<char>, ValueModel)>,
    key: Seq<char>,
    value: ValueModel,
)
    requires
        distinct_keys(fields),
    ensures
        distinct_keys(inserted(fields, key, value)),
        lookup(inserted(fields, key, value), key) == Some(value),
{
    let after = inserted(fields, key, value);
    if has_key(fields, key) {
        let p = key_position(fields, key);
        assert(after[p].0 == key);
        assert forall|i: int, j: int| 0 <= i < j < after.len() implies (#[trigger] after[i]).0 != (
        #[trigger] after[j]).0 by {
            assert(after[i].0 == fields[i].0);
            assert(after[j].0 == fields[j].0);
        }
        let q = key_position(after, key);
        if q < p {
            assert(after[q].0 != after[p].0);
        } else if p < q {
            assert(after[p].0 != after[q].0);
        }
    } else {
        let p = fields.len() as int;
        assert(after[p].0 == key);
        assert forall|i: int, j: int| 0 <= i < j < after.len() implies (#[trigger] after[i]).0 != (
        #[trigger] after[j]).0 by {
            assert(after[i] == fields[i]);
            if j < p {
                assert(after[j] == fields[j]);
            }
        }
        let q = key_position(after, key);
        if q < p {
            assert(after[q] == fields[q]);
        }
    }
}

/// The data of a value.
#[derive(Debug)]
pub enum RecordValueData {
    /// A nested record map.
    Records(Records),
    /// A permission flag-set.
    Flags(Flags),
    /// An integer literal: its digits in base 10.
    LitInt(String),
    /// A string literal: the string that it denotes.
    LitStr(String),
    /// A path: its text.
    Path(String),
}

/// A value, with the position of its first token.
#[derive(Debug)]
pub struct RecordValue {
    pub span: usize,
    pub data: RecordValueData,
}

/// The key of a record, with the position of its token.
#[derive(Debug, Clone)]
pub struct RecordKey {
    pub span: usize,
    pub key: String,
}

/// One record: a key and its value.
#[derive(Debug)]
pub struct Record {
    pub span: usize,
    pub key: RecordKey,
    pub value: RecordValue,
}

/// An ordered map from keys to values.
#[derive(Debug)]
pub struct Records {
    span: usize,
    keys: IndexMap<String, usize>,
    values: Vec<RecordValue>,
}

impl RecordValue {
    /// The value as a mathematical tree.
    pub open spec fn model(self) -> ValueModel
        decreases self,
    {
        ValueModel {
            span: self.span as int,
            data: match self.data {
                RecordValueData::Records(r) => DataModel::Records(r.model()),
                RecordValueData::Flags(f) => DataModel::Flags(f@),
                RecordValueData::LitInt(s) => DataModel::LitInt(s@),
                RecordValueData::LitStr(s) => DataModel::LitStr(s@),
                RecordValueData::Path(s) => DataModel::Path(s@),
            },
        }
    }

    /// Every record map within the value is well formed.
    pub open spec fn wf(self) -> bool
        decreases self,
    {
        match self.data {
            RecordValueData::Records(r) => r.wf(),
            _ => true,
        }
    }
}

impl Records {
    /// The map as a mathematical tree: its fields in the order of the index.
    pub closed spec fn model(self) -> RecordsModel
        decreases self,
    {
        RecordsModel {
            span: self.span as int,
            fields: Seq::new(
                self.values@.len(),
                |i: int|
                    (
                        index_entries(self.keys)[i].0,
                        if 0 <= i < self.values@.len() {
                            self.values@[i].model()
                        } else {
                            arbitrary()
                        },
                    ),
            ),
        }
    }

    /// The index holds each key once, at the place of its value, and every
    /// nested record map is well formed.
    pub closed spec fn wf(self) -> bool
        decreases self,
    {
        let entries = index_entries(self.keys);
        &&& entries.len() == self.values@.len()
        &&& forall|i: int| 0 <= i < entries.len() ==> (#[trigger] entries[i]).1 == i
        &&& forall|i: int, j: int|
            0 <= i < j < entries.len() ==> (#[trigger] entries[i]).0 != (#[trigger] entries[j]).0
        &&& forall|i: int| 0 <= i < self.values@.len() ==> (#[trigger] self.values@[i]).wf()
    }

    /// A well-formed map has distinct keys.
    pub proof fn lemma_distinct(self)
        requires
            self.wf(),
        ensures
            distinct_keys(self.model().fields),
    {
        let fields = self.model().fields;
        let entries = index_entries(self.keys);
        assert forall|i: int, j: int| 0 <= i < j < fields.len() implies (#[trigger] fields[i]).0 != (
        #[trigger] fields[j]).0 by {
            assert(entries[i].0 != entries[j].0);
        }
    }

    /// The empty map.
    pub fn new(span: usize) -> (r: Records)
        ensures
            r.wf(),
            r.model() == (RecordsModel { span: span as int, fields: Seq::empty() }),
    {
        let r = Records { span, keys: index_new(), values: Vec::new() };
        assert(r.model().fields =~= Seq::empty());
        r
    }

    /// The position of the map's first token.
    pub fn span(&self) -> (span: usize)
        ensures
            span == self.model().span,
    {
        self.span
    }

    /// The number of fields.
    pub fn len(&self) -> (n: usize)
        requires
            self.wf(),
        ensures
            n == self.model().fields.len(),
    {
        self.values.len()
    }

    /// The key of the field at a position.
    pub fn key_at(&self, i: usize) -> (key: String)
        requires
            self.wf(),
            i < self.model().fields.len(),
        ensures
            key@ == self.model().fields[i as int].0,
    {
        match index_key_at(&self.keys, i) {
            Some(key) => key,
            None => {
                proof {
                    assert(false);
                }
                String::new()
            },
        }
    }

    /// The value of the field at a position.
    pub fn value_at(&self, i: usize) -> (value: &RecordValue)
        requires
            self.wf(),
            i < self.model().fields.len(),
        ensures
            value.model() == self.model().fields[i as int].1,
            value.wf(),
    {
        &self.values[i]
    }

    /// The value stored for a key.
    pub fn get(&self, key: &str) -> (r: Option<&RecordValue>)
        requires
            self.wf(),
        ensures
            match r {
                Some(value) => value.wf() && lookup(self.model().fields, key@) == Some(
                    value.model(),
                ),
                None => lookup(self.model().fields, key@).is_none(),
            },
    {
        let ghost fields = self.model().fields;
        let ghost entries = index_entries(self.keys);
        proof {
            self.lemma_distinct();
        }
        match index_get(&self.keys, key) {
            Some(slot) => {
                proof {
                    let i = choose|i: int|
                        0 <= i < entries.len() && #[trigger] entries[i] == (key@, slot);
                    assert(entries[i].1 == i);
                    assert(fields[i].0 == key@);
                    let p = key_position(fields, key@);
                    if p < i {
                        assert(fields[p].0 != fields[i].0);
                    } else if i < p {
                        assert(fields[i].0 != fields[p].0);
                    }
                }
                Some(&self.values[slot])
            },
            None => {
                proof {
                    if has_key(fields, key@) {
                        let p = key_position(fields, key@);
                        assert(entries[p].0 != key@);
                    }
                }
                None
            },
        }
    }

    /// Gives a key a value: a key that is there keeps its place and takes
    /// the new value, a new key comes last.
    pub fn insert(&mut self, key: String, value: RecordValue)
        requires
            old(self).wf(),
            value.wf(),
        ensures
            final(self).wf(),
            final(self).model().span == old(self).model().span,
            final(self).model().fields == inserted(
                old(self).model().fields,
                key@,
                value.model(),
            ),
    {
        let ghost fields = self.model().fields;
        let ghost entries = index_entries(self.keys);
        let ghost before = *self;
        proof {
            self.lemma_distinct();
        }
        match index_get(&self.keys, key.as_str()) {
            Some(slot) => {
                proof {
                    let i = choose|i: int|
                        0 <= i < entries.len() && #[trigger] entries[i] == (key@, slot);
                    assert(entries[i].1 == i);
                    assert(fields[i].0 == key@);
                    let p = key_position(fields, key@);
                    if p < i {
                        assert(fields[p].0 != fields[i].0);
                    } else if i < p {
                        assert(fields[i].0 != fields[p].0);
                    }
                }
                self.values.set(slot, value);
                proof {
                    assert forall|i: int| 0 <= i < self.values@.len() implies (
                    #[trigger] self.values@[i]).wf() by {
                        if i != slot {
                            assert(self.values@[i] == before.values@[i]);
                        }
                    }
                    assert(self.model().fields =~= inserted(fields, key@, value.model()));
                }
            },
            None => {
                proof {
                    if has_key(fields, key@) {
                        let p = key_position(fields, key@);
                        assert(entries[p].0 != key@);
                    }
                }
                let slot = self.values.len();
                index_insert(&mut self.keys, key, slot);
                self.values.push(value);
                proof {
                    let after = index_entries(self.keys);
                    assert forall|i: int| 0 <= i < self.values@.len() implies (
                    #[trigger] self.values@[i]).wf() by {
                        if i != slot {
                            assert(self.values@[i] == before.values@[i]);
                        }
                    }
                    assert forall|i: int, j: int| 0 <= i < j < after.len() implies (
                    #[trigger] after[i]).0 != (#[trigger] after[j]).0 by {
                        assert(after[i] == entries[i]);
                        if j < slot {
                            assert(after[j] == entries[j]);
                        }
                    }
                    assert forall|i: int| 0 <= i < after.len() implies (#[trigger] after[i]).1
                        == i by {
                        if i < slot {
                            assert(after[i] == entries[i]);
                        }
                    }
                    assert(self.model().fields =~= inserted(fields, key@, value.model()));
                }
            },
        }
    }
}

} // verus!
