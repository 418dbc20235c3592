use vstd::prelude::*;

verus! {

/// A FlexBuffers document as the library writes and reads it: strings,
/// unsigned integers, booleans, typed vectors of unsigned integers, maps
/// from keys to values and vectors of values. `Null` stands for any value
/// of another kind met when reading.
#[derive(Debug)]
pub enum FlexValue {
    Null,
    Str(String),
    UInt(u64),
    Bool(bool),
    UInts(Vec<u32>),
    Table(Vec<FlexEntry>),
    Vector(Vec<FlexValue>),
}

/// One key of a map and its value.
#[derive(Debug)]
pub struct FlexEntry {
    pub key: String,
    pub value: FlexValue,
}

/// A document as a mathematical value.
pub enum FlexDoc {
    Null,
    Str(Seq<char>),
    UInt(nat),
    Bool(bool),
    UInts(Seq<u32>),
    Table(Seq<(Seq<char>, FlexDoc)>),
    Vector(Seq<FlexDoc>),
}

impl FlexValue {
    /// The document this value holds.
    pub open spec fn doc(&self) -> FlexDoc
        decreases self,
    {
        match self {
            FlexValue::Null => FlexDoc::Null,
            FlexValue::Str(s) => FlexDoc::Str(s@),
            FlexValue::UInt(n) => FlexDoc::UInt(*n as nat),
            FlexValue::Bool(b) => FlexDoc::Bool(*b),
            FlexValue::UInts(v) => FlexDoc::UInts(v@),
            FlexValue::Table(entries) => FlexDoc::Table(entry_docs(entries@)),
            FlexValue::Vector(values) => FlexDoc::Vector(value_docs(values@)),
        }
    }
}

/// The documents of a sequence of map entries.
pub open spec fn entry_docs(entries: Seq<FlexEntry>) -> Seq<(Seq<char>, FlexDoc)>
    decreases entries,
{
    if entries.len() == 0 {
        Seq::empty()
    } else {
        let last = entries.last();
        entry_docs(entries.drop_last()).push((last.key@, last.value.doc()))
    }
}

/// The documents of a sequence of values.
pub open spec fn value_docs(values: Seq<FlexValue>) -> Seq<FlexDoc>
    decreases values,
{
    if values.len() == 0 {
        Seq::empty()
    } else {
        value_docs(values.drop_last()).push(values.last().doc())
    }
}

/// The value filed under `key` in a map's entries: the first entry with
/// that key.
pub open spec fn doc_lookup(entries: Seq<(Seq<char>, FlexDoc)>, key: Seq<char>) -> Option<FlexDoc>
    decreases entries.len(),
{
    if entries.len() == 0 {
        None
    } else if entries[0].0 == key {
        Some(entries[0].1)
    } else {
        doc_lookup(entries.drop_first(), key)
    }
}

/// The entries of a document sequence are the documents of the entries.
pub proof fn lemma_entry_docs(entries: Seq<FlexEntry>)
    ensures
        entry_docs(entries).len() == entries.len(),
        forall|i: int|
            0 <= i < entries.len() ==> #[trigger] entry_docs(entries)[i] == (
                entries[i].key@,
                entries[i].value.doc(),
            ),
    decreases entries.len(),
{
    if entries.len() > 0 {
        lemma_entry_docs(entries.drop_last());
    }
}

/// The documents of a value sequence are the documents of the values.
pub proof fn lemma_value_docs(values: Seq<FlexValue>)
    ensures
        value_docs(values).len() == values.len(),
        forall|i: int| 0 <= i < values.len() ==> #[trigger] value_docs(values)[i] == values[i].doc(),
    decreases values.len(),
{
    if values.len() > 0 {
        lemma_value_docs(values.drop_last());
    }
}

/// Whether two string slices hold the same characters.
pub fn text_equal(a: &str, b: &str) -> (equal: bool)
    ensures
        equal == (a@ == b@),
{
    let n = a.unicode_len();
    if n != b.unicode_len() {
        return false;
    }
    let mut i: usize = 0;
    while i < n
        invariant
            n == a@.len(),
            n == b@.len(),
            i <= n,
            forall|j: int| 0 <= j < i ==> a@[j] == b@[j],
        decreases n - i,
    {
        if a.get_char(i) != b.get_char(i) {
            return false;
        }
        i = i + 1;
    }
    assert(a@ =~= b@);
    true
}

/// The value filed under `key` among `entries`.
pub fn lookup<'a>(entries: &'a Vec<FlexEntry>, key: &str) -> (value: Option<&'a FlexValue>)
    ensures
        match value {
            Some(v) => doc_lookup(entry_docs(entries@), key@) == Some(v.doc()),
            None => doc_lookup(entry_docs(entries@), key@) is None,
        },
{
    let ghost docs = entry_docs(entries@);
    proof {
        lemma_entry_docs(entries@);
        assert(docs.subrange(0, docs.len() as int) =~= docs);
    }
    let mut i: usize = 0;
    while i < entries.len()
        invariant
            docs == entry_docs(entries@),
            docs.len() == entries@.len(),
            forall|j: int|
                0 <= j < entries@.len() ==> #[trigger] docs[j] == (
                    entries@[j].key@,
                    entries@[j].value.doc(),
                ),
            i <= entries@.len(),
            doc_lookup(docs, key@) == doc_lookup(docs.subrange(i as int, docs.len() as int), key@),
        decreases entries@.len() - i,
    {
        let entry = &entries[i];
        let ghost rest = docs.subrange(i as int, docs.len() as int);
        assert(rest[0] == docs[i as int]);
        if text_equal(entry.key.as_str(), key) {
            return Some(&entry.value);
        }
        assert(rest.drop_first() =~= docs.subrange(i + 1, docs.len() as int));
        i = i + 1;
    }
    None
}

/// A map entry holding a string.
pub fn str_entry(key: &str, value: String) -> (entry: FlexEntry)
    ensures
        entry.key@ == key@,
        entry.value.doc() == FlexDoc::Str(value@),
{
    FlexEntry { key: key.to_string(), value: FlexValue::Str(value) }
}

/// A map entry holding an unsigned integer.
pub fn uint_entry(key: &str, value: u64) -> (entry: FlexEntry)
    ensures
        entry.key@ == key@,
        entry.value.doc() == FlexDoc::UInt(value as nat),
{
    FlexEntry { key: key.to_string(), value: FlexValue::UInt(value) }
}

/// A map entry holding a boolean.
pub fn bool_entry(key: &str, value: bool) -> (entry: FlexEntry)
    ensures
        entry.key@ == key@,
        entry.value.doc() == FlexDoc::Bool(value),
{
    FlexEntry { key: key.to_string(), value: FlexValue::Bool(value) }
}

/// A map entry holding any value.
pub fn value_entry(key: &str, value: FlexValue) -> (entry: FlexEntry)
    ensures
        entry.key@ == key@,
        entry.value == value,
{
    FlexEntry { key: key.to_string(), value }
}

} // verus!
