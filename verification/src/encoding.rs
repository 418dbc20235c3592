use vstd::prelude::*;

use flexbuffers::{Builder, BuilderOptions, MapBuilder, VectorBuilder};

use crate::flex::{entry_docs, lemma_entry_docs, lemma_value_docs, value_docs, FlexDoc, FlexValue, FlexEntry};

verus! {

/// The FlexBuffers builder that writes a document's bytes.
#[verifier::external_type_specification]
#[verifier::external_body]
pub struct ExBuilder(Builder);

/// A map being written by a FlexBuffers builder.
#[verifier::external_type_specification]
#[verifier::external_body]
pub struct ExMapBuilder<'a>(MapBuilder<'a>);

/// A vector being written by a FlexBuffers builder.
#[verifier::external_type_specification]
#[verifier::external_body]
pub struct ExVectorBuilder<'a>(VectorBuilder<'a>);

/// The bytes a builder holds: empty, or the last document it finished.
pub uninterp spec fn builder_buffer(builder: Builder) -> Seq<u8>;

/// The bytes `flexbuffers::Builder` (sharing neither keys nor strings)
/// writes for a document whose root is a map: each map's entries and each
/// vector's values pushed in order (strings as `&str`, numbers as `u64`,
/// booleans, typed vectors from 32-bit numbers, nulls as `()`), each nested
/// map or vector started in place and ended before the next push.
pub uninterp spec fn flex_bytes(doc: FlexDoc) -> Seq<u8>;

/// The entries pushed so far into a map being written, in the order pushed.
pub uninterp spec fn map_entries(map: MapBuilder<'_>) -> Seq<(Seq<char>, FlexDoc)>;

/// The entries a map being written holds when it ends.
pub uninterp spec fn map_result(map: MapBuilder<'_>) -> Seq<(Seq<char>, FlexDoc)>;

/// The values pushed so far into a vector being written, in order.
pub uninterp spec fn vector_values(vector: VectorBuilder<'_>) -> Seq<FlexDoc>;

/// The values a vector being written holds when it ends.
pub uninterp spec fn vector_result(vector: VectorBuilder<'_>) -> Seq<FlexDoc>;

/// Whether `key` may be pushed next into a map that holds `keys`: the
/// builder panics on a key pushed twice into one map, and (in debug
/// builds) on a key holding a NUL character.
pub open spec fn key_fits(keys: Seq<Seq<char>>, key: Seq<char>) -> bool {
    &&& !keys.contains(key)
    &&& !key.contains('\0')
}

/// A builder with `flexbuffers::Builder::new`, sharing neither keys nor
/// strings; it holds no bytes yet.
#[verifier::external_body]
fn builder_new() -> (builder: Builder)
    ensures
        builder_buffer(builder) == Seq::<u8>::empty(),
{
    Builder::new(BuilderOptions::SHARE_NONE)
}

/// Starts the root map with `flexbuffers::Builder::start_map`, which first
/// clears the builder. Once the map ends, the builder holds the document's
/// bytes: at least the root value, its type and its width.
#[verifier::external_body]
fn builder_start_map<'a>(builder: &'a mut Builder) -> (map: MapBuilder<'a>)
    ensures
        map_entries(map) == Seq::<(Seq<char>, FlexDoc)>::empty(),
        builder_buffer(*final(builder)) == flex_bytes(FlexDoc::Table(map_result(map))),
        builder_buffer(*final(builder)).len() >= 3,
{
    builder.start_map()
}

/// Takes the bytes the builder holds with `flexbuffers::Builder::take_buffer`,
/// leaving it empty.
#[verifier::external_body]
fn builder_take_buffer(builder: &mut Builder) -> (bytes: Vec<u8>)
    ensures
        bytes@ == builder_buffer(*old(builder)),
        builder_buffer(*final(builder)) == Seq::<u8>::empty(),
{
    builder.take_buffer()
}

/// Pushes a string under `key` with `flexbuffers::MapBuilder::push`.
#[verifier::external_body]
fn map_push_str(map: &mut MapBuilder<'_>, key: &str, value: &str)
    requires
        key_fits(doc_keys(map_entries(*old(map))), key@),
    ensures
        map_entries(*final(map)) == map_entries(*old(map)).push((key@, FlexDoc::Str(value@))),
        map_result(*final(map)) == map_result(*old(map)),
{
    map.push(key, value)
}

/// Pushes an unsigned integer under `key` with `flexbuffers::MapBuilder::push`.
#[verifier::external_body]
fn map_push_uint(map: &mut MapBuilder<'_>, key: &str, value: u64)
    requires
        key_fits(doc_keys(map_entries(*old(map))), key@),
    ensures
        map_entries(*final(map)) == map_entries(*old(map)).push((key@, FlexDoc::UInt(value as nat))),
        map_result(*final(map)) == map_result(*old(map)),
{
    map.push(key, value)
}

/// Pushes a boolean under `key` with `flexbuffers::MapBuilder::push`.
#[verifier::external_body]
fn map_push_bool(map: &mut MapBuilder<'_>, key: &str, value: bool)
    requires
        key_fits(doc_keys(map_entries(*old(map))), key@),
    ensures
        map_entries(*final(map)) == map_entries(*old(map)).push((key@, FlexDoc::Bool(value))),
        map_result(*final(map)) == map_result(*old(map)),
{
    map.push(key, value)
}

/// Pushes a typed vector of unsigned integers under `key` with `flexbuffers::MapBuilder::push`.
#[verifier::external_body]
fn map_push_uints(map: &mut MapBuilder<'_>, key: &str, value: &Vec<u32>)
    requires
        key_fits(doc_keys(map_entries(*old(map))), key@),
    ensures
        map_entries(*final(map)) == map_entries(*old(map)).push((key@, FlexDoc::UInts(value@))),
        map_result(*final(map)) == map_result(*old(map)),
{
    map.push(key, value)
}

/// Pushes a null under `key` with `flexbuffers::MapBuilder::push`.
#[verifier::external_body]
fn map_push_null(map: &mut MapBuilder<'_>, key: &str)
    requires
        key_fits(doc_keys(map_entries(*old(map))), key@),
    ensures
        map_entries(*final(map)) == map_entries(*old(map)).push((key@, FlexDoc::Null)),
        map_result(*final(map)) == map_result(*old(map)),
{
    map.push(key, ())
}

/// Starts a map nested under `key` with `flexbuffers::MapBuilder::start_map`.
/// The nested map holds no entries yet; once it ends, this map holds it
/// under `key`.
#[verifier::external_body]
fn map_start_map<'a>(map: &'a mut MapBuilder<'_>, key: &str) -> (nested: MapBuilder<'a>)
    requires
        key_fits(doc_keys(map_entries(*old(map))), key@),
    ensures
        map_entries(nested) == Seq::<(Seq<char>, FlexDoc)>::empty(),
        map_entries(*final(map)) == map_entries(*old(map)).push(
            (key@, FlexDoc::Table(map_result(nested))),
        ),
        map_result(*final(map)) == map_result(*old(map)),
{
    map.start_map(key)
}

/// Starts a vector nested under `key` with
/// `flexbuffers::MapBuilder::start_vector`. The nested vector holds no
/// values yet; once it ends, this map holds it under `key`.
#[verifier::external_body]
fn map_start_vector<'a>(map: &'a mut MapBuilder<'_>, key: &str) -> (nested: VectorBuilder<'a>)
    requires
        key_fits(doc_keys(map_entries(*old(map))), key@),
    ensures
        vector_values(nested) == Seq::<FlexDoc>::empty(),
        map_entries(*final(map)) == map_entries(*old(map)).push(
            (key@, FlexDoc::Vector(vector_result(nested))),
        ),
        map_result(*final(map)) == map_result(*old(map)),
{
    map.start_vector(key)
}

/// Ends the map in `map` with `flexbuffers::MapBuilder::end_map`, leaving
/// `None`: the map ends holding the entries pushed into it. Ending a map
/// that holds a key twice panics.
#[verifier::external_body]
fn map_end(map: &mut Option<MapBuilder<'_>>)
    requires
        *old(map) is Some,
        doc_keys(map_entries((*old(map))->0)).no_duplicates(),
    ensures
        *final(map) is None,
        map_result((*old(map))->0) == map_entries((*old(map))->0),
{
    if let Some(map) = map.take() {
        map.end_map();
    }
}

/// Pushes a string with `flexbuffers::VectorBuilder::push`.
#[verifier::external_body]
fn vector_push_str(vector: &mut VectorBuilder<'_>, value: &str)
    ensures
        vector_values(*final(vector)) == vector_values(*old(vector)).push(FlexDoc::Str(value@)),
        vector_result(*final(vector)) == vector_result(*old(vector)),
{
    vector.push(value)
}

/// Pushes an unsigned integer with `flexbuffers::VectorBuilder::push`.
#[verifier::external_body]
fn vector_push_uint(vector: &mut VectorBuilder<'_>, value: u64)
    ensures
        vector_values(*final(vector)) == vector_values(*old(vector)).push(FlexDoc::UInt(value as nat)),
        vector_result(*final(vector)) == vector_result(*old(vector)),
{
    vector.push(value)
}

/// Pushes a boolean with `flexbuffers::VectorBuilder::push`.
#[verifier::external_body]
fn vector_push_bool(vector: &mut VectorBuilder<'_>, value: bool)
    ensures
        vector_values(*final(vector)) == vector_values(*old(vector)).push(FlexDoc::Bool(value)),
        vector_result(*final(vector)) == vector_result(*old(vector)),
{
    vector.push(value)
}

/// Pushes a typed vector of unsigned integers with `flexbuffers::VectorBuilder::push`.
#[verifier::external_body]
fn vector_push_uints(vector: &mut VectorBuilder<'_>, value: &Vec<u32>)
    ensures
        vector_values(*final(vector)) == vector_values(*old(vector)).push(FlexDoc::UInts(value@)),
        vector_result(*final(vector)) == vector_result(*old(vector)),
{
    vector.push(value)
}

/// Pushes a null with `flexbuffers::VectorBuilder::push`.
#[verifier::external_body]
fn vector_push_null(vector: &mut VectorBuilder<'_>)
    ensures
        vector_values(*final(vector)) == vector_values(*old(vector)).push(FlexDoc::Null),
        vector_result(*final(vector)) == vector_result(*old(vector)),
{
    vector.push(())
}

/// Starts a nested map with `flexbuffers::VectorBuilder::start_map`. The
/// nested map holds no entries yet; once it ends, it is this vector's next
/// value.
#[verifier::external_body]
fn vector_start_map<'a>(vector: &'a mut VectorBuilder<'_>) -> (nested: MapBuilder<'a>)
    ensures
        map_entries(nested) == Seq::<(Seq<char>, FlexDoc)>::empty(),
        vector_values(*final(vector)) == vector_values(*old(vector)).push(
            FlexDoc::Table(map_result(nested)),
        ),
        vector_result(*final(vector)) == vector_result(*old(vector)),
{
    vector.start_map()
}

/// Starts a nested vector with `flexbuffers::VectorBuilder::start_vector`.
/// The nested vector holds no values yet; once it ends, it is this
/// vector's next value.
#[verifier::external_body]
fn vector_start_vector<'a>(vector: &'a mut VectorBuilder<'_>) -> (nested: VectorBuilder<'a>)
    ensures
        vector_values(nested) == Seq::<FlexDoc>::empty(),
        vector_values(*final(vector)) == vector_values(*old(vector)).push(
            FlexDoc::Vector(vector_result(nested)),
        ),
        vector_result(*final(vector)) == vector_result(*old(vector)),
{
    vector.start_vector()
}

/// Ends the vector in `vector` with `flexbuffers::VectorBuilder::end_vector`,
/// leaving `None`: the vector ends holding the values pushed into it.
#[verifier::external_body]
fn vector_end(vector: &mut Option<VectorBuilder<'_>>)
    requires
        *old(vector) is Some,
    ensures
        *final(vector) is None,
        vector_result((*old(vector))->0) == vector_values((*old(vector))->0),
{
    if let Some(vector) = vector.take() {
        vector.end_vector();
    }
}

/// The keys of a map's entries, in order.
pub open spec fn doc_keys(entries: Seq<(Seq<char>, FlexDoc)>) -> Seq<Seq<char>> {
    entries.map_values(|e: (Seq<char>, FlexDoc)| e.0)
}

/// Whether the builder can write a document without panicking: in every
/// map no key occurs twice and no key holds a NUL character.
pub open spec fn writable(doc: FlexDoc) -> bool
    decreases doc,
{
    match doc {
        FlexDoc::Table(entries) => {
            &&& doc_keys(entries).no_duplicates()
            &&& forall|i: int| 0 <= i < entries.len() ==> !(#[trigger] entries[i]).0.contains('\0')
            &&& forall|i: int| 0 <= i < entries.len() ==> writable(#[trigger] entries[i].1)
        },
        FlexDoc::Vector(values) => forall|i: int| 0 <= i < values.len() ==> writable(#[trigger] values[i]),
        _ => true,
    }
}

/// The keys of two runs of entries, one after the other.
proof fn lemma_doc_keys_append(a: Seq<(Seq<char>, FlexDoc)>, b: Seq<(Seq<char>, FlexDoc)>)
    ensures
        doc_keys(a + b) == doc_keys(a) + doc_keys(b),
{
    assert(doc_keys(a + b) =~= doc_keys(a) + doc_keys(b));
}

/// Writes a map's entries in order, each under its key.
fn write_entries(map: &mut MapBuilder<'_>, entries: &Vec<FlexEntry>)
    requires
        writable(FlexDoc::Table(entry_docs(entries@))),
        forall|k: Seq<char>|
            doc_keys(entry_docs(entries@)).contains(k) ==> !doc_keys(map_entries(*old(map))).contains(k),
    ensures
        map_entries(*final(map)) == map_entries(*old(map)) + entry_docs(entries@),
        map_result(*final(map)) == map_result(*old(map)),
    decreases entries,
{
    let ghost docs = entry_docs(entries@);
    let ghost keys = doc_keys(docs);
    let ghost start = map_entries(*map);
    let ghost start_keys = doc_keys(start);
    proof {
        lemma_entry_docs(entries@);
        assert(start + docs.take(0) =~= start);
    }
    let mut i: usize = 0;
    while i < entries.len()
        invariant
            docs == entry_docs(entries@),
            keys == doc_keys(docs),
            start == map_entries(*old(map)),
            start_keys == doc_keys(start),
            docs.len() == entries@.len(),
            forall|j: int|
                0 <= j < entries@.len() ==> #[trigger] docs[j] == (
                    entries@[j].key@,
                    entries@[j].value.doc(),
                ),
            writable(FlexDoc::Table(docs)),
            forall|k: Seq<char>| keys.contains(k) ==> !start_keys.contains(k),
            i <= entries@.len(),
            map_entries(*map) == start + docs.take(i as int),
            map_result(*map) == map_result(*old(map)),
        decreases entries@.len() - i,
    {
        let entry = &entries[i];
        let key = entry.key.as_str();
        proof {
            assert(keys[i as int] == key@);
            assert(keys.contains(key@));
            assert(!(docs[i as int]).0.contains('\0'));
            lemma_doc_keys_append(start, docs.take(i as int));
            assert(doc_keys(docs.take(i as int)) =~= keys.take(i as int));
            assert forall|j: int| 0 <= j < i implies keys[j] != key@ by {
                assert(keys.no_duplicates());
            }
            assert(!(start_keys + keys.take(i as int)).contains(key@)) by {
                if (start_keys + keys.take(i as int)).contains(key@) {
                    let n = choose|n: int| 0 <= n < (start_keys + keys.take(i as int)).len()
                        && (start_keys + keys.take(i as int))[n] == key@;
                    if n >= start_keys.len() {
                        assert(keys[n - start_keys.len()] == key@);
                    } else {
                        assert(start_keys[n] == key@);
                    }
                }
            }
            assert(writable(docs[i as int].1));
        }
        match &entry.value {
            FlexValue::Null => map_push_null(map, key),
            FlexValue::Str(text) => map_push_str(map, key, text.as_str()),
            FlexValue::UInt(n) => map_push_uint(map, key, *n),
            FlexValue::Bool(b) => map_push_bool(map, key, *b),
            FlexValue::UInts(v) => map_push_uints(map, key, v),
            FlexValue::Table(inner) => {
                let mut nested = map_start_map(map, key);
                proof {
                    assert(Seq::<(Seq<char>, FlexDoc)>::empty() + entry_docs(inner@) =~= entry_docs(inner@));
                    assert(doc_keys(Seq::<(Seq<char>, FlexDoc)>::empty()) =~= Seq::<Seq<char>>::empty());
                }
                write_entries(&mut nested, inner);
                let mut slot = Some(nested);
                map_end(&mut slot);
            },
            FlexValue::Vector(values) => {
                let mut nested = map_start_vector(map, key);
                proof {
                    assert(Seq::<FlexDoc>::empty() + value_docs(values@) =~= value_docs(values@));
                }
                write_values(&mut nested, values);
                let mut slot = Some(nested);
                vector_end(&mut slot);
            },
        }
        proof {
            assert(docs.take(i + 1) =~= docs.take(i as int).push(docs[i as int]));
            assert(start + docs.take(i + 1) =~= (start + docs.take(i as int)).push(docs[i as int]));
        }
        i = i + 1;
    }
    assert(docs.take(entries@.len() as int) =~= docs);
}

/// Writes a vector's values in order.
fn write_values(vector: &mut VectorBuilder<'_>, values: &Vec<FlexValue>)
    requires
        writable(FlexDoc::Vector(value_docs(values@))),
    ensures
        vector_values(*final(vector)) == vector_values(*old(vector)) + value_docs(values@),
        vector_result(*final(vector)) == vector_result(*old(vector)),
    decreases values,
{
    let ghost docs = value_docs(values@);
    let ghost start = vector_values(*vector);
    proof {
        lemma_value_docs(values@);
        assert(start + docs.take(0) =~= start);
    }
    let mut i: usize = 0;
    while i < values.len()
        invariant
            docs == value_docs(values@),
            start == vector_values(*old(vector)),
            docs.len() == values@.len(),
            forall|j: int| 0 <= j < values@.len() ==> #[trigger] docs[j] == values@[j].doc(),
            writable(FlexDoc::Vector(docs)),
            i <= values@.len(),
            vector_values(*vector) == start + docs.take(i as int),
            vector_result(*vector) == vector_result(*old(vector)),
        decreases values@.len() - i,
    {
        let value = &values[i];
        proof {
            let d = FlexDoc::Vector(docs);
            assert(d->Vector_0[i as int] == docs[i as int]);
            assert(writable(d));
            assert(writable(docs[i as int]));
        }
        match value {
            FlexValue::Null => vector_push_null(vector),
            FlexValue::Str(text) => vector_push_str(vector, text.as_str()),
            FlexValue::UInt(n) => vector_push_uint(vector, *n),
            FlexValue::Bool(b) => vector_push_bool(vector, *b),
            FlexValue::UInts(v) => vector_push_uints(vector, v),
            FlexValue::Table(inner) => {
                let mut nested = vector_start_map(vector);
                proof {
                    assert(Seq::<(Seq<char>, FlexDoc)>::empty() + entry_docs(inner@) =~= entry_docs(inner@));
                    assert(doc_keys(Seq::<(Seq<char>, FlexDoc)>::empty()) =~= Seq::<Seq<char>>::empty());
                }
                write_entries(&mut nested, inner);
                let mut slot = Some(nested);
                map_end(&mut slot);
            },
            FlexValue::Vector(inner) => {
                let mut nested = vector_start_vector(vector);
                proof {
                    assert(Seq::<FlexDoc>::empty() + value_docs(inner@) =~= value_docs(inner@));
                }
                write_values(&mut nested, inner);
                let mut slot = Some(nested);
                vector_end(&mut slot);
            },
        }
        proof {
            assert(docs.take(i + 1) =~= docs.take(i as int).push(docs[i as int]));
            assert(start + docs.take(i + 1) =~= (start + docs.take(i as int)).push(docs[i as int]));
        }
        i = i + 1;
    }
    assert(docs.take(values@.len() as int) =~= docs);
}

/// The FlexBuffers bytes of a document whose root is a map, written with
/// `flexbuffers::Builder` as the library writes its messages: each map's
/// entries in order, nested maps and vectors written in place. A document
/// of another kind writes no root, and the builder then hands back no
/// bytes.
pub fn encode(doc: &FlexValue) -> (bytes: Vec<u8>)
    requires
        writable(doc.doc()),
    ensures
        doc.doc() is Table ==> bytes@ == flex_bytes(doc.doc()) && bytes@.len() >= 3,
        !(doc.doc() is Table) ==> bytes@ == Seq::<u8>::empty(),
{
    let mut builder = builder_new();
    match doc {
        FlexValue::Table(entries) => {
            let mut map = builder_start_map(&mut builder);
            proof {
                assert(Seq::<(Seq<char>, FlexDoc)>::empty() + entry_docs(entries@) =~= entry_docs(entries@));
                assert(doc_keys(Seq::<(Seq<char>, FlexDoc)>::empty()) =~= Seq::<Seq<char>>::empty());
            }
            write_entries(&mut map, entries);
            let mut slot = Some(map);
            map_end(&mut slot);
        },
        _ => {},
    }
    builder_take_buffer(&mut builder)
}

} // verus!
