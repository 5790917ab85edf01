//! Structured payloads: the values a vector store keeps beside each vector,
//! and the metadata of a chunk as it is written to and read from them.

use vstd::prelude::*;

verus! {

/// A structured value, as a vector store keeps it in a point's payload.
#[derive(Debug)]
pub enum Value {
    Null,
    Bool(bool),
    Integer(i64),
    /// A floating-point number, held as the bits of its IEEE 754 double.
    Double(u64),
    Text(String),
    List(Vec<Value>),
    /// Named fields. Where a name occurs twice, the first occurrence counts.
    Object(Vec<(String, Value)>),
}

/// The mathematical content of a [`Value`].
pub enum ValueView {
    Null,
    Bool(bool),
    Integer(int),
    Double(u64),
    Text(Seq<char>),
    List(Seq<ValueView>),
    Object(Seq<(Seq<char>, ValueView)>),
}

/// The content of `value`.
pub open spec fn content(value: Value) -> ValueView
    decreases value,
{
    match value {
        Value::Null => ValueView::Null,
        Value::Bool(b) => ValueView::Bool(b),
        Value::Integer(i) => ValueView::Integer(i as int),
        Value::Double(bits) => ValueView::Double(bits),
        Value::Text(s) => ValueView::Text(s@),
        Value::List(items) => ValueView::List(
            Seq::new(
                items@.len(),
                |i: int|
                    if 0 <= i < items@.len() {
                        content(items@[i])
                    } else {
                        ValueView::Null
                    },
            ),
        ),
        Value::Object(fields) => ValueView::Object(
            Seq::new(
                fields@.len(),
                |i: int|
                    if 0 <= i < fields@.len() {
                        (fields@[i].0@, content(fields@[i].1))
                    } else {
                        (Seq::empty(), ValueView::Null)
                    },
            ),
        ),
    }
}

impl View for Value {
    type V = ValueView;

    open spec fn view(&self) -> ValueView {
        content(*self)
    }
}

/// The content of a list of values.
pub open spec fn items_view(items: Seq<Value>) -> Seq<ValueView> {
    Seq::new(items.len(), |i: int| items[i]@)
}

/// The content of a list of named values.
pub open spec fn fields_view(fields: Seq<(String, Value)>) -> Seq<(Seq<char>, ValueView)> {
    Seq::new(fields.len(), |i: int| (fields[i].0@, fields[i].1@))
}

/// The content of a list value is the content of its items.
pub proof fn lemma_list_view(items: Vec<Value>)
    ensures
        Value::List(items)@ == ValueView::List(items_view(items@)),
{
    assert(Value::List(items)@->List_0 =~= items_view(items@));
}

/// The content of an object value is the content of its fields.
pub proof fn lemma_object_view(fields: Vec<(String, Value)>)
    ensures
        Value::Object(fields)@ == ValueView::Object(fields_view(fields@)),
{
    assert(Value::Object(fields)@->Object_0 =~= fields_view(fields@));
}

/// The value of the first field called `name`.
pub open spec fn field(fields: Seq<(Seq<char>, ValueView)>, name: Seq<char>) -> Option<ValueView>
    decreases fields.len(),
{
    if fields.len() == 0 {
        None
    } else if fields[0].0 == name {
        Some(fields[0].1)
    } else {
        field(fields.drop_first(), name)
    }
}

/// The first field called `name`.
pub fn lookup<'a>(fields: &'a Vec<(String, Value)>, name: &str) -> (found: Option<&'a Value>)
    ensures
        match found {
            Some(value) => field(fields_view(fields@), name@) == Some(value@),
            None => field(fields_view(fields@), name@) is None,
        },
{
    let key = String::from_str(name);
    let ghost all = fields_view(fields@);
    let mut i: usize = 0;
    assert(all.skip(0) =~= all);
    while i < fields.len()
        invariant
            i <= fields.len(),
            all == fields_view(fields@),
            key@ == name@,
            field(all, name@) == field(all.skip(i as int), name@),
        decreases fields.len() - i,
    {
        proof {
            let rest = all.skip(i as int);
            assert(rest[0] == all[i as int]);
            assert(rest.drop_first() =~= all.skip(i + 1));
        }
        if fields[i].0 == key {
            return Some(&fields[i].1);
        }
        i = i + 1;
    }
    None
}

/// A point's payload: named values.
#[derive(Debug)]
pub struct Payload {
    /// The fields. Where a name occurs twice, the first occurrence counts.
    pub fields: Vec<(String, Value)>,
}

impl View for Payload {
    type V = Seq<(Seq<char>, ValueView)>;

    open spec fn view(&self) -> Seq<(Seq<char>, ValueView)> {
        fields_view(self.fields@)
    }
}

/// Where a chunk lies in its document, and where the document came from.
#[derive(Clone, Debug)]
pub struct DocumentMetadata {
    /// The whole document the chunk was cut from.
    pub original_text: String,
    /// The position of the chunk among the chunks of its document.
    pub chunk_index: usize,
    /// The number of chunks of the document.
    pub total_chunks: usize,
    /// When the chunk was made, in seconds since the Unix epoch.
    pub timestamp: i64,
    /// The logical origin of the document.
    pub source: String,
}

/// The mathematical content of a [`DocumentMetadata`].
pub struct MetadataView {
    pub original_text: Seq<char>,
    pub chunk_index: nat,
    pub total_chunks: nat,
    pub timestamp: int,
    pub source: Seq<char>,
}

impl View for DocumentMetadata {
    type V = MetadataView;

    open spec fn view(&self) -> MetadataView {
        MetadataView {
            original_text: self.original_text@,
            chunk_index: self.chunk_index as nat,
            total_chunks: self.total_chunks as nat,
            timestamp: self.timestamp as int,
            source: self.source@,
        }
    }
}

/// The text of a value, where it is one.
pub open spec fn as_text(value: Option<ValueView>) -> Option<Seq<char>> {
    match value {
        Some(ValueView::Text(s)) => Some(s),
        _ => None,
    }
}

/// The whole number of a value, where it is one.
pub open spec fn as_integer(value: Option<ValueView>) -> Option<int> {
    match value {
        Some(ValueView::Integer(i)) => Some(i),
        _ => None,
    }
}

/// The count held by a value: a whole number that is not negative and that a
/// `usize` can hold.
pub open spec fn as_count(value: Option<ValueView>) -> Option<nat> {
    match value {
        Some(ValueView::Integer(i)) => if 0 <= i <= usize::MAX {
            Some(i as nat)
        } else {
            None
        },
        _ => None,
    }
}

/// The metadata made of five decoded fields, where all five are there.
pub open spec fn assemble(
    original_text: Option<Seq<char>>,
    chunk_index: Option<nat>,
    total_chunks: Option<nat>,
    timestamp: Option<int>,
    source: Option<Seq<char>>,
) -> Option<MetadataView> {
    if original_text is Some && chunk_index is Some && total_chunks is Some && timestamp is Some
        && source is Some {
        Some(
            MetadataView {
                original_text: original_text->0,
                chunk_index: chunk_index->0,
                total_chunks: total_chunks->0,
                timestamp: timestamp->0,
                source: source->0,
            },
        )
    } else {
        None
    }
}

/// The value at `index`, where the list is that long.
pub open spec fn item(items: Seq<ValueView>, index: int) -> Option<ValueView> {
    if 0 <= index < items.len() {
        Some(items[index])
    } else {
        None
    }
}

/// The chunk metadata that a stored value holds, if it holds any.
///
/// Metadata is stored as an object with the fields `original_text` (text),
/// `chunk_index` and `total_chunks` (counts), `timestamp` (a whole number) and
/// `source` (text); other fields are ignored. A list of exactly those five
/// values in that order is read too. Anything else holds no metadata.
pub open spec fn metadata_of(value: ValueView) -> Option<MetadataView> {
    match value {
        ValueView::Object(fields) => assemble(
            as_text(field(fields, "original_text"@)),
            as_count(field(fields, "chunk_index"@)),
            as_count(field(fields, "total_chunks"@)),
            as_integer(field(fields, "timestamp"@)),
            as_text(field(fields, "source"@)),
        ),
        ValueView::List(items) => if items.len() == 5 {
            assemble(
                as_text(item(items, 0)),
                as_count(item(items, 1)),
                as_count(item(items, 2)),
                as_integer(item(items, 3)),
                as_text(item(items, 4)),
            )
        } else {
            None
        },
        _ => None,
    }
}

/// `n`, or the largest `i64` where `n` is above it.
pub open spec fn capped(n: nat) -> int {
    if n <= i64::MAX {
        n as int
    } else {
        i64::MAX as int
    }
}

/// The value under which metadata is stored: an object of its five fields.
/// A count above the largest `i64` is stored as that largest number.
pub open spec fn metadata_value(metadata: MetadataView) -> ValueView {
    ValueView::Object(
        seq![
            ("original_text"@, ValueView::Text(metadata.original_text)),
            ("chunk_index"@, ValueView::Integer(capped(metadata.chunk_index))),
            ("total_chunks"@, ValueView::Integer(capped(metadata.total_chunks))),
            ("timestamp"@, ValueView::Integer(metadata.timestamp)),
            ("source"@, ValueView::Text(metadata.source)),
        ],
    )
}

/// The payload of a stored chunk: its text under `doc` and its metadata under
/// `metadata`.
pub open spec fn chunk_payload(text: Seq<char>, metadata: MetadataView) -> Seq<
    (Seq<char>, ValueView),
> {
    seq![("doc"@, ValueView::Text(text)), ("metadata"@, metadata_value(metadata))]
}

/// The text of a value, where it is one.
pub fn text_of(value: Option<&Value>) -> (text: Option<String>)
    ensures
        match text {
            Some(s) => as_text(option_view(value)) == Some(s@),
            None => as_text(option_view(value)) is None,
        },
{
    match value {
        Some(Value::Text(s)) => Some(s.clone()),
        _ => None,
    }
}

/// The whole number of a value, where it is one.
pub fn integer_of(value: Option<&Value>) -> (number: Option<i64>)
    ensures
        match number {
            Some(i) => as_integer(option_view(value)) == Some(i as int),
            None => as_integer(option_view(value)) is None,
        },
{
    match value {
        Some(Value::Integer(i)) => Some(*i),
        _ => None,
    }
}

/// The count held by a value, where it holds one.
pub fn count_of(value: Option<&Value>) -> (count: Option<usize>)
    ensures
        match count {
            Some(n) => as_count(option_view(value)) == Some(n as nat),
            None => as_count(option_view(value)) is None,
        },
{
    match value {
        Some(Value::Integer(i)) => {
            if *i >= 0 && *i as u64 <= usize::MAX as u64 {
                Some(*i as usize)
            } else {
                None
            }
        },
        _ => None,
    }
}

/// The content of a value that may be absent.
pub open spec fn option_view(value: Option<&Value>) -> Option<ValueView> {
    match value {
        Some(v) => Some(v@),
        None => None,
    }
}

/// The value at `index`, where the list is that long.
pub fn item_at(items: &Vec<Value>, index: usize) -> (found: Option<&Value>)
    ensures
        option_view(found) == item(items_view(items@), index as int),
{
    if index < items.len() {
        Some(&items[index])
    } else {
        None
    }
}

/// The metadata made of five decoded fields, where all five are there.
pub fn assembled(
    original_text: Option<String>,
    chunk_index: Option<usize>,
    total_chunks: Option<usize>,
    timestamp: Option<i64>,
    source: Option<String>,
) -> (metadata: Option<DocumentMetadata>)
    ensures
        metadata is Some <==> original_text is Some && chunk_index is Some && total_chunks is Some
            && timestamp is Some && source is Some,
        metadata matches Some(m) ==> m.original_text == original_text->0 && m.chunk_index
            == chunk_index->0 && m.total_chunks == total_chunks->0 && m.timestamp == timestamp->0
            && m.source == source->0,
{
    match (original_text, chunk_index, total_chunks, timestamp, source) {
        (Some(original_text), Some(chunk_index), Some(total_chunks), Some(timestamp), Some(source)) => {
            Some(DocumentMetadata { original_text, chunk_index, total_chunks, timestamp, source })
        },
        _ => None,
    }
}

impl DocumentMetadata {
    /// Whether the position lies within the count: the rule that every chunk
    /// written by this library keeps.
    pub open spec fn in_range(metadata: MetadataView) -> bool {
        metadata.chunk_index < metadata.total_chunks
    }

    /// Reads chunk metadata from a stored value. `None` where the value does
    /// not have the shape of stored metadata.
    pub fn decode(value: &Value) -> (metadata: Option<DocumentMetadata>)
        ensures
            match metadata {
                Some(m) => metadata_of(value@) == Some(m@),
                None => metadata_of(value@) is None,
            },
    {
        match value {
            Value::Object(fields) => {
                proof {
                    lemma_object_view(*fields);
                }
                let original_text = text_of(lookup(fields, "original_text"));
                let chunk_index = count_of(lookup(fields, "chunk_index"));
                let total_chunks = count_of(lookup(fields, "total_chunks"));
                let timestamp = integer_of(lookup(fields, "timestamp"));
                let source = text_of(lookup(fields, "source"));
                assembled(original_text, chunk_index, total_chunks, timestamp, source)
            },
            Value::List(items) => {
                proof {
                    lemma_list_view(*items);
                }
                if items.len() == 5 {
                    let original_text = text_of(item_at(items, 0));
                    let chunk_index = count_of(item_at(items, 1));
                    let total_chunks = count_of(item_at(items, 2));
                    let timestamp = integer_of(item_at(items, 3));
                    let source = text_of(item_at(items, 4));
                    assembled(original_text, chunk_index, total_chunks, timestamp, source)
                } else {
                    None
                }
            },
            _ => None,
        }
    }

    /// The value under which this metadata is stored.
    pub fn to_value(&self) -> (value: Value)
        ensures
            value@ == metadata_value(self@),
    {
        let mut fields: Vec<(String, Value)> = Vec::new();
        fields.push((String::from_str("original_text"), Value::Text(self.original_text.clone())));
        fields.push((String::from_str("chunk_index"), Value::Integer(cap(self.chunk_index))));
        fields.push((String::from_str("total_chunks"), Value::Integer(cap(self.total_chunks))));
        fields.push((String::from_str("timestamp"), Value::Integer(self.timestamp)));
        fields.push((String::from_str("source"), Value::Text(self.source.clone())));
        proof {
            lemma_object_view(fields);
            assert(fields_view(fields@) =~= metadata_value(self@)->Object_0);
        }
        Value::Object(fields)
    }
}

/// `n`, or the largest `i64` where `n` is above it.
pub fn cap(n: usize) -> (i: i64)
    ensures
        i == capped(n as nat),
{
    if n as u64 <= i64::MAX as u64 {
        n as i64
    } else {
        i64::MAX
    }
}

impl Payload {
    /// The payload of a stored chunk.
    pub fn for_chunk(text: &str, metadata: &DocumentMetadata) -> (payload: Payload)
        ensures
            payload@ == chunk_payload(text@, metadata@),
    {
        let mut fields: Vec<(String, Value)> = Vec::new();
        fields.push((String::from_str("doc"), Value::Text(String::from_str(text))));
        fields.push((String::from_str("metadata"), metadata.to_value()));
        assert(fields_view(fields@) =~= chunk_payload(text@, metadata@));
        Payload { fields }
    }

    /// The value of the first field called `name`.
    pub fn get(&self, name: &str) -> (found: Option<&Value>)
        ensures
            option_view(found) == field(self@, name@),
    {
        lookup(&self.fields, name)
    }
}

/// Stored metadata is read back as it was written, where both counts are
/// within what an `i64` and a `usize` can hold.
pub proof fn lemma_metadata_round_trip(metadata: MetadataView)
    requires
        metadata.chunk_index <= i64::MAX,
        metadata.chunk_index <= usize::MAX,
        metadata.total_chunks <= i64::MAX,
        metadata.total_chunks <= usize::MAX,
    ensures
        metadata_of(metadata_value(metadata)) == Some(metadata),
{
    reveal_strlit("original_text");
    reveal_strlit("chunk_index");
    reveal_strlit("total_chunks");
    reveal_strlit("timestamp");
    reveal_strlit("source");
    let fields = metadata_value(metadata)->Object_0;
    reveal_with_fuel(field, 6);
    assert("chunk_index"@[0] != "original_text"@[0]);
    assert("total_chunks"@[0] != "original_text"@[0]);
    assert("total_chunks"@[0] != "chunk_index"@[0]);
    assert("timestamp"@[1] != "original_text"@[1]);
    assert("timestamp"@[0] != "chunk_index"@[0]);
    assert("timestamp"@[1] != "total_chunks"@[1]);
    assert("source"@[0] != "original_text"@[0]);
    assert("source"@[0] != "chunk_index"@[0]);
    assert("source"@[0] != "total_chunks"@[0]);
    assert("source"@[0] != "timestamp"@[0]);
    let f1 = fields.drop_first();
    let f2 = f1.drop_first();
    let f3 = f2.drop_first();
    let f4 = f3.drop_first();
    assert(f1[0] == fields[1]);
    assert(f2[0] == fields[2]);
    assert(f3[0] == fields[3]);
    assert(f4[0] == fields[4]);
}

/// The text and the metadata of a stored chunk are found again in its payload.
pub proof fn lemma_chunk_payload_fields(text: Seq<char>, metadata: MetadataView)
    ensures
        field(chunk_payload(text, metadata), "doc"@) == Some(ValueView::Text(text)),
        field(chunk_payload(text, metadata), "metadata"@) == Some(metadata_value(metadata)),
{
    reveal_strlit("doc");
    reveal_strlit("metadata");
    reveal_with_fuel(field, 3);
    let fields = chunk_payload(text, metadata);
    assert("doc"@[0] != "metadata"@[0]);
    assert(fields.drop_first()[0] == fields[1]);
}

} // verus!
