//! The self-describing codec: a payload is an Arrow IPC stream of a schema
//! message, one record batch message and an end-of-stream marker.
//!
//! Writing and reading the messages is arrow's work. This module walks the
//! framing of a received payload and holds every declared length against
//! the bytes that are there before arrow is asked to read a value.

use crate::batch::{BatchView, Field, FieldView, RandomData, Schema};
use crate::trusted::{
    ipc_batch_message, ipc_first_batch, ipc_schema_message, ipc_stream, read_batch_message,
    read_first_batch, read_schema_message, write_stream,
};
use vstd::prelude::*;
use vstd::slice::slice_subrange;

verus! {

/// Why a payload is not a stream of this codec.
#[derive(Clone, Copy, Debug, PartialEq, Eq, Structural)]
pub enum FormatError {
    /// A message does not begin with the continuation marker, or the
    /// payload ends inside the marker and the length that follows it.
    Marker,
    /// A declared length is negative or exceeds the input that remains.
    Length,
    /// There is no schema message, it cannot be parsed, or it describes a
    /// field that is not of unsigned 64-bit values.
    Schema,
    /// There is no record batch message, it cannot be read, or what it
    /// holds does not make a batch of the schema.
    Batch,
}

/// The batch could not be written as a stream.
#[derive(Clone, Copy, Debug, PartialEq, Eq, Structural)]
pub struct WriteError;

/// Where the metadata of one message lies in a payload: the bytes
/// `start .. end`.
#[derive(Clone, Copy, Debug, PartialEq, Eq, Structural)]
pub struct Frame {
    pub start: usize,
    pub end: usize,
}

/// What the metadata of a schema message declares.
#[derive(Debug)]
pub struct SchemaMessage {
    /// Length of the message body that follows the metadata.
    pub body_length: i64,
    /// The fields in schema order; `None` for a field of another type than
    /// the unsigned 64-bit integer.
    pub fields: Vec<Option<Field>>,
}

pub struct SchemaMessageView {
    pub body_length: i64,
    pub fields: Seq<Option<FieldView>>,
}

impl View for SchemaMessage {
    type V = SchemaMessageView;

    open spec fn view(&self) -> SchemaMessageView {
        SchemaMessageView { body_length: self.body_length, fields: fields_read(self.fields@) }
    }
}

/// What the fields read from a schema message stand for in contracts.
pub open spec fn fields_read(fields: Seq<Option<Field>>) -> Seq<Option<FieldView>> {
    Seq::new(
        fields.len(),
        |i: int|
            match fields[i] {
                Some(f) => Some(f@),
                None => None,
            },
    )
}

/// What the metadata of a record batch message declares.
#[derive(Debug)]
pub struct BatchMessage {
    /// Length of the message body that follows the metadata.
    pub body_length: i64,
    /// Length and null count of each field node, in order.
    pub nodes: Vec<(i64, i64)>,
    /// Offset and length of each buffer within the body, in order.
    pub buffers: Vec<(i64, i64)>,
}

pub struct BatchMessageView {
    pub body_length: i64,
    pub nodes: Seq<(i64, i64)>,
    pub buffers: Seq<(i64, i64)>,
}

impl View for BatchMessage {
    type V = BatchMessageView;

    open spec fn view(&self) -> BatchMessageView {
        BatchMessageView {
            body_length: self.body_length,
            nodes: self.nodes@,
            buffers: self.buffers@,
        }
    }
}

/// One column as it was read from a record batch.
#[derive(Debug)]
pub struct ReadColumn {
    pub values: Vec<u64>,
    pub null_count: usize,
}

pub struct ColumnView {
    pub values: Seq<u64>,
    pub null_count: usize,
}

impl View for ReadColumn {
    type V = ColumnView;

    open spec fn view(&self) -> ColumnView {
        ColumnView { values: self.values@, null_count: self.null_count }
    }
}

impl ReadColumn {
    pub fn new(values: Vec<u64>, null_count: usize) -> (column: ReadColumn)
        ensures
            column.values == values,
            column.null_count == null_count,
    {
        ReadColumn { values, null_count }
    }
}

/// What the columns read from a record batch stand for in contracts.
pub open spec fn columns_read(columns: Seq<Option<ReadColumn>>) -> Seq<Option<ColumnView>> {
    Seq::new(
        columns.len(),
        |i: int|
            match columns[i] {
                Some(c) => Some(c@),
                None => None,
            },
    )
}

/// The length that the message at `at` declares for its metadata: the
/// unsigned little-endian number in the four bytes after the marker.
pub open spec fn declared_length(payload: Seq<u8>, at: int) -> int {
    payload[at + 4] + payload[at + 5] * 0x100 + payload[at + 6] * 0x1_0000 + payload[at + 7]
        * 0x100_0000
}

/// Whether the four bytes at `at` are the continuation marker.
pub open spec fn marker_at(payload: Seq<u8>, at: int) -> bool {
    &&& payload[at] == 0xff
    &&& payload[at + 1] == 0xff
    &&& payload[at + 2] == 0xff
    &&& payload[at + 3] == 0xff
}

/// The frame of the message that begins at `at`.
///
/// `Ok(None)` is the end of the stream: nothing is left of the payload, or
/// the declared length is 0. A declared length of `0x8000_0000` or more is
/// the image of a negative number.
pub open spec fn frame(payload: Seq<u8>, at: int) -> Result<Option<Frame>, FormatError> {
    if at == payload.len() {
        Ok(None)
    } else if at + 8 > payload.len() || !marker_at(payload, at) {
        Err(FormatError::Marker)
    } else if declared_length(payload, at) == 0 {
        Ok(None)
    } else if declared_length(payload, at) >= 0x8000_0000 || at + 8 + declared_length(payload, at)
        > payload.len() {
        Err(FormatError::Length)
    } else {
        Ok(
            Some(
                Frame {
                    start: (at + 8) as usize,
                    end: (at + 8 + declared_length(payload, at)) as usize,
                },
            ),
        )
    }
}

/// Where a message body of the declared length ends when it begins at
/// `end`, or a length error where the length is negative or the body does
/// not lie inside a payload of `len` bytes.
pub open spec fn body_end(end: int, body_length: int, len: int) -> Result<int, FormatError> {
    if 0 <= body_length && end + body_length <= len {
        Ok(end + body_length)
    } else {
        Err(FormatError::Length)
    }
}

/// Every declared buffer lies inside a body of the declared length.
pub open spec fn buffers_fit(buffers: Seq<(i64, i64)>, body_length: int) -> bool {
    forall|i: int|
        0 <= i < buffers.len() ==> {
            &&& 0 <= (#[trigger] buffers[i]).0
            &&& 0 <= buffers[i].1
            &&& buffers[i].0 + buffers[i].1 <= body_length
        }
}

/// What the declared field nodes allow: a length error where some node
/// declares a negative length; else a batch error where some node declares
/// a null count other than 0, since a batch holds no nulls.
pub open spec fn nodes_checked(nodes: Seq<(i64, i64)>) -> Result<(), FormatError> {
    if exists|i: int| 0 <= i < nodes.len() && (#[trigger] nodes[i]).0 < 0 {
        Err(FormatError::Length)
    } else if exists|i: int| 0 <= i < nodes.len() && (#[trigger] nodes[i]).1 != 0 {
        Err(FormatError::Batch)
    } else {
        Ok(())
    }
}

/// The fields of a schema all of whose fields are of unsigned 64-bit values.
pub open spec fn unsigned_schema(fields: Seq<Option<FieldView>>) -> Option<Seq<FieldView>> {
    if forall|i: int| 0 <= i < fields.len() ==> (#[trigger] fields[i]) is Some {
        Some(Seq::new(fields.len(), |i: int| fields[i]->Some_0))
    } else {
        None
    }
}

/// The schema that the first message of a payload describes, and the
/// offset at which the next message begins.
pub open spec fn checked_schema(payload: Seq<u8>) -> Result<(Seq<FieldView>, int), FormatError> {
    match frame(payload, 0) {
        Err(e) => Err(e),
        Ok(None) => Err(FormatError::Schema),
        Ok(Some(first)) => match ipc_schema_message(
            payload.subrange(first.start as int, first.end as int),
        ) {
            None => Err(FormatError::Schema),
            Some(message) => match unsigned_schema(message.fields) {
                None => Err(FormatError::Schema),
                Some(fields) => match body_end(
                    first.end as int,
                    message.body_length as int,
                    payload.len() as int,
                ) {
                    Err(e) => Err(e),
                    Ok(next) => Ok((fields, next)),
                },
            },
        },
    }
}

/// Whether the message that begins at `at` is a record batch message whose
/// declared body lies inside the payload, whose declared buffers lie inside
/// that body, and whose field nodes declare no negative length and no null.
pub open spec fn checked_batch(payload: Seq<u8>, at: int) -> Result<(), FormatError> {
    match frame(payload, at) {
        Err(e) => Err(e),
        Ok(None) => Err(FormatError::Batch),
        Ok(Some(second)) => match ipc_batch_message(
            payload.subrange(second.start as int, second.end as int),
        ) {
            None => Err(FormatError::Batch),
            Some(message) => match body_end(
                second.end as int,
                message.body_length as int,
                payload.len() as int,
            ) {
                Err(e) => Err(e),
                Ok(_) => if buffers_fit(message.buffers, message.body_length as int) {
                    nodes_checked(message.nodes)
                } else {
                    Err(FormatError::Length)
                },
            },
        },
    }
}

/// The schema of a payload whose framing and declared lengths hold: its
/// first message is a schema of unsigned 64-bit fields and its second a
/// record batch that lies inside the payload and declares no nulls.
pub open spec fn stream_checked(payload: Seq<u8>) -> Result<Seq<FieldView>, FormatError> {
    match checked_schema(payload) {
        Err(e) => Err(e),
        Ok((fields, next)) => match checked_batch(payload, next) {
            Err(e) => Err(e),
            Ok(_) => Ok(fields),
        },
    }
}

/// The values of the columns read, where each is of unsigned 64-bit
/// values and holds no null.
pub open spec fn column_values(columns: Seq<Option<ColumnView>>) -> Option<Seq<Seq<u64>>> {
    if forall|i: int|
        0 <= i < columns.len() ==> (#[trigger] columns[i]) is Some && columns[i]->Some_0.null_count
            == 0 {
        Some(Seq::new(columns.len(), |i: int| columns[i]->Some_0.values))
    } else {
        None
    }
}

/// The batch that a schema and the columns read make.
pub open spec fn assembled(fields: Seq<FieldView>, columns: Seq<Option<ColumnView>>) -> Result<
    BatchView,
    FormatError,
> {
    match column_values(columns) {
        None => Err(FormatError::Batch),
        Some(values) => {
            let batch = BatchView { schema: fields, columns: values };
            if batch.well_formed() {
                Ok(batch)
            } else {
                Err(FormatError::Batch)
            }
        },
    }
}

/// What the self-describing codec reads from a payload.
pub open spec fn ipc_batch(payload: Seq<u8>) -> Result<BatchView, FormatError> {
    match stream_checked(payload) {
        Err(e) => Err(e),
        Ok(fields) => match ipc_first_batch(payload) {
            None => Err(FormatError::Batch),
            Some(columns) => assembled(fields, columns),
        },
    }
}

/// A payload whose first byte is not the first byte of the continuation
/// marker is rejected for its marker, whatever follows.
pub proof fn lemma_corrupt_first_byte(payload: Seq<u8>)
    requires
        payload.len() > 0,
        payload[0] != 0xff,
    ensures
        ipc_batch(payload) == Err::<BatchView, FormatError>(FormatError::Marker),
{
}

/// A payload that ends inside its first marker and length, or before the
/// end of the metadata whose length it declares, is rejected: for its
/// marker or for its length.
pub proof fn lemma_truncated_header(payload: Seq<u8>)
    requires
        payload.len() > 0,
        payload.len() < 8 || payload.len() < 8 + declared_length(payload, 0),
    ensures
        ipc_batch(payload) == Err::<BatchView, FormatError>(FormatError::Marker) || ipc_batch(
            payload,
        ) == Err::<BatchView, FormatError>(FormatError::Length),
        payload.len() >= 8 && marker_at(payload, 0) ==> ipc_batch(payload) == Err::<
            BatchView,
            FormatError,
        >(FormatError::Length),
{
}

/// Decoding has no hidden state: the same bytes give the same outcome, on
/// every call.
pub proof fn lemma_ipc_decode_idempotent(first: Seq<u8>, second: Seq<u8>)
    requires
        first == second,
    ensures
        ipc_batch(first) == ipc_batch(second),
{
}

/// A batch that is decoded is well formed and has the schema that the
/// first message of the payload describes.
pub proof fn lemma_ipc_decoded_batch(payload: Seq<u8>)
    requires
        ipc_batch(payload) is Ok,
    ensures
        ipc_batch(payload)->Ok_0.well_formed(),
        stream_checked(payload) == Ok::<Seq<FieldView>, FormatError>(
            ipc_batch(payload)->Ok_0.schema,
        ),
{
}

/// Reads the frame of the message that begins at `at`: the continuation
/// marker, then the declared length of the metadata, which must lie inside
/// the payload.
pub fn read_frame(payload: &[u8], at: usize) -> (read: Result<Option<Frame>, FormatError>)
    ensures
        read == frame(payload@, at as int),
        read matches Ok(Some(f)) ==> f.start == at + 8 && f.start < f.end <= payload@.len(),
{
    let len = payload.len();
    if at == len {
        return Ok(None);
    }
    if at > len || len - at < 8 {
        return Err(FormatError::Marker);
    }
    if payload[at] != 0xff || payload[at + 1] != 0xff || payload[at + 2] != 0xff || payload[at + 3]
        != 0xff {
        return Err(FormatError::Marker);
    }
    let b0: u64 = payload[at + 4] as u64;
    let b1: u64 = payload[at + 5] as u64;
    let b2: u64 = payload[at + 6] as u64;
    let b3: u64 = payload[at + 7] as u64;
    let declared: u64 = b0 + b1 * 0x100 + b2 * 0x1_0000 + b3 * 0x100_0000;
    if declared == 0 {
        return Ok(None);
    }
    if declared >= 0x8000_0000 || declared > (len - at - 8) as u64 {
        return Err(FormatError::Length);
    }
    Ok(Some(Frame { start: at + 8, end: at + 8 + declared as usize }))
}

/// Holds the declared length of a message body against the input that
/// remains after the metadata, and gives the offset at which the body ends.
pub fn check_body(end: usize, body_length: i64, len: usize) -> (checked: Result<usize, FormatError>)
    requires
        end <= len,
    ensures
        match checked {
            Ok(next) => body_end(end as int, body_length as int, len as int) == Ok::<
                int,
                FormatError,
            >(next as int),
            Err(e) => body_end(end as int, body_length as int, len as int) == Err::<
                int,
                FormatError,
            >(e),
        },
{
    if body_length < 0 || body_length as u64 > (len - end) as u64 {
        return Err(FormatError::Length);
    }
    Ok(end + body_length as usize)
}

/// Whether every declared buffer lies inside a body of the declared length.
pub fn check_buffers(buffers: &Vec<(i64, i64)>, body_length: i64) -> (fit: bool)
    ensures
        fit == buffers_fit(buffers@, body_length as int),
{
    let mut i: usize = 0;
    while i < buffers.len()
        invariant
            i <= buffers.len(),
            buffers_fit(buffers@.take(i as int), body_length as int),
        decreases buffers.len() - i,
    {
        let (offset, length) = buffers[i];
        if offset < 0 || length < 0 || offset > body_length || length > body_length - offset {
            assert(!buffers_fit(buffers@, body_length as int)) by {
                let b = buffers@[i as int];
                assert(!(0 <= b.0 && 0 <= b.1 && b.0 + b.1 <= body_length));
            }
            return false;
        }
        assert(buffers_fit(buffers@.take(i + 1), body_length as int)) by {
            assert forall|k: int| 0 <= k < i + 1 implies {
                &&& 0 <= (#[trigger] buffers@.take(i + 1)[k]).0
                &&& 0 <= buffers@.take(i + 1)[k].1
                &&& buffers@.take(i + 1)[k].0 + buffers@.take(i + 1)[k].1 <= body_length
            } by {
                if k < i {
                    assert(buffers@.take(i as int)[k] == buffers@[k]);
                }
            }
        }
        i += 1;
    }
    assert(buffers@.take(buffers.len() as int) =~= buffers@);
    true
}

/// Holds the declared field nodes against what a batch can hold: no node
/// of negative length, and no node with nulls.
pub fn check_nodes(nodes: &Vec<(i64, i64)>) -> (checked: Result<(), FormatError>)
    ensures
        checked == nodes_checked(nodes@),
{
    let mut nulls: bool = false;
    let mut i: usize = 0;
    while i < nodes.len()
        invariant
            i <= nodes.len(),
            forall|k: int| 0 <= k < i ==> (#[trigger] nodes@[k]).0 >= 0,
            nulls <==> exists|k: int| 0 <= k < i && (#[trigger] nodes@[k]).1 != 0,
        decreases nodes.len() - i,
    {
        let (length, null_count) = nodes[i];
        if length < 0 {
            assert(nodes@[i as int].0 < 0);
            return Err(FormatError::Length);
        }
        if null_count != 0 {
            assert(nodes@[i as int].1 != 0);
            nulls = true;
        }
        i += 1;
    }
    if nulls {
        Err(FormatError::Batch)
    } else {
        Ok(())
    }
}

/// The schema of the fields read, where each of them is of unsigned
/// 64-bit values.
pub fn unsigned_fields(fields: &Vec<Option<Field>>) -> (schema: Option<Schema>)
    ensures
        match schema {
            Some(s) => unsigned_schema(fields_read(fields@)) == Some(s@),
            None => unsigned_schema(fields_read(fields@)) is None,
        },
{
    let ghost read = fields_read(fields@);
    let mut known: Vec<Field> = Vec::new();
    let mut i: usize = 0;
    while i < fields.len()
        invariant
            i <= fields.len(),
            read == fields_read(fields@),
            known@.len() == i,
            forall|k: int| 0 <= k < i ==> (#[trigger] read[k]) == Some(known@[k]@),
        decreases fields.len() - i,
    {
        match &fields[i] {
            Some(field) => {
                known.push(field.clone());
            },
            None => {
                assert(read[i as int] is None);
                return None;
            },
        }
        i += 1;
    }
    let schema = Schema::new(known);
    assert(unsigned_schema(read) is Some);
    assert(unsigned_schema(read)->Some_0 =~= schema@);
    Some(schema)
}

/// Walks the first message of a payload: its frame, its metadata, which
/// must describe a schema of unsigned 64-bit fields, and its declared body.
/// Gives the schema and the offset at which the next message begins.
pub fn check_schema(payload: &[u8]) -> (checked: Result<(Schema, usize), FormatError>)
    ensures
        match checked {
            Ok((schema, next)) => {
                &&& checked_schema(payload@) == Ok::<(Seq<FieldView>, int), FormatError>(
                    (schema@, next as int),
                )
                &&& next <= payload@.len()
            },
            Err(e) => checked_schema(payload@) == Err::<(Seq<FieldView>, int), FormatError>(e),
        },
{
    let first = match read_frame(payload, 0) {
        Err(e) => { return Err(e); },
        Ok(None) => { return Err(FormatError::Schema); },
        Ok(Some(first)) => first,
    };
    let message = match read_schema_message(slice_subrange(payload, first.start, first.end)) {
        None => { return Err(FormatError::Schema); },
        Some(message) => message,
    };
    assert(message@.fields == fields_read(message.fields@));
    let schema = match unsigned_fields(&message.fields) {
        None => { return Err(FormatError::Schema); },
        Some(schema) => schema,
    };
    match check_body(first.end, message.body_length, payload.len()) {
        Err(e) => Err(e),
        Ok(next) => Ok((schema, next)),
    }
}

/// Walks the message that begins at `at`: its frame, its metadata, which
/// must describe a record batch, its declared body, which must lie inside
/// the payload, its declared buffers, which must lie inside the body, and
/// its field nodes, which must declare no negative length and no null.
pub fn check_batch(payload: &[u8], at: usize) -> (checked: Result<(), FormatError>)
    ensures
        checked == checked_batch(payload@, at as int),
{
    let second = match read_frame(payload, at) {
        Err(e) => { return Err(e); },
        Ok(None) => { return Err(FormatError::Batch); },
        Ok(Some(second)) => second,
    };
    let message = match read_batch_message(slice_subrange(payload, second.start, second.end)) {
        None => { return Err(FormatError::Batch); },
        Some(message) => message,
    };
    match check_body(second.end, message.body_length, payload.len()) {
        Err(e) => { return Err(e); },
        Ok(_) => {},
    }
    if check_buffers(&message.buffers, message.body_length) {
        check_nodes(&message.nodes)
    } else {
        Err(FormatError::Length)
    }
}

/// Makes the batch of a schema and the columns read from a record batch.
/// Every column must be of unsigned 64-bit values and hold no null, there
/// must be one column for each field, and all columns must be of one length.
pub fn assemble(schema: Schema, columns: Vec<Option<ReadColumn>>) -> (made: Result<
    RandomData,
    FormatError,
>)
    ensures
        match made {
            Ok(batch) => assembled(schema@, columns_read(columns@)) == Ok::<
                BatchView,
                FormatError,
            >(batch@),
            Err(e) => assembled(schema@, columns_read(columns@)) == Err::<BatchView, FormatError>(
                e,
            ),
        },
{
    let ghost read = columns_read(columns@);
    let ghost count = columns@.len() as int;
    let mut rest = columns;
    let mut reversed: Vec<Vec<u64>> = Vec::new();
    while rest.len() > 0
        invariant
            rest@.len() <= count,
            read == columns_read(columns@),
            count == columns@.len(),
            rest@ == columns@.take(rest@.len() as int),
            reversed@.len() == count - rest@.len(),
            forall|j: int|
                0 <= j < reversed@.len() ==> {
                    &&& (#[trigger] read[count - 1 - j]) is Some
                    &&& read[count - 1 - j]->Some_0.null_count == 0
                    &&& read[count - 1 - j]->Some_0.values == reversed@[j]@
                },
        decreases rest@.len(),
    {
        let ghost last = rest@.len() - 1;
        match rest.pop() {
            Some(Some(column)) => {
                assert(read[last] == Some(column@));
                if column.null_count != 0 {
                    assert(column_values(read) is None);
                    return Err(FormatError::Batch);
                }
                reversed.push(column.values);
            },
            _ => {
                assert(read[last] is None);
                assert(column_values(read) is None);
                return Err(FormatError::Batch);
            },
        }
        assert(rest@ =~= columns@.take(rest@.len() as int));
    }
    assert forall|j: int| 0 <= j < count implies {
        &&& (#[trigger] read[j]) is Some
        &&& read[j]->Some_0.null_count == 0
    } by {
        let m = count - 1 - j;
        assert(read[count - 1 - m] is Some);
    }
    let mut values: Vec<Vec<u64>> = Vec::new();
    while reversed.len() > 0
        invariant
            reversed@.len() + values@.len() == count,
            read.len() == count,
            forall|j: int|
                0 <= j < count ==> {
                    &&& (#[trigger] read[j]) is Some
                    &&& read[j]->Some_0.null_count == 0
                },
            forall|j: int|
                0 <= j < reversed@.len() ==> (#[trigger] read[count - 1 - j])->Some_0.values
                    == reversed@[j]@,
            forall|j: int|
                0 <= j < values@.len() ==> (#[trigger] read[j])->Some_0.values == values@[j]@,
        decreases reversed@.len(),
    {
        let ghost at = values@.len() as int;
        let ghost top = reversed@.len() - 1;
        match reversed.pop() {
            Some(column) => {
                assert(read[count - 1 - top]->Some_0.values == column@);
                values.push(column);
            },
            None => {},
        }
    }
    assert(column_values(read) is Some);
    assert(column_values(read)->Some_0 =~= crate::batch::columns_view(values@));
    match RandomData::try_new(schema, values) {
        Ok(batch) => Ok(batch),
        Err(_) => Err(FormatError::Batch),
    }
}

impl RandomData {
    /// Encodes a batch as a self-describing stream: the schema message, one
    /// record batch message and the end-of-stream marker, as arrow writes
    /// them. Fails where arrow refuses to write the batch.
    pub fn serialize_message(input: RandomData) -> (payload: Result<Vec<u8>, WriteError>)
        ensures
            match payload {
                Ok(bytes) => ipc_stream(input@) == Some(bytes@),
                Err(_) => ipc_stream(input@) is None,
            },
    {
        match write_stream(&input) {
            Ok(bytes) => Ok(bytes),
            Err(_) => Err(WriteError),
        }
    }

    /// Decodes a payload. The framing of the first two messages and every
    /// length that they declare are held against the payload first; only a
    /// payload that passes is handed to arrow's reader. What follows the
    /// first record batch is ignored.
    pub fn deserialize_message(payload: &[u8]) -> (decoded: Result<RandomData, FormatError>)
        ensures
            match decoded {
                Ok(batch) => ipc_batch(payload@) == Ok::<BatchView, FormatError>(batch@),
                Err(e) => ipc_batch(payload@) == Err::<BatchView, FormatError>(e),
            },
    {
        let (schema, next) = match check_schema(payload) {
            Err(e) => { return Err(e); },
            Ok(checked) => checked,
        };
        match check_batch(payload, next) {
            Err(e) => { return Err(e); },
            Ok(_) => {},
        }
        match read_first_batch(payload) {
            Ok(Some(columns)) => assemble(schema, columns),
            _ => Err(FormatError::Batch),
        }
    }
}

} // verus!
