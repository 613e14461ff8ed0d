//! The items of this library that Verus takes on trust: each states what
//! an outside function does and is believed without proof.
//!
//! Arrow puts the value buffers of a stream in the byte order of the
//! machine and labels the stream little-endian. What is named here as a
//! function of bytes or of a batch is what arrow does on a little-endian
//! machine.

use crate::batch::{BatchView, Field, RandomData};
use crate::ipc::{
    stream_checked, BatchMessage, BatchMessageView, ColumnView, ReadColumn, SchemaMessage,
    SchemaMessageView, columns_read,
};
use arrow::array::{Array, ArrayRef, AsArray, RecordBatchOptions, UInt64Array};
use arrow::datatypes::{DataType, UInt64Type};
use arrow::error::ArrowError;
use arrow::ipc::reader::StreamReader;
use arrow::ipc::writer::StreamWriter;
use arrow::record_batch::RecordBatch;
use std::sync::Arc;
use vstd::prelude::*;

verus! {

/// The error type of the arrow crate. Nothing is read from a value of it.
#[verifier::external_type_specification]
#[verifier::external_body]
pub struct ExArrowError(arrow::error::ArrowError);

/// Draws one value with `rand::random::<u64>()`. The value depends on the
/// generator's state, so nothing is stated of it: callers are verified for
/// whatever value comes back.
#[verifier::external_body]
pub(crate) fn random_u64() -> u64 {
    rand::random::<u64>()
}

/// The Arrow IPC stream that arrow's `StreamWriter`, with its default
/// options, writes for a batch: the schema message, one record batch
/// message and the end-of-stream marker. `None` where the writer refuses.
pub uninterp spec fn ipc_stream(batch: BatchView) -> Option<Seq<u8>>;

/// What arrow reads from the metadata of a schema message: the body length
/// that the message declares and, for each field in order, its name and
/// nullability where its type is the unsigned 64-bit integer. `None` where
/// the bytes are no valid message, where the message is not a schema, or
/// where the schema does not convert.
pub uninterp spec fn ipc_schema_message(metadata: Seq<u8>) -> Option<SchemaMessageView>;

/// What arrow reads from the metadata of a record batch message: the body
/// length that the message declares, the length and null count that it
/// declares for each field node, and the offset and length that it declares
/// for each buffer, all in order. `None` where the bytes are no valid
/// message, where the message is not a record batch, or where it lacks the
/// list of nodes or the list of buffers.
pub uninterp spec fn ipc_batch_message(metadata: Seq<u8>) -> Option<BatchMessageView>;

/// The columns of the first record batch that arrow's `StreamReader` reads
/// from a stream: for each column that is an unsigned 64-bit array, its
/// values and its null count. `None` where the reader fails or the stream
/// ends before a batch.
pub uninterp spec fn ipc_first_batch(stream: Seq<u8>) -> Option<Seq<Option<ColumnView>>>;

/// Builds an arrow `RecordBatch` of `UInt64` columns from the batch, with
/// `RecordBatch::try_new_with_options`, and writes it as a one-batch stream
/// with `StreamWriter::try_new`, `write` and `into_inner`, which finishes the
/// stream. The bytes written are a function of the batch alone; that
/// function is named [`ipc_stream`]. An error of any of the calls is handed
/// back.
#[verifier::external_body]
pub(crate) fn write_stream(batch: &RandomData) -> (written: Result<Vec<u8>, ArrowError>)
    ensures
        match written {
            Ok(bytes) => ipc_stream(batch@) == Some(bytes@),
            Err(_) => ipc_stream(batch@) is None,
        },
{
    let fields = batch.schema().fields.iter();
    let fields = fields.map(|f| arrow::datatypes::Field::new(f.name(), DataType::UInt64, f.nullable()));
    let schema = Arc::new(arrow::datatypes::Schema::new(fields.collect::<Vec<_>>()));
    let arrays = batch.columns().iter().map(|c| Arc::new(UInt64Array::from(c.clone())) as ArrayRef);
    let options = RecordBatchOptions::new().with_row_count(Some(batch.num_rows()));
    let record = RecordBatch::try_new_with_options(schema.clone(), arrays.collect(), &options)?;
    let mut writer = StreamWriter::try_new(Vec::new(), &schema)?;
    writer.write(&record)?;
    writer.into_inner()
}

/// Reads the metadata of a schema message with `arrow::ipc::root_as_message`,
/// `header_as_schema` and `arrow::ipc::convert::try_fb_to_schema`, and hands
/// out the declared body length and the fields. A field whose type is not
/// `UInt64` is handed out as `None`. The outcome is a function of the bytes
/// alone; that function is named [`ipc_schema_message`].
#[verifier::external_body]
pub(crate) fn read_schema_message(metadata: &[u8]) -> (message: Option<SchemaMessage>)
    ensures
        match message {
            Some(m) => ipc_schema_message(metadata@) == Some(m@),
            None => ipc_schema_message(metadata@) is None,
        },
{
    let message = arrow::ipc::root_as_message(metadata).ok()?;
    let schema = arrow::ipc::convert::try_fb_to_schema(message.header_as_schema()?).ok()?;
    let fields = schema.fields().iter().map(|f| match f.data_type() {
        DataType::UInt64 => Some(Field::new(f.name(), f.is_nullable())),
        _ => None,
    });
    Some(SchemaMessage { body_length: message.bodyLength(), fields: fields.collect() })
}

/// Reads the metadata of a record batch message with
/// `arrow::ipc::root_as_message`, `header_as_record_batch`, `nodes` and
/// `buffers`, and hands out the declared body length, each node's declared
/// length and null count, and each buffer's declared offset and length. The
/// outcome is a function of the bytes alone; that function is named
/// [`ipc_batch_message`].
#[verifier::external_body]
pub(crate) fn read_batch_message(metadata: &[u8]) -> (message: Option<BatchMessage>)
    ensures
        match message {
            Some(m) => ipc_batch_message(metadata@) == Some(m@),
            None => ipc_batch_message(metadata@) is None,
        },
{
    let message = arrow::ipc::root_as_message(metadata).ok()?;
    let batch = message.header_as_record_batch()?;
    let nodes = batch.nodes()?.iter().map(|n| (n.length(), n.null_count())).collect();
    let buffers = batch.buffers()?.iter().map(|b| (b.offset(), b.length())).collect();
    Some(BatchMessage { body_length: message.bodyLength(), nodes, buffers })
}

/// Reads the first record batch of a stream with arrow's
/// `StreamReader::try_new` and `next`, and hands out its columns: the values
/// and the null count of each column that is a `UInt64` array, `None` for
/// any other column. `Ok(None)` where the stream ends before a batch.
///
/// The reader aborts on two kinds of record batch: one that declares a
/// buffer outside the message body, out of which the reader slices it, and
/// one that declares nulls for a field whose validity bitmap is shorter
/// than the field. The precondition leaves both out: it asks that the
/// stream was checked, so that its first message is a schema of `UInt64`
/// fields and its second a record batch that declares no nulls and whose
/// declared buffers lie inside its declared body, which lies inside the
/// stream.
#[verifier::external_body]
pub(crate) fn read_first_batch(stream: &[u8]) -> (read: Result<
    Option<Vec<Option<ReadColumn>>>,
    ArrowError,
>)
    requires
        stream_checked(stream@) is Ok,
    ensures
        match read {
            Ok(Some(columns)) => ipc_first_batch(stream@) == Some(columns_read(columns@)),
            _ => ipc_first_batch(stream@) is None,
        },
{
    let Some(record) = StreamReader::try_new(stream, None)?.next().transpose()? else {
        return Ok(None);
    };
    let columns = record.columns().iter().map(|c| c.as_primitive_opt::<UInt64Type>());
    let columns = columns.map(|c| c.map(|a| ReadColumn::new(a.values().to_vec(), a.null_count())));
    Ok(Some(columns.collect()))
}

} // verus!
