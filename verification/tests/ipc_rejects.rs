use std::sync::Arc;

use arrow::array::{ArrayRef, Int32Array, UInt64Array};
use arrow::datatypes::{DataType, Field as ArrowField, Schema as ArrowSchema};
use arrow::ipc::writer::StreamWriter;
use arrow::record_batch::RecordBatch;
use pulsarrow::ipc::check_nodes;
use pulsarrow::{FormatError, RandomData};

fn arrow_stream(field: ArrowField, column: ArrayRef) -> Vec<u8> {
    let schema = Arc::new(ArrowSchema::new(vec![field]));
    let batch = RecordBatch::try_new(schema.clone(), vec![column]).unwrap();
    let mut writer = StreamWriter::try_new(Vec::new(), &schema).unwrap();
    writer.write(&batch).unwrap();
    writer.into_inner().unwrap()
}

fn find(haystack: &[u8], needle: &[u8]) -> usize {
    let hits: Vec<usize> = (0..=haystack.len() - needle.len())
        .filter(|at| &haystack[*at..*at + needle.len()] == needle)
        .collect();
    assert_eq!(hits.len(), 1);
    hits[0]
}

fn words(values: &[i64]) -> Vec<u8> {
    values.iter().flat_map(|v| v.to_le_bytes()).collect()
}

#[test]
fn stream_written_by_arrow_is_read() {
    let column: ArrayRef = Arc::new(UInt64Array::from(vec![4u64, 5, 6]));
    let payload = arrow_stream(ArrowField::new("n", DataType::UInt64, false), column);
    let batch = RandomData::deserialize_message(&payload).unwrap();
    assert_eq!(batch.schema().fields[0].name(), "n");
    assert_eq!(batch.columns(), &vec![vec![4, 5, 6]]);
    assert_eq!(payload, RandomData::serialize_message(batch).unwrap());
}

#[test]
fn column_of_another_type_is_a_schema_error() {
    let column: ArrayRef = Arc::new(Int32Array::from(vec![1, 2, 3]));
    let payload = arrow_stream(ArrowField::new("n", DataType::Int32, false), column);
    assert_eq!(RandomData::deserialize_message(&payload).err(), Some(FormatError::Schema));
}

#[test]
fn column_with_nulls_is_a_batch_error() {
    let column: ArrayRef = Arc::new(UInt64Array::from(vec![Some(1u64), None, Some(3)]));
    let payload = arrow_stream(ArrowField::new("n", DataType::UInt64, true), column);
    assert_eq!(RandomData::deserialize_message(&payload).err(), Some(FormatError::Batch));
}

#[test]
fn nullable_column_without_nulls_is_read() {
    let column: ArrayRef = Arc::new(UInt64Array::from(vec![Some(1u64), Some(2)]));
    let payload = arrow_stream(ArrowField::new("n", DataType::UInt64, true), column);
    let batch = RandomData::deserialize_message(&payload).unwrap();
    assert!(batch.schema().fields[0].nullable());
    assert_eq!(batch.columns(), &vec![vec![1, 2]]);
}

#[test]
fn buffer_declared_outside_the_body_is_a_length_error() {
    let values: Vec<u64> = (0..100).collect();
    let good = RandomData::serialize_message(RandomData::from_values(values)).unwrap();
    // The buffer table of the one column: 13 bytes of validity bits at
    // offset 0, then 800 bytes of values at offset 64.
    let table = find(&good, &words(&[0, 13, 64, 800]));

    let mut long = good.clone();
    long[table + 24..table + 32].copy_from_slice(&1_000_000i64.to_le_bytes());
    assert_eq!(RandomData::deserialize_message(&long).err(), Some(FormatError::Length));

    let mut far = good.clone();
    far[table + 16..table + 24].copy_from_slice(&128i64.to_le_bytes());
    assert_eq!(RandomData::deserialize_message(&far).err(), Some(FormatError::Length));

    let mut negative = good.clone();
    negative[table + 16..table + 24].copy_from_slice(&(-8i64).to_le_bytes());
    assert_eq!(RandomData::deserialize_message(&negative).err(), Some(FormatError::Length));

    let mut short = good.clone();
    short[table + 24..table + 32].copy_from_slice(&792i64.to_le_bytes());
    assert_eq!(RandomData::deserialize_message(&short).err(), Some(FormatError::Batch));

    assert!(RandomData::deserialize_message(&good).is_ok());
}

#[test]
fn declared_nulls_are_a_batch_error() {
    let values: Vec<u64> = (0..100).collect();
    let good = RandomData::serialize_message(RandomData::from_values(values)).unwrap();
    // The field node of the one column: 100 values, no nulls.
    let node = find(&good, &words(&[100, 0]));

    let mut nulls = good.clone();
    nulls[node + 8..node + 16].copy_from_slice(&1i64.to_le_bytes());
    assert_eq!(RandomData::deserialize_message(&nulls).err(), Some(FormatError::Batch));

    let mut negative = good.clone();
    negative[node..node + 8].copy_from_slice(&(-1i64).to_le_bytes());
    assert_eq!(RandomData::deserialize_message(&negative).err(), Some(FormatError::Length));

    let mut longer = good.clone();
    longer[node..node + 8].copy_from_slice(&101i64.to_le_bytes());
    assert_eq!(RandomData::deserialize_message(&longer).err(), Some(FormatError::Batch));
}

#[test]
fn check_nodes_cases() {
    assert_eq!(check_nodes(&vec![]), Ok(()));
    assert_eq!(check_nodes(&vec![(100, 0), (0, 0)]), Ok(()));
    assert_eq!(check_nodes(&vec![(100, 0), (100, 1)]), Err(FormatError::Batch));
    assert_eq!(check_nodes(&vec![(100, -1)]), Err(FormatError::Batch));
    assert_eq!(check_nodes(&vec![(100, 1), (-1, 0)]), Err(FormatError::Length));
    assert_eq!(check_nodes(&vec![(-1, 0), (100, 1)]), Err(FormatError::Length));
}
