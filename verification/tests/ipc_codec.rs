use pulsarrow::ipc::{
    assemble, check_batch, check_body, check_buffers, check_schema, read_frame, unsigned_fields,
    Frame, ReadColumn,
};
use pulsarrow::{Field, FormatError, RandomData, Schema};

fn stream_of(batch: &RandomData) -> Vec<u8> {
    RandomData::serialize_message(batch.clone()).unwrap()
}

fn round_trip(row_count: usize) {
    let input = RandomData::new(row_count);
    let payload = stream_of(&input);
    let output = RandomData::deserialize_message(&payload).unwrap();
    assert_eq!(output.num_rows(), row_count);
    assert!(input.equals(&output));
    assert_eq!(input, output);
}

#[test]
fn ipc_round_trip_0_rows() {
    round_trip(0);
}

#[test]
fn ipc_round_trip_1_row() {
    round_trip(1);
}

#[test]
fn ipc_round_trip_100_rows() {
    round_trip(100);
}

#[test]
fn ipc_round_trip_1000_rows() {
    round_trip(1000);
}

#[test]
fn ipc_round_trip_1_000_000_rows() {
    round_trip(1_000_000);
}

#[test]
fn ipc_round_trip_keeps_values_and_schema() {
    let schema = Schema::new(vec![Field::new("a", false), Field::new("b", true)]);
    let input = RandomData::try_new(schema, vec![vec![1, 2, 3], vec![u64::MAX, 0, 7]]).unwrap();
    let output = RandomData::deserialize_message(&stream_of(&input)).unwrap();
    assert_eq!(output.schema().fields.len(), 2);
    assert_eq!(output.schema().fields[0].name(), "a");
    assert!(!output.schema().fields[0].nullable());
    assert_eq!(output.schema().fields[1].name(), "b");
    assert!(output.schema().fields[1].nullable());
    assert_eq!(output.columns(), &vec![vec![1, 2, 3], vec![u64::MAX, 0, 7]]);
    assert_eq!(input, output);
}

#[test]
fn ipc_stream_is_not_the_batch_handed_back() {
    let input = RandomData::from_values(vec![5, 6]);
    let payload = stream_of(&input);
    assert_eq!(&payload[..4], &[0xff, 0xff, 0xff, 0xff]);
    assert_eq!(&payload[payload.len() - 8..], &[0xff, 0xff, 0xff, 0xff, 0, 0, 0, 0]);
    assert!(payload.len() > 16 + 8);
}

#[test]
fn ipc_stream_is_larger_than_raw_payload() {
    for rows in [0usize, 1, 100, 1000] {
        let payload = stream_of(&RandomData::new(rows));
        assert!(payload.len() > rows * 8);
    }
}

#[test]
fn ipc_decode_is_idempotent() {
    let payload = stream_of(&RandomData::new(100));
    let first = RandomData::deserialize_message(&payload).unwrap();
    let second = RandomData::deserialize_message(&payload).unwrap();
    assert!(first.equals(&second));
    let broken = &payload[..payload.len() / 2];
    assert_eq!(
        RandomData::deserialize_message(broken).err(),
        RandomData::deserialize_message(broken).err()
    );
}

#[test]
fn ipc_decode_rejects_corrupt_first_byte() {
    let mut payload = stream_of(&RandomData::new(100));
    payload[0] = 0x00;
    assert_eq!(RandomData::deserialize_message(&payload).err(), Some(FormatError::Marker));
    payload[0] = 0xfe;
    assert_eq!(RandomData::deserialize_message(&payload).err(), Some(FormatError::Marker));
}

#[test]
fn ipc_decode_rejects_truncated_header() {
    let payload = stream_of(&RandomData::new(100));
    let declared = u32::from_le_bytes([payload[4], payload[5], payload[6], payload[7]]) as usize;
    assert!(declared > 0);
    for len in 1..8 {
        assert_eq!(
            RandomData::deserialize_message(&payload[..len]).err(),
            Some(FormatError::Marker)
        );
    }
    for len in [8, 9, 8 + declared / 2, 8 + declared - 1] {
        assert_eq!(
            RandomData::deserialize_message(&payload[..len]).err(),
            Some(FormatError::Length)
        );
    }
}

#[test]
fn ipc_decode_rejects_empty_payload() {
    assert_eq!(RandomData::deserialize_message(&[]).err(), Some(FormatError::Schema));
}

#[test]
fn ipc_decode_rejects_stream_without_batch() {
    let payload = stream_of(&RandomData::new(3));
    let declared = u32::from_le_bytes([payload[4], payload[5], payload[6], payload[7]]) as usize;
    let schema_only = &payload[..8 + declared];
    assert_eq!(RandomData::deserialize_message(schema_only).err(), Some(FormatError::Batch));
    let mut ended = schema_only.to_vec();
    ended.extend_from_slice(&[0xff, 0xff, 0xff, 0xff, 0, 0, 0, 0]);
    assert_eq!(RandomData::deserialize_message(&ended).err(), Some(FormatError::Batch));
}

#[test]
fn ipc_decode_rejects_truncated_body() {
    let payload = stream_of(&RandomData::new(100));
    let cut = &payload[..payload.len() - 8 - 1];
    assert_eq!(RandomData::deserialize_message(cut).err(), Some(FormatError::Length));
}

#[test]
fn ipc_decode_rejects_unparseable_schema() {
    let mut payload = vec![0xff, 0xff, 0xff, 0xff, 8, 0, 0, 0];
    payload.extend_from_slice(&[0xaa; 8]);
    assert_eq!(RandomData::deserialize_message(&payload).err(), Some(FormatError::Schema));
}

#[test]
fn ipc_decode_ignores_what_follows_the_first_batch() {
    let input = RandomData::from_values(vec![9, 8, 7]);
    let mut payload = stream_of(&input);
    payload.extend_from_slice(&[1, 2, 3, 4, 5]);
    let output = RandomData::deserialize_message(&payload).unwrap();
    assert_eq!(input, output);
}

#[test]
fn ipc_walk_of_a_written_stream() {
    let payload = stream_of(&RandomData::new(100));
    let declared = u32::from_le_bytes([payload[4], payload[5], payload[6], payload[7]]) as usize;
    assert_eq!(read_frame(&payload, 0), Ok(Some(Frame { start: 8, end: 8 + declared })));
    let (schema, next) = check_schema(&payload).unwrap();
    assert_eq!(next, 8 + declared);
    assert_eq!(schema.fields.len(), 1);
    assert_eq!(schema.fields[0].name(), "rand");
    assert!(!schema.fields[0].nullable());
    assert_eq!(check_batch(&payload, next), Ok(()));
    assert_eq!(check_batch(&payload, 0), Err(FormatError::Batch));
}

#[test]
fn read_frame_cases() {
    assert_eq!(read_frame(&[], 0), Ok(None));
    assert_eq!(read_frame(&[0xff, 0xff, 0xff], 0), Err(FormatError::Marker));
    assert_eq!(read_frame(&[0xff, 0xff, 0xff, 0xff, 0, 0, 0, 0], 0), Ok(None));
    assert_eq!(read_frame(&[0xff, 0xff, 0xff, 0xfe, 1, 0, 0, 0, 0], 0), Err(FormatError::Marker));
    assert_eq!(
        read_frame(&[0xff, 0xff, 0xff, 0xff, 2, 0, 0, 0, 7, 7], 0),
        Ok(Some(Frame { start: 8, end: 10 }))
    );
    assert_eq!(
        read_frame(&[0, 0xff, 0xff, 0xff, 0xff, 0, 1, 0, 0], 1),
        Err(FormatError::Length)
    );
    assert_eq!(
        read_frame(&[0xff, 0xff, 0xff, 0xff, 0, 0, 0, 0x80, 0], 0),
        Err(FormatError::Length)
    );
    assert_eq!(read_frame(&[0xff, 0xff, 0xff, 0xff, 3, 0, 0, 0, 7, 7], 0), Err(FormatError::Length));
    assert_eq!(read_frame(&[1, 2], 2), Ok(None));
    assert_eq!(read_frame(&[1, 2], 3), Err(FormatError::Marker));
}

#[test]
fn check_body_cases() {
    assert_eq!(check_body(10, 0, 10), Ok(10));
    assert_eq!(check_body(10, 6, 16), Ok(16));
    assert_eq!(check_body(10, 7, 16), Err(FormatError::Length));
    assert_eq!(check_body(10, -1, 16), Err(FormatError::Length));
    assert_eq!(check_body(0, i64::MAX, 16), Err(FormatError::Length));
}

#[test]
fn check_buffers_cases() {
    assert!(check_buffers(&vec![], 0));
    assert!(check_buffers(&vec![(0, 0), (0, 800)], 832));
    assert!(check_buffers(&vec![(0, 0), (32, 800)], 832));
    assert!(!check_buffers(&vec![(0, 0), (33, 800)], 832));
    assert!(!check_buffers(&vec![(0, 0), (0, 833)], 832));
    assert!(!check_buffers(&vec![(-1, 1)], 832));
    assert!(!check_buffers(&vec![(0, -1)], 832));
    assert!(!check_buffers(&vec![(i64::MAX, i64::MAX)], i64::MAX));
}

#[test]
fn unsigned_fields_cases() {
    let schema = unsigned_fields(&vec![Some(Field::new("a", true)), Some(Field::new("b", false))])
        .unwrap();
    assert_eq!(schema.fields.len(), 2);
    assert_eq!(schema.fields[0].name(), "a");
    assert_eq!(schema.fields[1].name(), "b");
    assert!(unsigned_fields(&vec![Some(Field::new("a", true)), None]).is_none());
    assert_eq!(unsigned_fields(&vec![]).unwrap().fields.len(), 0);
}

#[test]
fn assemble_cases() {
    let two = || Schema::new(vec![Field::new("a", false), Field::new("b", false)]);
    let made = assemble(
        two(),
        vec![Some(ReadColumn::new(vec![1, 2], 0)), Some(ReadColumn::new(vec![3, 4], 0))],
    )
    .unwrap();
    assert_eq!(made.columns(), &vec![vec![1, 2], vec![3, 4]]);
    assert_eq!(made.num_rows(), 2);

    let with_null = vec![Some(ReadColumn::new(vec![1, 2], 1)), Some(ReadColumn::new(vec![3, 4], 0))];
    assert_eq!(assemble(two(), with_null).err(), Some(FormatError::Batch));
    let other_type = vec![Some(ReadColumn::new(vec![1, 2], 0)), None];
    assert_eq!(assemble(two(), other_type).err(), Some(FormatError::Batch));
    let too_few = vec![Some(ReadColumn::new(vec![1, 2], 0))];
    assert_eq!(assemble(two(), too_few).err(), Some(FormatError::Batch));
    let uneven = vec![Some(ReadColumn::new(vec![1, 2], 0)), Some(ReadColumn::new(vec![3], 0))];
    assert_eq!(assemble(two(), uneven).err(), Some(FormatError::Batch));
}
