//! The raw codec: a payload is the element bytes of the one column and
//! nothing else. No schema, no row count and no framing is transmitted;
//! the two ends agree on them beforehand.

use crate::batch::{rand_schema, BatchView, RandomData, ROW_COUNT};
use crate::le_bytes::{
    decode_values, encode_values, lemma_decode_encode, lemma_encode_decode, push_u64_le,
    read_u64_le,
};
use vstd::prelude::*;

verus! {

/// A payload does not have the length that the agreed row count calls for.
#[derive(Clone, Copy, Debug, PartialEq, Eq, Structural)]
pub struct LengthMismatchError {
    /// The row count that was agreed on.
    pub expected_rows: usize,
    /// The length of the payload, in bytes.
    pub actual_len: usize,
}

/// A batch of the schema [`rand_schema`], which the raw codec carries.
#[derive(Debug)]
pub struct RawRandomData(RandomData);

impl View for RawRandomData {
    type V = BatchView;

    closed spec fn view(&self) -> BatchView {
        self.0@
    }
}

/// The payload of a batch under the raw codec: the image of its first column.
pub open spec fn raw_payload(batch: BatchView) -> Seq<u8> {
    encode_values(batch.columns[0])
}

/// What the raw codec reads from a payload when `row_count` rows were
/// agreed on: the batch of that many rows whose values the payload holds,
/// or a length mismatch where the payload is not `8 * row_count` bytes long.
pub open spec fn raw_batch(payload: Seq<u8>, row_count: usize) -> Result<
    BatchView,
    LengthMismatchError,
> {
    if payload.len() == 8 * row_count {
        Ok(BatchView { schema: rand_schema(), columns: seq![decode_values(payload)] })
    } else {
        Err(LengthMismatchError { expected_rows: row_count, actual_len: payload.len() as usize })
    }
}

/// A batch of the fixed schema with `row_count` rows comes back unchanged
/// from its own payload, whatever the row count that was agreed on.
pub proof fn lemma_raw_round_trip(batch: BatchView, row_count: usize)
    requires
        batch.is_rand_batch(row_count as nat),
    ensures
        raw_payload(batch).len() == 8 * row_count,
        raw_batch(raw_payload(batch), row_count) == Ok::<BatchView, LengthMismatchError>(batch),
{
    lemma_decode_encode(batch.columns[0]);
    assert(seq![decode_values(raw_payload(batch))] =~= batch.columns);
}

/// A batch of the fixed schema with the agreed [`ROW_COUNT`] rows comes back
/// unchanged from its own payload.
pub proof fn lemma_raw_round_trip_agreed(batch: BatchView)
    requires
        batch.is_rand_batch(ROW_COUNT as nat),
    ensures
        raw_batch(raw_payload(batch), ROW_COUNT) == Ok::<BatchView, LengthMismatchError>(batch),
{
    lemma_raw_round_trip(batch, ROW_COUNT);
}

/// A payload whose length is not a multiple of the element size, or is not
/// eight times the agreed row count, is a length mismatch.
pub proof fn lemma_raw_length_mismatch(payload: Seq<u8>, row_count: usize)
    requires
        payload.len() % 8 != 0 || payload.len() != 8 * row_count,
    ensures
        raw_batch(payload, row_count) == Err::<BatchView, LengthMismatchError>(
            LengthMismatchError { expected_rows: row_count, actual_len: payload.len() as usize },
        ),
{
}

/// A payload that is accepted is the payload of the batch read from it: the
/// raw codec reads every byte and adds none.
pub proof fn lemma_raw_payload_of_decoded(payload: Seq<u8>, row_count: usize)
    requires
        payload.len() == 8 * row_count,
    ensures
        raw_batch(payload, row_count) is Ok,
        raw_payload(raw_batch(payload, row_count)->Ok_0) == payload,
{
    lemma_encode_decode(payload);
}

/// Decoding has no hidden state: the same bytes and the same agreed row
/// count give the same outcome, on every call.
pub proof fn lemma_raw_decode_idempotent(first: Seq<u8>, second: Seq<u8>, row_count: usize)
    requires
        first == second,
    ensures
        raw_batch(first, row_count) == raw_batch(second, row_count),
{
}

impl RawRandomData {
    #[verifier::type_invariant]
    pub open spec fn valid(self) -> bool {
        &&& self@.schema == rand_schema()
        &&& self@.columns.len() == 1
    }

    /// The values of the one column, in row order.
    pub open spec fn values(self) -> Seq<u64> {
        self@.columns[0]
    }

    /// Generates a batch of `row_count` rows, as [`RandomData::new`] does.
    pub fn new(row_count: usize) -> (raw: RawRandomData)
        ensures
            raw@.is_rand_batch(row_count as nat),
    {
        RawRandomData(RandomData::new(row_count))
    }

    /// Makes the batch whose one column holds the given values.
    pub fn from_values(values: Vec<u64>) -> (raw: RawRandomData)
        ensures
            raw@ == (BatchView { schema: rand_schema(), columns: seq![values@] }),
    {
        RawRandomData(RandomData::from_values(values))
    }

    /// The batch that this value carries.
    pub fn batch(&self) -> (batch: &RandomData)
        ensures
            batch@ == self@,
            self@.is_rand_batch(self@.row_count()),
    {
        proof {
            use_type_invariant(self);
        }
        &self.0
    }

    /// Encodes a batch: the little-endian bytes of each value of its
    /// column, in row order. The payload is exactly `8 * row_count` bytes
    /// long and has no header.
    pub fn serialize_message(input: RawRandomData) -> (payload: Vec<u8>)
        ensures
            payload@ == raw_payload(input@),
            payload@.len() == 8 * input@.row_count(),
    {
        proof {
            use_type_invariant(&input);
        }
        let columns = input.0.columns();
        let values = &columns[0];
        assert(values@ == input@.columns[0]);
        let mut payload: Vec<u8> = Vec::new();
        let mut i: usize = 0;
        while i < values.len()
            invariant
                i <= values.len(),
                payload@ == encode_values(values@.take(i as int)),
            decreases values.len() - i,
        {
            let ghost before = payload@;
            push_u64_le(&mut payload, values[i]);
            proof {
                let done = values@.take(i as int);
                let next = values@.take(i + 1);
                assert forall|k: int| 0 <= k < 8 * (i + 1) implies payload@[k] == encode_values(
                    next,
                )[k] by {
                    if k < 8 * i {
                        assert(before[k] == encode_values(done)[k]);
                        assert(done[k / 8] == next[k / 8]);
                    } else {
                        assert(k / 8 == i);
                        assert(k % 8 == k - 8 * i);
                    }
                }
                assert(payload@ =~= encode_values(next));
            }
            i += 1;
        }
        assert(values@.take(values.len() as int) =~= values@);
        payload
    }

    /// Decodes a payload under the agreed [`ROW_COUNT`].
    pub fn deserialize_message(payload: &[u8]) -> (decoded: Result<
        RawRandomData,
        LengthMismatchError,
    >)
        ensures
            match decoded {
                Ok(raw) => raw_batch(payload@, ROW_COUNT) == Ok::<BatchView, LengthMismatchError>(
                    raw@,
                ),
                Err(e) => raw_batch(payload@, ROW_COUNT) == Err::<BatchView, LengthMismatchError>(
                    e,
                ),
            },
    {
        RawRandomData::deserialize_rows(payload, ROW_COUNT)
    }

    /// Decodes a payload under an agreed row count. The length of the
    /// payload is checked before a single byte is read as a value: a payload
    /// that is not exactly `8 * row_count` bytes long is a length mismatch.
    pub fn deserialize_rows(payload: &[u8], row_count: usize) -> (decoded: Result<
        RawRandomData,
        LengthMismatchError,
    >)
        ensures
            match decoded {
                Ok(raw) => raw_batch(payload@, row_count) == Ok::<BatchView, LengthMismatchError>(
                    raw@,
                ),
                Err(e) => raw_batch(payload@, row_count) == Err::<BatchView, LengthMismatchError>(
                    e,
                ),
            },
    {
        if payload.len() % 8 != 0 || payload.len() / 8 != row_count {
            return Err(
                LengthMismatchError { expected_rows: row_count, actual_len: payload.len() },
            );
        }
        let mut values: Vec<u64> = Vec::new();
        let mut i: usize = 0;
        while i < row_count
            invariant
                i <= row_count,
                payload@.len() == 8 * row_count,
                8 * row_count <= usize::MAX,
                values@.len() == i,
                forall|k: int| 0 <= k < i ==> values@[k] == decode_values(payload@)[k],
            decreases row_count - i,
        {
            values.push(read_u64_le(payload, 8 * i));
            i += 1;
        }
        assert(values@ =~= decode_values(payload@));
        Ok(RawRandomData::from_values(values))
    }
}

impl Clone for RawRandomData {
    fn clone(&self) -> (copy: RawRandomData)
        ensures
            copy@ == self@,
    {
        proof {
            use_type_invariant(self);
        }
        RawRandomData(self.0.clone())
    }
}

impl PartialEq for RawRandomData {
    fn eq(&self, other: &RawRandomData) -> (same: bool) {
        self.0.equals(&other.0)
    }
}

impl vstd::std_specs::cmp::PartialEqSpecImpl for RawRandomData {
    open spec fn obeys_eq_spec() -> bool {
        true
    }

    open spec fn eq_spec(&self, other: &RawRandomData) -> bool {
        self@ == other@
    }
}

impl Default for RawRandomData {
    /// A generated batch of the agreed [`ROW_COUNT`] rows.
    fn default() -> (raw: RawRandomData)
        ensures
            raw@.is_rand_batch(ROW_COUNT as nat),
    {
        RawRandomData::new(ROW_COUNT)
    }
}

} // verus!
