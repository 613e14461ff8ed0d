//! The columnar batch: an ordered schema and one buffer of unsigned 64-bit
//! values for each of its fields, all of the same length.

use crate::trusted::random_u64;
use vstd::prelude::*;

verus! {

/// Row count of a default batch. It is also the row count on which the two
/// ends of the raw codec agree.
pub const ROW_COUNT: usize = 100;

/// One field of a schema. The element type of every field is the unsigned
/// 64-bit integer, so a field is described by its name and by whether its
/// column may hold nulls.
#[derive(Debug)]
pub struct Field {
    pub name: String,
    pub nullable: bool,
}

/// What a [`Field`] stands for in contracts.
pub struct FieldView {
    pub name: Seq<char>,
    pub nullable: bool,
}

impl View for Field {
    type V = FieldView;

    open spec fn view(&self) -> FieldView {
        FieldView { name: self.name@, nullable: self.nullable }
    }
}

impl Field {
    pub fn new(name: &str, nullable: bool) -> (field: Field)
        ensures
            field@ == (FieldView { name: name@, nullable }),
    {
        Field { name: name.to_owned(), nullable }
    }

    pub fn name(&self) -> (name: &str)
        ensures
            name@ == self@.name,
    {
        self.name.as_str()
    }

    pub fn nullable(&self) -> (nullable: bool)
        ensures
            nullable == self@.nullable,
    {
        self.nullable
    }

    /// Whether two fields have the same name and the same nullability.
    pub fn equals(&self, other: &Field) -> (same: bool)
        ensures
            same == (self@ == other@),
    {
        self.name == other.name && self.nullable == other.nullable
    }
}

impl Clone for Field {
    fn clone(&self) -> (copy: Field)
        ensures
            copy@ == self@,
    {
        Field { name: self.name.clone(), nullable: self.nullable }
    }
}

/// An ordered sequence of fields. The order is significant.
#[derive(Debug)]
pub struct Schema {
    pub fields: Vec<Field>,
}

impl View for Schema {
    type V = Seq<FieldView>;

    open spec fn view(&self) -> Seq<FieldView> {
        Seq::new(self.fields@.len(), |i: int| self.fields@[i]@)
    }
}

impl Schema {
    pub fn new(fields: Vec<Field>) -> (schema: Schema)
        ensures
            schema.fields == fields,
    {
        Schema { fields }
    }

    /// The schema of one non-nullable field named `rand`.
    pub fn rand() -> (schema: Schema)
        ensures
            schema@ == rand_schema(),
    {
        let mut fields: Vec<Field> = Vec::new();
        fields.push(Field::new("rand", false));
        let schema = Schema { fields };
        assert(schema@ =~= rand_schema());
        schema
    }

    pub fn len(&self) -> (n: usize)
        ensures
            n == self@.len(),
    {
        self.fields.len()
    }

    /// Whether two schemas hold the same fields in the same order.
    pub fn equals(&self, other: &Schema) -> (same: bool)
        ensures
            same == (self@ == other@),
    {
        if self.fields.len() != other.fields.len() {
            assert(self@.len() != other@.len());
            return false;
        }
        let mut i: usize = 0;
        while i < self.fields.len()
            invariant
                i <= self.fields.len(),
                self.fields.len() == other.fields.len(),
                forall|k: int| 0 <= k < i ==> self@[k] == other@[k],
            decreases self.fields.len() - i,
        {
            if !self.fields[i].equals(&other.fields[i]) {
                assert(self@[i as int] != other@[i as int]);
                return false;
            }
            i += 1;
        }
        assert(self@ =~= other@);
        true
    }
}

impl Clone for Schema {
    fn clone(&self) -> (copy: Schema)
        ensures
            copy@ == self@,
    {
        let mut fields: Vec<Field> = Vec::new();
        let mut i: usize = 0;
        while i < self.fields.len()
            invariant
                i <= self.fields.len(),
                fields@.len() == i,
                forall|k: int| 0 <= k < i ==> fields@[k]@ == self@[k],
            decreases self.fields.len() - i,
        {
            fields.push(self.fields[i].clone());
            i += 1;
        }
        let copy = Schema { fields };
        assert(copy@ =~= self@);
        copy
    }
}

/// The schema that generated batches and the raw codec use: one
/// non-nullable field named `rand`.
pub open spec fn rand_schema() -> Seq<FieldView> {
    seq![FieldView { name: "rand"@, nullable: false }]
}

/// What a sequence of column buffers stands for in contracts.
pub open spec fn columns_view(columns: Seq<Vec<u64>>) -> Seq<Seq<u64>> {
    Seq::new(columns.len(), |i: int| columns[i]@)
}

/// What a batch stands for in contracts: its schema and, for each field in
/// schema order, the values of that field's column in row order.
#[verifier::ext_equal]
pub struct BatchView {
    pub schema: Seq<FieldView>,
    pub columns: Seq<Seq<u64>>,
}

impl BatchView {
    /// Number of rows: the length of the first column, and 0 where there is
    /// no column.
    pub open spec fn row_count(self) -> nat {
        if self.columns.len() == 0 {
            0
        } else {
            self.columns[0].len()
        }
    }

    /// There is one column for each field, and all columns have the same
    /// length.
    pub open spec fn well_formed(self) -> bool {
        &&& self.columns.len() == self.schema.len()
        &&& forall|i: int|
            0 <= i < self.columns.len() ==> (#[trigger] self.columns[i]).len() == self.row_count()
    }

    /// The batch has the schema [`rand_schema`] and `rows` rows.
    pub open spec fn is_rand_batch(self, rows: nat) -> bool {
        &&& self.schema == rand_schema()
        &&& self.columns.len() == 1
        &&& self.columns[0].len() == rows
    }
}

/// Why a schema and a set of columns do not make a batch.
#[derive(Clone, Copy, Debug, PartialEq, Eq, Structural)]
pub enum BatchError {
    /// The number of columns differs from the number of fields.
    ColumnCount,
    /// Some column is not as long as the first one.
    ColumnLength,
}

/// A columnar batch. It is never changed after it has been made.
#[derive(Debug)]
pub struct RandomData {
    schema: Schema,
    columns: Vec<Vec<u64>>,
}

impl View for RandomData {
    type V = BatchView;

    closed spec fn view(&self) -> BatchView {
        BatchView { schema: self.schema@, columns: columns_view(self.columns@) }
    }
}

/// Whether two columns hold the same values in the same order.
pub fn values_equal(a: &Vec<u64>, b: &Vec<u64>) -> (same: bool)
    ensures
        same == (a@ == b@),
{
    if a.len() != b.len() {
        return false;
    }
    let mut i: usize = 0;
    while i < a.len()
        invariant
            i <= a.len(),
            a.len() == b.len(),
            forall|k: int| 0 <= k < i ==> a@[k] == b@[k],
        decreases a.len() - i,
    {
        if a[i] != b[i] {
            return false;
        }
        i += 1;
    }
    assert(a@ =~= b@);
    true
}

impl RandomData {
    #[verifier::type_invariant]
    pub open spec fn valid(self) -> bool {
        self@.well_formed()
    }

    /// Makes a batch of the given schema and columns, or says why they do
    /// not make one.
    pub fn try_new(schema: Schema, columns: Vec<Vec<u64>>) -> (made: Result<RandomData, BatchError>)
        ensures
            match made {
                Ok(batch) => {
                    &&& batch@ == (BatchView {
                        schema: schema@,
                        columns: columns_view(columns@),
                    })
                    &&& batch@.well_formed()
                },
                Err(BatchError::ColumnCount) => columns@.len() != schema@.len(),
                Err(BatchError::ColumnLength) => {
                    &&& columns@.len() == schema@.len()
                    &&& exists|i: int|
                        0 <= i < columns@.len() && (#[trigger] columns@[i]).len() != columns@[0].len()
                },
            },
            made is Ok <==> (BatchView {
                schema: schema@,
                columns: columns_view(columns@),
            }).well_formed(),
    {
        let ghost candidate = BatchView { schema: schema@, columns: columns_view(columns@) };
        if columns.len() != schema.len() {
            return Err(BatchError::ColumnCount);
        }
        let mut i: usize = 0;
        while i < columns.len()
            invariant
                i <= columns.len(),
                columns@.len() == schema@.len(),
                candidate == (BatchView { schema: schema@, columns: columns_view(columns@) }),
                forall|k: int| 0 <= k < i ==> (#[trigger] columns@[k]).len() == columns@[0].len(),
            decreases columns.len() - i,
        {
            if columns[i].len() != columns[0].len() {
                assert(columns@[i as int].len() != columns@[0].len());
                assert(candidate.columns[i as int].len() != candidate.row_count());
                return Err(BatchError::ColumnLength);
            }
            i += 1;
        }
        assert(candidate.well_formed());
        Ok(RandomData { schema, columns })
    }

    /// Makes a batch of the schema [`rand_schema`] whose one column holds the
    /// given values.
    pub fn from_values(values: Vec<u64>) -> (batch: RandomData)
        ensures
            batch@ == (BatchView { schema: rand_schema(), columns: seq![values@] }),
            batch@.well_formed(),
    {
        let mut columns: Vec<Vec<u64>> = Vec::new();
        columns.push(values);
        let batch = RandomData { schema: Schema::rand(), columns };
        assert(batch@.columns =~= seq![values@]);
        batch
    }

    /// Generates a batch of the schema [`rand_schema`] with `row_count` rows,
    /// each value drawn independently at random. Never fails.
    pub fn new(row_count: usize) -> (batch: RandomData)
        ensures
            batch@.is_rand_batch(row_count as nat),
            batch@.well_formed(),
    {
        let mut values: Vec<u64> = Vec::new();
        let mut i: usize = 0;
        while i < row_count
            invariant
                i <= row_count,
                values@.len() == i,
            decreases row_count - i,
        {
            values.push(random_u64());
            i += 1;
        }
        RandomData::from_values(values)
    }

    pub fn schema(&self) -> (schema: &Schema)
        ensures
            schema@ == self@.schema,
    {
        &self.schema
    }

    pub fn columns(&self) -> (columns: &Vec<Vec<u64>>)
        ensures
            columns_view(columns@) == self@.columns,
            self@.well_formed(),
    {
        proof {
            use_type_invariant(self);
        }
        &self.columns
    }

    pub fn num_columns(&self) -> (n: usize)
        ensures
            n == self@.columns.len(),
            n == self@.schema.len(),
    {
        proof {
            use_type_invariant(self);
        }
        self.columns.len()
    }

    pub fn num_rows(&self) -> (n: usize)
        ensures
            n == self@.row_count(),
    {
        if self.columns.len() == 0 {
            0
        } else {
            self.columns[0].len()
        }
    }

    /// Structural equality: the same schema and, for every field, the same
    /// values in the same order. Where the buffers lie in memory plays no part.
    pub fn equals(&self, other: &RandomData) -> (same: bool)
        ensures
            same == (self@ == other@),
    {
        if !self.schema.equals(&other.schema) {
            return false;
        }
        if self.columns.len() != other.columns.len() {
            assert(self@.columns.len() != other@.columns.len());
            return false;
        }
        let mut i: usize = 0;
        while i < self.columns.len()
            invariant
                i <= self.columns.len(),
                self.columns.len() == other.columns.len(),
                forall|k: int| 0 <= k < i ==> self@.columns[k] == other@.columns[k],
            decreases self.columns.len() - i,
        {
            if !values_equal(&self.columns[i], &other.columns[i]) {
                assert(self@.columns[i as int] != other@.columns[i as int]);
                return false;
            }
            i += 1;
        }
        assert(self@.columns =~= other@.columns);
        true
    }
}

impl Clone for RandomData {
    fn clone(&self) -> (copy: RandomData)
        ensures
            copy@ == self@,
    {
        proof {
            use_type_invariant(self);
        }
        let mut columns: Vec<Vec<u64>> = Vec::new();
        let mut i: usize = 0;
        while i < self.columns.len()
            invariant
                i <= self.columns.len(),
                columns@.len() == i,
                forall|k: int| 0 <= k < i ==> columns@[k]@ == self.columns@[k]@,
            decreases self.columns.len() - i,
        {
            let column = self.columns[i].clone();
            assert(column@ =~= self.columns@[i as int]@);
            columns.push(column);
            i += 1;
        }
        assert(columns_view(columns@) =~= columns_view(self.columns@));
        RandomData { schema: self.schema.clone(), columns }
    }
}

impl PartialEq for RandomData {
    fn eq(&self, other: &RandomData) -> (same: bool) {
        self.equals(other)
    }
}

impl vstd::std_specs::cmp::PartialEqSpecImpl for RandomData {
    open spec fn obeys_eq_spec() -> bool {
        true
    }

    open spec fn eq_spec(&self, other: &RandomData) -> bool {
        self@ == other@
    }
}

impl Default for RandomData {
    /// A generated batch of [`ROW_COUNT`] rows.
    fn default() -> (batch: RandomData)
        ensures
            batch@.is_rand_batch(ROW_COUNT as nat),
    {
        RandomData::new(ROW_COUNT)
    }
}

} // verus!
