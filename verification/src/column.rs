//! Columns of values, as they flow through a pipeline in blocks.

use crate::scalar::DataType;
use crate::scalar::Scalar;
use crate::scalar::TypeKind;
use vstd::prelude::*;
use vstd::slice::slice_subrange;

verus! {

/// A column of byte strings: the bytes of all rows one after the other,
/// and the place where each row starts.
#[derive(Debug)]
pub struct StringColumn {
    pub data: Vec<u8>,
    /// One more offset than there are rows: row `i` is the bytes from
    /// `offsets[i]` up to `offsets[i + 1]`.
    pub offsets: Vec<usize>,
}

/// Whether `offsets` cut `len` bytes into consecutive rows.
pub open spec fn offsets_ok(offsets: Seq<usize>, len: nat) -> bool {
    &&& offsets.len() >= 1
    &&& offsets[0] == 0
    &&& forall|i: int, j: int| 0 <= i <= j < offsets.len() ==> offsets[i] <= offsets[j]
    &&& offsets.last() <= len
}

/// The rows that `offsets` cut out of `data`.
pub open spec fn rows_of(data: Seq<u8>, offsets: Seq<usize>) -> Seq<Seq<u8>> {
    Seq::new(
        (offsets.len() - 1) as nat,
        |i: int| data.subrange(offsets[i] as int, offsets[i + 1] as int),
    )
}

impl View for StringColumn {
    type V = Seq<Seq<u8>>;

    open spec fn view(&self) -> Seq<Seq<u8>> {
        rows_of(self.data@, self.offsets@)
    }
}

impl StringColumn {
    /// The offsets cut all the bytes into consecutive rows.
    pub open spec fn wf(&self) -> bool {
        offsets_ok(self.offsets@, self.data@.len()) && self.offsets@.last() == self.data@.len()
    }

    /// The number of rows.
    pub fn len(&self) -> (n: usize)
        requires
            self.wf(),
        ensures
            n == self@.len(),
    {
        self.offsets.len() - 1
    }

    /// The bytes of row `index`.
    pub fn row(&self, index: usize) -> (bytes: &[u8])
        requires
            self.wf(),
            index < self@.len(),
        ensures
            bytes@ == self@[index as int],
    {
        let n = self.offsets.len();
        assert(index + 1 < n);
        let start = self.offsets[index];
        let end = self.offsets[index + 1];
        assert(start <= end && end <= self.offsets@.last());
        slice_subrange(self.data.as_slice(), start, end)
    }

    /// A copy of this column.
    pub fn duplicate(&self) -> (copy: StringColumn)
        ensures
            copy.data@ == self.data@,
            copy.offsets@ == self.offsets@,
            copy@ == self@,
            self.wf() ==> copy.wf(),
    {
        StringColumn { data: self.data.clone(), offsets: self.offsets.clone() }
    }

    /// This column as a generic column of strings.
    pub fn to_column(&self) -> (column: Column)
        ensures
            column.data matches ColumnData::String(rows) && rows@ == self@ && (self.wf()
                ==> rows.wf()),
            column.validity is None,
    {
        Column { data: ColumnData::String(self.duplicate()), validity: None }
    }

    /// The rows of a generic column, where it is a column of strings
    /// without nulls.
    pub fn from_column(column: Column) -> (rows: Option<StringColumn>)
        ensures
            match rows {
                Some(r) => column.validity is None && column.data == ColumnData::String(r),
                None => !(column.validity is None && column.data is String),
            },
    {
        match column.validity {
            Some(_) => None,
            None => match column.data {
                ColumnData::String(rows) => Some(rows),
                _ => None,
            },
        }
    }
}

/// A column of byte strings in the making. Bytes are appended to `data`;
/// committing a row ends it where the bytes end.
#[derive(Debug)]
pub struct StringColumnBuilder {
    pub data: Vec<u8>,
    pub offsets: Vec<usize>,
}

impl StringColumnBuilder {
    /// The offsets cut the bytes of the committed rows into consecutive
    /// rows; what lies behind them belongs to the row in the making.
    pub open spec fn wf(&self) -> bool {
        offsets_ok(self.offsets@, self.data@.len())
    }

    /// The rows committed so far.
    pub open spec fn rows(&self) -> Seq<Seq<u8>> {
        rows_of(self.data@, self.offsets@)
    }

    /// The bytes of the row in the making.
    pub open spec fn pending(&self) -> Seq<u8> {
        self.data@.skip(self.offsets@.last() as int)
    }

    /// A builder with no row, with room for `rows` rows and `bytes` bytes.
    pub fn with_capacity(rows: usize, bytes: usize) -> (builder: StringColumnBuilder)
        ensures
            builder.wf(),
            builder.rows().len() == 0,
            builder.pending().len() == 0,
    {
        let mut offsets: Vec<usize> = Vec::with_capacity(rows);
        offsets.push(0);
        StringColumnBuilder { data: Vec::with_capacity(bytes), offsets }
    }

    /// Appends `bytes` to the row in the making.
    pub fn put_slice(&mut self, bytes: &[u8])
        requires
            old(self).wf(),
        ensures
            final(self).wf(),
            final(self).rows() == old(self).rows(),
            final(self).pending() == old(self).pending() + bytes@,
    {
        self.data.extend_from_slice(bytes);
        proof {
            assert(self.data@.take(old(self).data@.len() as int) =~= old(self).data@);
            lemma_rows_ignore_tail(old(self).data@, self.data@, self.offsets@);
            assert(self.pending() =~= old(self).pending() + bytes@);
        }
    }

    /// Ends the row in the making and starts an empty one.
    pub fn commit_row(&mut self)
        requires
            old(self).wf(),
        ensures
            final(self).wf(),
            final(self).rows() == old(self).rows().push(old(self).pending()),
            final(self).pending().len() == 0,
            final(self).data@ == old(self).data@,
    {
        self.offsets.push(self.data.len());
        assert(self.rows() =~= old(self).rows().push(old(self).pending()));
    }

    /// The column of the committed rows. A row in the making must have
    /// been committed.
    pub fn build(self) -> (column: StringColumn)
        requires
            self.wf(),
            self.pending().len() == 0,
        ensures
            column.wf(),
            column@ == self.rows(),
    {
        StringColumn { data: self.data, offsets: self.offsets }
    }
}

/// Bytes behind the last offset belong to no row.
pub proof fn lemma_rows_ignore_tail(before: Seq<u8>, after: Seq<u8>, offsets: Seq<usize>)
    requires
        offsets_ok(offsets, before.len()),
        before.len() <= after.len(),
        after.take(before.len() as int) == before,
    ensures
        offsets_ok(offsets, after.len()),
        rows_of(after, offsets) == rows_of(before, offsets),
{
    assert forall|i: int| 0 <= i < offsets.len() - 1 implies #[trigger] rows_of(after, offsets)[i]
        == rows_of(before, offsets)[i] by {
        assert(offsets[i] <= offsets[i + 1]);
        assert(offsets[i + 1] <= offsets[offsets.len() - 1]);
        assert(after.subrange(offsets[i] as int, offsets[i + 1] as int) =~= after.take(
            before.len() as int,
        ).subrange(offsets[i] as int, offsets[i + 1] as int));
    }
    assert(rows_of(after, offsets) =~= rows_of(before, offsets));
}

/// The values of a column, without regard to nulls.
#[derive(Debug)]
pub enum ColumnData {
    Boolean(Vec<bool>),
    Int64(Vec<i64>),
    UInt64(Vec<u64>),
    String(StringColumn),
    /// Semi-structured values in their binary encoding.
    Variant(StringColumn),
}

impl ColumnData {
    /// The kind of the values.
    pub open spec fn spec_kind(&self) -> TypeKind {
        match self {
            ColumnData::Boolean(_) => TypeKind::Boolean,
            ColumnData::Int64(_) => TypeKind::Int64,
            ColumnData::UInt64(_) => TypeKind::UInt64,
            ColumnData::String(_) => TypeKind::String,
            ColumnData::Variant(_) => TypeKind::Variant,
        }
    }

    /// The number of values.
    pub open spec fn spec_len(&self) -> nat {
        match self {
            ColumnData::Boolean(v) => v@.len(),
            ColumnData::Int64(v) => v@.len(),
            ColumnData::UInt64(v) => v@.len(),
            ColumnData::String(rows) => rows@.len(),
            ColumnData::Variant(rows) => rows@.len(),
        }
    }

    /// The byte columns are well formed.
    pub open spec fn wf(&self) -> bool {
        match self {
            ColumnData::String(rows) => rows.wf(),
            ColumnData::Variant(rows) => rows.wf(),
            _ => true,
        }
    }

    /// The kind of the values.
    #[verifier::when_used_as_spec(spec_kind)]
    pub fn kind(&self) -> (kind: TypeKind)
        ensures
            kind == self.spec_kind(),
    {
        match self {
            ColumnData::Boolean(_) => TypeKind::Boolean,
            ColumnData::Int64(_) => TypeKind::Int64,
            ColumnData::UInt64(_) => TypeKind::UInt64,
            ColumnData::String(_) => TypeKind::String,
            ColumnData::Variant(_) => TypeKind::Variant,
        }
    }

    /// The number of values.
    pub fn len(&self) -> (n: usize)
        requires
            self.wf(),
        ensures
            n == self.spec_len(),
    {
        match self {
            ColumnData::Boolean(v) => v.len(),
            ColumnData::Int64(v) => v.len(),
            ColumnData::UInt64(v) => v.len(),
            ColumnData::String(rows) => rows.len(),
            ColumnData::Variant(rows) => rows.len(),
        }
    }
}

/// A column: its values, and for a nullable column which of them count.
/// Where `validity` is present, row `i` is null unless `validity[i]`.
#[derive(Debug)]
pub struct Column {
    pub data: ColumnData,
    pub validity: Option<Vec<bool>>,
}

impl Column {
    /// The byte columns are well formed, and there is one validity mark
    /// for each value.
    pub open spec fn wf(&self) -> bool {
        &&& self.data.wf()
        &&& self.validity matches Some(marks) ==> marks@.len() == self.data.spec_len()
    }

    /// The number of rows.
    pub open spec fn spec_len(&self) -> nat {
        self.data.spec_len()
    }

    /// Whether row `i` holds a value.
    pub open spec fn is_valid(&self, i: int) -> bool {
        match self.validity {
            Some(marks) => marks@[i],
            None => true,
        }
    }

    /// The type of the column.
    pub open spec fn spec_data_type(&self) -> DataType {
        DataType { kind: self.data.spec_kind(), nullable: self.validity is Some }
    }

    /// The number of rows.
    pub fn len(&self) -> (n: usize)
        requires
            self.wf(),
        ensures
            n == self.spec_len(),
    {
        self.data.len()
    }

    /// The type of the column.
    #[verifier::when_used_as_spec(spec_data_type)]
    pub fn data_type(&self) -> (t: DataType)
        ensures
            t == self.spec_data_type(),
    {
        DataType { kind: self.data.kind(), nullable: self.validity.is_some() }
    }

    /// The validity marks of a nullable column.
    pub fn validity(&self) -> (marks: Option<&Vec<bool>>)
        ensures
            match marks {
                Some(m) => self.validity == Some(*m),
                None => self.validity is None,
            },
    {
        match &self.validity {
            Some(m) => Some(m),
            None => None,
        }
    }

    /// The byte strings of a column of semi-structured values.
    pub fn as_variant(&self) -> (rows: Option<&StringColumn>)
        ensures
            match rows {
                Some(r) => self.data == ColumnData::Variant(*r),
                None => !(self.data is Variant),
            },
    {
        match &self.data {
            ColumnData::Variant(rows) => Some(rows),
            _ => None,
        }
    }

    /// The byte strings of a column of strings.
    pub fn as_string(&self) -> (rows: Option<&StringColumn>)
        ensures
            match rows {
                Some(r) => self.data == ColumnData::String(*r),
                None => !(self.data is String),
            },
    {
        match &self.data {
            ColumnData::String(rows) => Some(rows),
            _ => None,
        }
    }
}

/// What a block holds for one of its columns: one value for every row, or
/// a column of values.
#[derive(Debug)]
pub enum Value {
    Scalar(Scalar),
    Column(Column),
}

/// One column of a block, with its type.
#[derive(Debug)]
pub struct BlockEntry {
    pub data_type: DataType,
    pub value: Value,
}

} // verus!
