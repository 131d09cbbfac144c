//! Single values and the data types of columns.

use vstd::prelude::*;

verus! {

/// What a value of a column is, apart from whether it may be null.
#[derive(Clone, Copy, Debug, PartialEq, Eq, Structural)]
pub enum TypeKind {
    Boolean,
    Int64,
    UInt64,
    String,
    /// A semi-structured value in its binary encoding.
    Variant,
}

/// The type of a column: a kind, and whether nulls may occur.
#[derive(Clone, Copy, Debug, PartialEq, Eq, Structural)]
pub struct DataType {
    pub kind: TypeKind,
    pub nullable: bool,
}

impl DataType {
    /// The type with the given kind that admits no nulls.
    pub fn of(kind: TypeKind) -> (t: DataType)
        ensures
            t == (DataType { kind, nullable: false }),
    {
        DataType { kind, nullable: false }
    }

    /// The same kind, nulls admitted.
    pub fn wrap_nullable(&self) -> (t: DataType)
        ensures
            t == (DataType { kind: self.kind, nullable: true }),
    {
        DataType { kind: self.kind, nullable: true }
    }

    /// The same kind, nulls not admitted.
    pub fn remove_nullable(&self) -> (t: DataType)
        ensures
            t == (DataType { kind: self.kind, nullable: false }),
    {
        DataType { kind: self.kind, nullable: false }
    }

    /// Whether nulls may occur.
    pub fn is_nullable(&self) -> (b: bool)
        ensures
            b == self.nullable,
    {
        self.nullable
    }
}

/// One value.
#[derive(Debug)]
pub enum Scalar {
    Null,
    Boolean(bool),
    Int64(i64),
    UInt64(u64),
    String(Vec<u8>),
    Variant(Vec<u8>),
}

/// The mathematical value of a [`Scalar`].
pub enum ScalarView {
    Null,
    Boolean(bool),
    Int64(i64),
    UInt64(u64),
    String(Seq<u8>),
    Variant(Seq<u8>),
}

impl View for Scalar {
    type V = ScalarView;

    open spec fn view(&self) -> ScalarView {
        match self {
            Scalar::Null => ScalarView::Null,
            Scalar::Boolean(b) => ScalarView::Boolean(*b),
            Scalar::Int64(v) => ScalarView::Int64(*v),
            Scalar::UInt64(v) => ScalarView::UInt64(*v),
            Scalar::String(s) => ScalarView::String(s@),
            Scalar::Variant(s) => ScalarView::Variant(s@),
        }
    }
}

impl ScalarView {
    /// Whether this value may stand in a column of kind `kind`.
    pub open spec fn fits(self, kind: TypeKind) -> bool {
        match self {
            ScalarView::Null => true,
            ScalarView::Boolean(_) => kind == TypeKind::Boolean,
            ScalarView::Int64(_) => kind == TypeKind::Int64,
            ScalarView::UInt64(_) => kind == TypeKind::UInt64,
            ScalarView::String(_) => kind == TypeKind::String,
            ScalarView::Variant(_) => kind == TypeKind::Variant,
        }
    }
}

/// Whether two byte strings hold the same bytes.
pub fn bytes_equal(a: &Vec<u8>, b: &Vec<u8>) -> (same: bool)
    ensures
        same == (a@ == b@),
{
    if a.len() != b.len() {
        return false;
    }
    let mut i: usize = 0;
    while i < a.len()
        invariant
            a.len() == b.len(),
            i <= a.len(),
            a@.subrange(0, i as int) == b@.subrange(0, i as int),
        decreases a.len() - i,
    {
        if a[i] != b[i] {
            assert(a@[i as int] != b@[i as int]);
            return false;
        }
        assert(a@.subrange(0, i + 1) == a@.subrange(0, i as int).push(a@[i as int]));
        assert(b@.subrange(0, i + 1) == b@.subrange(0, i as int).push(b@[i as int]));
        i = i + 1;
    }
    assert(a@ == a@.subrange(0, a.len() as int));
    assert(b@ == b@.subrange(0, b.len() as int));
    true
}

impl Scalar {
    /// Whether the two values are the same value.
    pub fn equals(&self, other: &Scalar) -> (same: bool)
        ensures
            same == (self@ == other@),
    {
        match (self, other) {
            (Scalar::Null, Scalar::Null) => true,
            (Scalar::Boolean(a), Scalar::Boolean(b)) => *a == *b,
            (Scalar::Int64(a), Scalar::Int64(b)) => *a == *b,
            (Scalar::UInt64(a), Scalar::UInt64(b)) => *a == *b,
            (Scalar::String(a), Scalar::String(b)) => bytes_equal(a, b),
            (Scalar::Variant(a), Scalar::Variant(b)) => bytes_equal(a, b),
            _ => false,
        }
    }

    /// A copy of this value.
    pub fn duplicate(&self) -> (copy: Scalar)
        ensures
            copy@ == self@,
    {
        match self {
            Scalar::Null => Scalar::Null,
            Scalar::Boolean(b) => Scalar::Boolean(*b),
            Scalar::Int64(v) => Scalar::Int64(*v),
            Scalar::UInt64(v) => Scalar::UInt64(*v),
            Scalar::String(s) => Scalar::String(s.clone()),
            Scalar::Variant(s) => Scalar::Variant(s.clone()),
        }
    }

    /// Whether this value is the null.
    pub fn is_null(&self) -> (b: bool)
        ensures
            b == (self@ is Null),
    {
        match self {
            Scalar::Null => true,
            _ => false,
        }
    }
}

} // verus!
