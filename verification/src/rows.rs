//! The row encoder: from the typed values of the sort columns of a row to
//! one byte string, such that the bytewise order of the encoded rows is
//! the order that the sort asks for.
//!
//! Each field is encoded by itself and the encodings are put one after
//! the other. A null is one byte, which sorts before or behind every value
//! as the field asks. A value is a marker byte and its body: a boolean is
//! one byte; an integer is its eight bytes, the high byte first, a signed
//! one shifted so that the least comes out as zero; a byte string is its
//! bytes with every zero byte followed by `0xFF`, and two zero bytes at
//! the end. For a descending field every byte of the body is inverted.

use crate::order::int_order;
use crate::order::lemma_lex_equal;
use crate::order::lemma_precedes_before_suffix;
use crate::order::lemma_precedes_behind_prefix;
use crate::order::lemma_precedes_decides;
use crate::order::lex_order;
use crate::order::precedes;
use crate::order::precedes_at;
use crate::order::Order;
use crate::column::BlockEntry;
use crate::column::Column;
use crate::column::ColumnData;
use crate::column::StringColumn;
use crate::column::StringColumnBuilder;
use crate::column::Value;
use crate::error::ErrorCode;
use crate::error::ErrorKind;
use crate::plan::DataSchema;
use crate::scalar::DataType;
use crate::scalar::Scalar;
use crate::scalar::ScalarView;
use crate::scalar::TypeKind;
use crate::variant::comparable_form;
use crate::variant::convert_to_comparable;
use crate::variant::is_transcodable;
use crate::variant::transcodable;
use vstd::prelude::*;

verus! {

/// A value as the sort sees it.
pub enum KeyValue {
    Boolean(bool),
    Int64(i64),
    UInt64(u64),
    /// A string, or a semi-structured value in its comparable form. Two
    /// semi-structured values sort as their comparable forms do, and so as
    /// the transcoder orders them: booleans first, then numbers, strings,
    /// objects and arrays, and null last.
    Bytes(Seq<u8>),
}

impl KeyValue {
    /// Whether the two values are of one kind, so that they have an order.
    pub open spec fn same_kind(self, other: KeyValue) -> bool {
        match (self, other) {
            (KeyValue::Boolean(_), KeyValue::Boolean(_)) => true,
            (KeyValue::Int64(_), KeyValue::Int64(_)) => true,
            (KeyValue::UInt64(_), KeyValue::UInt64(_)) => true,
            (KeyValue::Bytes(_), KeyValue::Bytes(_)) => true,
            _ => false,
        }
    }
}

/// One field of a sort: the type of its column and the order it asks for.
#[derive(Clone, Copy, Debug, PartialEq, Eq, Structural)]
pub struct SortField {
    pub data_type: DataType,
    pub asc: bool,
    pub nulls_first: bool,
}

impl SortField {
    /// The field of the given type and order.
    pub fn new_with_options(data_type: DataType, asc: bool, nulls_first: bool) -> (field: SortField)
        ensures
            field == (SortField { data_type, asc, nulls_first }),
    {
        SortField { data_type, asc, nulls_first }
    }
}

/// The order of two values of one kind: `false` before `true`, integers
/// by size, byte strings bytewise.
pub open spec fn value_order(a: KeyValue, b: KeyValue) -> Order {
    match (a, b) {
        (KeyValue::Boolean(x), KeyValue::Boolean(y)) => int_order(
            if x {
                1int
            } else {
                0int
            },
            if y {
                1int
            } else {
                0int
            },
        ),
        (KeyValue::Int64(x), KeyValue::Int64(y)) => int_order(x as int, y as int),
        (KeyValue::UInt64(x), KeyValue::UInt64(y)) => int_order(x as int, y as int),
        (KeyValue::Bytes(x), KeyValue::Bytes(y)) => lex_order(x, y),
        _ => Order::Equal,
    }
}

/// The order that a field asks for between two of its values, either of
/// which may be null: nulls first or last as the field says, whichever
/// way it sorts; values in their own order for an ascending field and in
/// the reverse of it for a descending one.
pub open spec fn field_order(field: SortField, a: Option<KeyValue>, b: Option<KeyValue>) -> Order {
    match (a, b) {
        (None, None) => Order::Equal,
        (None, Some(_)) => if field.nulls_first {
            Order::Less
        } else {
            Order::Greater
        },
        (Some(_), None) => if field.nulls_first {
            Order::Greater
        } else {
            Order::Less
        },
        (Some(x), Some(y)) => if field.asc {
            value_order(x, y)
        } else {
            value_order(x, y).reverse()
        },
    }
}

/// The order that a sort asks for between two rows: that of the first
/// field in which the rows differ.
pub open spec fn row_order(
    fields: Seq<SortField>,
    a: Seq<Option<KeyValue>>,
    b: Seq<Option<KeyValue>>,
) -> Order
    decreases fields.len(),
{
    if fields.len() == 0 {
        Order::Equal
    } else {
        let earlier = row_order(fields.drop_last(), a.drop_last(), b.drop_last());
        if earlier != Order::Equal {
            earlier
        } else {
            field_order(fields.last(), a.last(), b.last())
        }
    }
}

/// Whether two values of one column can be compared: a null with
/// anything, two values where they are of one kind.
pub open spec fn comparable(a: Option<KeyValue>, b: Option<KeyValue>) -> bool {
    match (a, b) {
        (Some(x), Some(y)) => x.same_kind(y),
        _ => true,
    }
}

/// Whether two rows have a value for every field, of one kind in each.
pub open spec fn rows_comparable(
    fields: Seq<SortField>,
    a: Seq<Option<KeyValue>>,
    b: Seq<Option<KeyValue>>,
) -> bool {
    &&& a.len() == fields.len()
    &&& b.len() == fields.len()
    &&& forall|i: int| 0 <= i < fields.len() ==> comparable(#[trigger] a[i], b[i])
}

/// 256 to the power `width`.
pub open spec fn pow256(width: nat) -> nat
    decreases width,
{
    if width == 0 {
        1
    } else {
        256 * pow256((width - 1) as nat)
    }
}

/// The low `width` bytes of `n`, the high byte first.
pub open spec fn be_bytes(n: nat, width: nat) -> Seq<u8>
    decreases width,
{
    if width == 0 {
        Seq::empty()
    } else {
        be_bytes(n / 256, (width - 1) as nat).push((n % 256) as u8)
    }
}

/// What stands for one byte of a string in its encoding: the byte, and
/// behind a zero byte the byte `0xFF`.
pub open spec fn escape_byte(b: u8) -> Seq<u8> {
    if b == 0 {
        seq![0u8, 0xFFu8]
    } else {
        seq![b]
    }
}

/// The bytes of a string, each escaped.
pub open spec fn escape(s: Seq<u8>) -> Seq<u8>
    decreases s.len(),
{
    if s.len() == 0 {
        Seq::empty()
    } else {
        escape(s.drop_last()) + escape_byte(s.last())
    }
}

/// The encoding of a byte string: its escaped bytes and two zero bytes.
pub open spec fn encode_bytes(s: Seq<u8>) -> Seq<u8> {
    escape(s) + seq![0u8, 0u8]
}

/// Every byte taken from 255.
pub open spec fn invert(s: Seq<u8>) -> Seq<u8> {
    Seq::new(s.len(), |i: int| (255 - s[i]) as u8)
}

/// The body of a value's encoding.
pub open spec fn value_body(v: KeyValue) -> Seq<u8> {
    match v {
        KeyValue::Boolean(b) => seq![
            if b {
                1u8
            } else {
                0u8
            },
        ],
        KeyValue::Int64(x) => be_bytes((x + 0x8000_0000_0000_0000) as nat, 8),
        KeyValue::UInt64(x) => be_bytes(x as nat, 8),
        KeyValue::Bytes(s) => encode_bytes(s),
    }
}

/// The byte that stands for a null of the field.
pub open spec fn null_sentinel(field: SortField) -> u8 {
    if field.nulls_first {
        0u8
    } else {
        0xFFu8
    }
}

/// The encoding of one value of a field, or of a null.
pub open spec fn encode_field(field: SortField, v: Option<KeyValue>) -> Seq<u8> {
    match v {
        None => seq![null_sentinel(field)],
        Some(x) => seq![1u8] + if field.asc {
            value_body(x)
        } else {
            invert(value_body(x))
        },
    }
}

/// The encoding of a row: the encodings of its fields, one after the
/// other.
pub open spec fn encode_row(fields: Seq<SortField>, row: Seq<Option<KeyValue>>) -> Seq<u8>
    decreases fields.len(),
{
    if fields.len() == 0 {
        Seq::empty()
    } else {
        encode_row(fields.drop_last(), row.drop_last()) + encode_field(fields.last(), row.last())
    }
}

/// `a` and `b` encode in the order `order`, and the order is decided
/// inside both encodings.
pub open spec fn encoded_in_order(order: Order, a: Seq<u8>, b: Seq<u8>) -> bool {
    match order {
        Order::Less => precedes(a, b),
        Order::Equal => a == b,
        Order::Greater => precedes(b, a),
    }
}

proof fn lemma_be_bytes_len(n: nat, width: nat)
    ensures
        be_bytes(n, width).len() == width,
    decreases width,
{
    if width > 0 {
        lemma_be_bytes_len(n / 256, (width - 1) as nat);
    }
}

/// Of two numbers that fit `width` bytes, the smaller one has the bytes
/// that sort first.
pub proof fn lemma_be_bytes_order(a: nat, b: nat, width: nat)
    requires
        a < b,
        b < pow256(width),
    ensures
        precedes(be_bytes(a, width), be_bytes(b, width)),
    decreases width,
{
    if width > 0 {
        let high_a = be_bytes(a / 256, (width - 1) as nat);
        let high_b = be_bytes(b / 256, (width - 1) as nat);
        lemma_be_bytes_len(a / 256, (width - 1) as nat);
        lemma_be_bytes_len(b / 256, (width - 1) as nat);
        if a / 256 < b / 256 {
            lemma_be_bytes_order(a / 256, b / 256, (width - 1) as nat);
            lemma_precedes_before_suffix(
                high_a,
                high_b,
                seq![(a % 256) as u8],
                seq![(b % 256) as u8],
            );
            assert(be_bytes(a, width) =~= high_a + seq![(a % 256) as u8]);
            assert(be_bytes(b, width) =~= high_b + seq![(b % 256) as u8]);
        } else {
            assert(a / 256 == b / 256);
            let x = be_bytes(a, width);
            let y = be_bytes(b, width);
            assert(x.take(width - 1) =~= high_a);
            assert(y.take(width - 1) =~= high_b);
            assert(precedes_at(x, y, width - 1));
        }
    }
}

/// Escaping goes through a string piece by piece.
pub proof fn lemma_escape_concat(a: Seq<u8>, b: Seq<u8>)
    ensures
        escape(a + b) == escape(a) + escape(b),
    decreases b.len(),
{
    if b.len() == 0 {
        assert(a + b =~= a);
        assert(escape(a) + escape(b) =~= escape(a));
    } else {
        assert((a + b).drop_last() =~= a + b.drop_last());
        lemma_escape_concat(a, b.drop_last());
        assert(escape(a + b) =~= escape(a) + escape(b));
    }
}

/// The escaping of a string that starts with the byte `first`.
proof fn lemma_escape_front(first: u8, rest: Seq<u8>)
    ensures
        escape(seq![first] + rest) == escape_byte(first) + escape(rest),
{
    lemma_escape_concat(seq![first], rest);
    let one = seq![first];
    assert(one.drop_last() =~= Seq::<u8>::empty());
    assert(one.last() == first);
    assert(escape(one.drop_last()) =~= Seq::<u8>::empty());
    assert(escape(one) == escape(one.drop_last()) + escape_byte(one.last()));
    assert(escape(one) =~= escape_byte(first));
}

/// A string that sorts before another either differs from it first in a
/// smaller byte, or starts it and is shorter.
pub proof fn lemma_lex_less(x: Seq<u8>, y: Seq<u8>)
    requires
        lex_order(x, y) == Order::Less,
    ensures
        precedes(x, y) || (x.len() < y.len() && y.take(x.len() as int) == x),
    decreases x.len(),
{
    if x.len() == 0 {
        assert(y.take(0) =~= x);
    } else if x[0] < y[0] {
        assert(x.take(0) =~= y.take(0));
        assert(precedes_at(x, y, 0));
    } else {
        lemma_lex_less(x.skip(1), y.skip(1));
        assert(x =~= seq![x[0]] + x.skip(1));
        assert(y =~= seq![x[0]] + y.skip(1));
        if precedes(x.skip(1), y.skip(1)) {
            lemma_precedes_behind_prefix(seq![x[0]], x.skip(1), y.skip(1));
        } else {
            assert(y.take(x.len() as int) =~= seq![x[0]] + y.skip(1).take(x.len() - 1));
        }
    }
}

/// The encodings of two byte strings stand in the order of the strings,
/// and the order is decided inside both encodings.
pub proof fn lemma_bytes_order(x: Seq<u8>, y: Seq<u8>)
    ensures
        encoded_in_order(lex_order(x, y), encode_bytes(x), encode_bytes(y)),
{
    match lex_order(x, y) {
        Order::Less => {
            lemma_bytes_less(x, y);
        },
        Order::Equal => {
            lemma_lex_equal(x, y);
        },
        Order::Greater => {
            crate::order::lemma_lex_reverse(x, y);
            lemma_bytes_less(y, x);
        },
    }
}

proof fn lemma_bytes_less(x: Seq<u8>, y: Seq<u8>)
    requires
        lex_order(x, y) == Order::Less,
    ensures
        precedes(encode_bytes(x), encode_bytes(y)),
{
    let end = seq![0u8, 0u8];
    lemma_lex_less(x, y);
    if precedes(x, y) {
        let i = choose|i: int| precedes_at(x, y, i);
        let p = x.take(i);
        let x_tail = x.skip(i + 1);
        let y_tail = y.skip(i + 1);
        assert(x =~= p + (seq![x[i]] + x_tail));
        assert(y =~= p + (seq![y[i]] + y_tail));
        lemma_escape_concat(p, seq![x[i]] + x_tail);
        lemma_escape_concat(p, seq![y[i]] + y_tail);
        lemma_escape_front(x[i], x_tail);
        lemma_escape_front(y[i], y_tail);
        let a = escape_byte(x[i]);
        let b = escape_byte(y[i]);
        assert(a.take(0) =~= b.take(0));
        assert(precedes_at(a, b, 0));
        lemma_precedes_before_suffix(a, b, escape(x_tail) + end, escape(y_tail) + end);
        lemma_precedes_behind_prefix(
            escape(p),
            a + (escape(x_tail) + end),
            b + (escape(y_tail) + end),
        );
        assert(encode_bytes(x) =~= escape(p) + (a + (escape(x_tail) + end)));
        assert(encode_bytes(y) =~= escape(p) + (b + (escape(y_tail) + end)));
    } else {
        let n = x.len() as int;
        let y_tail = y.skip(n + 1);
        assert(y =~= x + (seq![y[n]] + y_tail));
        lemma_escape_concat(x, seq![y[n]] + y_tail);
        lemma_escape_front(y[n], y_tail);
        let b = escape_byte(y[n]) + (escape(y_tail) + end);
        if y[n] == 0 {
            assert(end.take(1) =~= b.take(1));
            assert(precedes_at(end, b, 1));
        } else {
            assert(end.take(0) =~= b.take(0));
            assert(precedes_at(end, b, 0));
        }
        lemma_precedes_behind_prefix(escape(x), end, b);
        assert(encode_bytes(y) =~= escape(x) + b);
    }
}

/// Inverting every byte turns a deciding byte round.
pub proof fn lemma_invert_reverses(a: Seq<u8>, b: Seq<u8>)
    requires
        precedes(a, b),
    ensures
        precedes(invert(b), invert(a)),
{
    let i = choose|i: int| precedes_at(a, b, i);
    assert(invert(b).take(i) =~= invert(a).take(i)) by {
        assert forall|k: int| 0 <= k < i implies invert(b).take(i)[k] == invert(a).take(i)[k] by {
            assert(a.take(i)[k] == b.take(i)[k]);
        }
    }
    assert(precedes_at(invert(b), invert(a), i));
}

/// The bodies of two values of one kind stand in the order of the values,
/// and the order is decided inside both bodies.
pub proof fn lemma_value_order(x: KeyValue, y: KeyValue)
    requires
        x.same_kind(y),
    ensures
        encoded_in_order(value_order(x, y), value_body(x), value_body(y)),
        value_order(x, y) == Order::Equal ==> x == y,
{
    assert(pow256(8) == 0x1_0000_0000_0000_0000) by {
        reveal_with_fuel(pow256, 9);
    }
    match (x, y) {
        (KeyValue::Boolean(p), KeyValue::Boolean(q)) => {
            let a = value_body(x);
            let b = value_body(y);
            assert(a.take(0) =~= b.take(0));
            if !p && q {
                assert(precedes_at(a, b, 0));
            }
            if p && !q {
                assert(precedes_at(b, a, 0));
            }
        },
        (KeyValue::Int64(p), KeyValue::Int64(q)) => {
            let a = (p + 0x8000_0000_0000_0000) as nat;
            let b = (q + 0x8000_0000_0000_0000) as nat;
            if p < q {
                lemma_be_bytes_order(a, b, 8);
            }
            if q < p {
                lemma_be_bytes_order(b, a, 8);
            }
        },
        (KeyValue::UInt64(p), KeyValue::UInt64(q)) => {
            if p < q {
                lemma_be_bytes_order(p as nat, q as nat, 8);
            }
            if q < p {
                lemma_be_bytes_order(q as nat, p as nat, 8);
            }
        },
        (KeyValue::Bytes(p), KeyValue::Bytes(q)) => {
            lemma_bytes_order(p, q);
            lemma_lex_equal(p, q);
        },
        _ => {},
    }
}

/// The encodings of two values of a field stand in the order that the
/// field asks for, and the order is decided inside both encodings.
pub proof fn lemma_field_order(field: SortField, a: Option<KeyValue>, b: Option<KeyValue>)
    requires
        comparable(a, b),
    ensures
        encoded_in_order(field_order(field, a, b), encode_field(field, a), encode_field(field, b)),
{
    let ea = encode_field(field, a);
    let eb = encode_field(field, b);
    match (a, b) {
        (None, None) => {},
        (None, Some(_)) => {
            assert(ea.take(0) =~= eb.take(0));
            if field.nulls_first {
                assert(precedes_at(ea, eb, 0));
            } else {
                assert(precedes_at(eb, ea, 0));
            }
        },
        (Some(_), None) => {
            assert(ea.take(0) =~= eb.take(0));
            if field.nulls_first {
                assert(precedes_at(eb, ea, 0));
            } else {
                assert(precedes_at(ea, eb, 0));
            }
        },
        (Some(x), Some(y)) => {
            lemma_value_order(x, y);
            let bx = value_body(x);
            let by = value_body(y);
            let mark = seq![1u8];
            match value_order(x, y) {
                Order::Less => {
                    if field.asc {
                        lemma_precedes_behind_prefix(mark, bx, by);
                    } else {
                        lemma_invert_reverses(bx, by);
                        lemma_precedes_behind_prefix(mark, invert(by), invert(bx));
                    }
                },
                Order::Equal => {},
                Order::Greater => {
                    if field.asc {
                        lemma_precedes_behind_prefix(mark, by, bx);
                    } else {
                        lemma_invert_reverses(by, bx);
                        lemma_precedes_behind_prefix(mark, invert(bx), invert(by));
                    }
                },
            }
        },
    }
}

/// The encodings of two rows stand in the order that the sort asks for,
/// and the order is decided inside both encodings.
pub proof fn lemma_row_order(
    fields: Seq<SortField>,
    a: Seq<Option<KeyValue>>,
    b: Seq<Option<KeyValue>>,
)
    requires
        rows_comparable(fields, a, b),
    ensures
        encoded_in_order(row_order(fields, a, b), encode_row(fields, a), encode_row(fields, b)),
    decreases fields.len(),
{
    if fields.len() > 0 {
        let ea = encode_row(fields.drop_last(), a.drop_last());
        let eb = encode_row(fields.drop_last(), b.drop_last());
        let fa = encode_field(fields.last(), a.last());
        let fb = encode_field(fields.last(), b.last());
        assert(rows_comparable(fields.drop_last(), a.drop_last(), b.drop_last())) by {
            assert forall|i: int| 0 <= i < fields.drop_last().len() implies comparable(
                #[trigger] a.drop_last()[i],
                b.drop_last()[i],
            ) by {
                assert(comparable(a[i], b[i]));
            }
        }
        lemma_row_order(fields.drop_last(), a.drop_last(), b.drop_last());
        assert(comparable(a[fields.len() - 1], b[fields.len() - 1]));
        lemma_field_order(fields.last(), a.last(), b.last());
        match row_order(fields.drop_last(), a.drop_last(), b.drop_last()) {
            Order::Less => {
                lemma_precedes_before_suffix(ea, eb, fa, fb);
            },
            Order::Greater => {
                lemma_precedes_before_suffix(eb, ea, fb, fa);
            },
            Order::Equal => {
                match field_order(fields.last(), a.last(), b.last()) {
                    Order::Less => {
                        lemma_precedes_behind_prefix(ea, fa, fb);
                    },
                    Order::Greater => {
                        lemma_precedes_behind_prefix(ea, fb, fa);
                    },
                    Order::Equal => {},
                }
            },
        }
    }
}

/// The bytewise order of two encoded rows is the order that the sort asks
/// for between the rows, whatever the fields are: ascending or descending,
/// nulls first or last.
pub proof fn lemma_encoded_order_is_row_order(
    fields: Seq<SortField>,
    a: Seq<Option<KeyValue>>,
    b: Seq<Option<KeyValue>>,
)
    requires
        rows_comparable(fields, a, b),
    ensures
        lex_order(encode_row(fields, a), encode_row(fields, b)) == row_order(fields, a, b),
{
    lemma_row_order(fields, a, b);
    let ea = encode_row(fields, a);
    let eb = encode_row(fields, b);
    let none = Seq::<u8>::empty();
    match row_order(fields, a, b) {
        Order::Less => {
            lemma_precedes_decides(ea, eb, none, none);
            assert(ea + none =~= ea);
            assert(eb + none =~= eb);
        },
        Order::Greater => {
            lemma_precedes_decides(eb, ea, none, none);
            assert(ea + none =~= ea);
            assert(eb + none =~= eb);
        },
        Order::Equal => {
            lemma_lex_equal(ea, eb);
        },
    }
}

/// How one column takes part in a sort.
#[derive(Clone, Copy, Debug, PartialEq, Eq, Structural)]
pub struct SortColumnDescription {
    /// The position of the column in the schema.
    pub offset: usize,
    pub asc: bool,
    pub nulls_first: bool,
    pub is_nullable: bool,
}

/// A value as the sort sees it, for a single value of a block.
pub open spec fn scalar_key(s: ScalarView) -> Option<KeyValue> {
    match s {
        ScalarView::Null => None,
        ScalarView::Boolean(b) => Some(KeyValue::Boolean(b)),
        ScalarView::Int64(v) => Some(KeyValue::Int64(v)),
        ScalarView::UInt64(v) => Some(KeyValue::UInt64(v)),
        ScalarView::String(bytes) => Some(KeyValue::Bytes(bytes)),
        ScalarView::Variant(raw) => Some(KeyValue::Bytes(comparable_form(raw))),
    }
}

/// Row `i` of a column as the sort sees it, a semi-structured value taken
/// as it stands.
pub open spec fn plain_key(column: &Column, i: int) -> Option<KeyValue> {
    if column.is_valid(i) {
        Some(
            match column.data {
                ColumnData::Boolean(v) => KeyValue::Boolean(v@[i]),
                ColumnData::Int64(v) => KeyValue::Int64(v@[i]),
                ColumnData::UInt64(v) => KeyValue::UInt64(v@[i]),
                ColumnData::String(rows) => KeyValue::Bytes(rows@[i]),
                ColumnData::Variant(rows) => KeyValue::Bytes(rows@[i]),
            },
        )
    } else {
        None
    }
}

/// Row `i` of a column as the sort sees it, a semi-structured value in
/// its comparable form.
pub open spec fn column_key(column: &Column, i: int) -> Option<KeyValue> {
    match column.data {
        ColumnData::Variant(rows) => if column.is_valid(i) {
            Some(KeyValue::Bytes(comparable_form(rows@[i])))
        } else {
            None
        },
        _ => plain_key(column, i),
    }
}

/// Row `i` of one column of a block as the sort sees it.
pub open spec fn entry_key(entry: &BlockEntry, i: int) -> Option<KeyValue> {
    match entry.value {
        Value::Scalar(s) => scalar_key(s@),
        Value::Column(c) => column_key(&c, i),
    }
}

/// Row `i` of a block as the sort sees it.
pub open spec fn block_row(columns: Seq<BlockEntry>, i: int) -> Seq<Option<KeyValue>> {
    Seq::new(columns.len(), |j: int| entry_key(&columns[j], i))
}

/// Whether a column of a block can stand for a field of the sort in a
/// block of `rows` rows: a single value must be null or of the field's
/// kind; a column must be of the field's kind and hold `rows` rows.
pub open spec fn entry_fits(field: SortField, entry: &BlockEntry, rows: nat) -> bool {
    fits_kind(field.data_type.kind, entry, rows)
}

/// Whether a column of a block holds values of the given kind, for `rows`
/// rows.
pub open spec fn fits_kind(kind: TypeKind, entry: &BlockEntry, rows: nat) -> bool {
    match entry.value {
        Value::Scalar(s) => s@.fits(kind),
        Value::Column(c) => c.data.spec_kind() == kind && c.spec_len() == rows,
    }
}

/// Whether the column that an entry holds is well formed.
pub open spec fn entry_wf(entry: &BlockEntry) -> bool {
    entry.value matches Value::Column(c) ==> c.wf()
}

/// Whether every semi-structured value of the column that counts can be
/// transcoded: a binary value is well formed, a text is not too long and
/// does not nest too deep.
pub open spec fn entry_readable(entry: &BlockEntry) -> bool {
    match entry.value {
        Value::Scalar(s) => s@ matches ScalarView::Variant(raw) ==> transcodable(raw),
        Value::Column(c) => c.data matches ColumnData::Variant(rows) ==> forall|i: int|
            0 <= i < rows@.len() && c.is_valid(i) ==> transcodable(#[trigger] rows@[i]),
    }
}

/// The fields that sort descriptions stand for in a schema.
pub open spec fn sort_fields(
    descriptions: Seq<SortColumnDescription>,
    types: Seq<DataType>,
) -> Seq<SortField> {
    Seq::new(
        descriptions.len(),
        |i: int|
            SortField {
                data_type: types[descriptions[i].offset as int],
                asc: descriptions[i].asc,
                nulls_first: descriptions[i].nulls_first,
            },
    )
}

/// A column that is ready to be encoded: one of the block, or one made
/// for the purpose.
enum Prepared<'a> {
    Source(&'a Column),
    Made(Column),
}

impl<'a> Prepared<'a> {
    /// The column.
    spec fn spec_column(&self) -> &Column {
        match self {
            Prepared::Source(c) => c,
            Prepared::Made(c) => c,
        }
    }

    /// The column.
    #[verifier::when_used_as_spec(spec_column)]
    fn column(&self) -> (c: &Column)
        ensures
            c == self.spec_column(),
    {
        match self {
            Prepared::Source(c) => c,
            Prepared::Made(c) => c,
        }
    }
}

/// Appends the low `width` bytes of `n`, the high byte first; inverted
/// unless `asc`.
fn push_be(buf: &mut Vec<u8>, n: u64, width: u8, asc: bool)
    ensures
        final(buf)@ == old(buf)@ + if asc {
            be_bytes(n as nat, width as nat)
        } else {
            invert(be_bytes(n as nat, width as nat))
        },
    decreases width,
{
    if width > 0 {
        push_be(buf, n / 256, width - 1, asc);
        let b = (n % 256) as u8;
        buf.push(
            if asc {
                b
            } else {
                255 - b
            },
        );
        proof {
            let high = be_bytes((n / 256) as nat, (width - 1) as nat);
            assert(be_bytes(n as nat, width as nat) == high.push(b));
            assert(invert(high.push(b)) =~= invert(high).push((255 - b) as u8));
            assert(final(buf)@ =~= old(buf)@ + if asc {
                be_bytes(n as nat, width as nat)
            } else {
                invert(be_bytes(n as nat, width as nat))
            });
        }
    } else {
        assert(invert(Seq::<u8>::empty()) =~= Seq::<u8>::empty());
        assert(buf@ =~= old(buf)@ + Seq::<u8>::empty());
    }
}

/// Appends the encoding of a byte string; inverted unless `asc`.
fn push_bytes(buf: &mut Vec<u8>, s: &[u8], asc: bool)
    ensures
        final(buf)@ == old(buf)@ + if asc {
            encode_bytes(s@)
        } else {
            invert(encode_bytes(s@))
        },
{
    let mut i: usize = 0;
    assert(s@.take(0) =~= Seq::<u8>::empty());
    assert(invert(Seq::<u8>::empty()) =~= Seq::<u8>::empty());
    assert(buf@ =~= old(buf)@ + Seq::<u8>::empty());
    while i < s.len()
        invariant
            i <= s@.len(),
            buf@ == old(buf)@ + if asc {
                escape(s@.take(i as int))
            } else {
                invert(escape(s@.take(i as int)))
            },
        decreases s.len() - i,
    {
        let ghost before = escape(s@.take(i as int));
        let b = s[i];
        proof {
            assert(s@.take(i + 1).drop_last() =~= s@.take(i as int));
            assert(escape(s@.take(i + 1)) == before + escape_byte(b));
        }
        if b == 0 {
            if asc {
                buf.push(0);
                buf.push(0xFF);
            } else {
                buf.push(0xFF);
                buf.push(0);
            }
            assert(invert(before + seq![0u8, 0xFFu8]) =~= invert(before) + seq![0xFFu8, 0u8]);
            assert(buf@ =~= old(buf)@ + if asc {
                before + seq![0u8, 0xFFu8]
            } else {
                invert(before) + seq![0xFFu8, 0u8]
            });
        } else {
            buf.push(
                if asc {
                    b
                } else {
                    255 - b
                },
            );
            assert(invert(before + seq![b]) =~= invert(before) + seq![(255 - b) as u8]);
            assert(buf@ =~= old(buf)@ + if asc {
                before + seq![b]
            } else {
                invert(before) + seq![(255 - b) as u8]
            });
        }
        i = i + 1;
    }
    let ghost body = escape(s@);
    assert(s@.take(s@.len() as int) =~= s@);
    if asc {
        buf.push(0);
        buf.push(0);
    } else {
        buf.push(0xFF);
        buf.push(0xFF);
    }
    proof {
        assert(invert(body + seq![0u8, 0u8]) =~= invert(body) + seq![0xFFu8, 0xFFu8]);
        assert(buf@ =~= old(buf)@ + if asc {
            body + seq![0u8, 0u8]
        } else {
            invert(body) + seq![0xFFu8, 0xFFu8]
        });
    }
}

/// Appends the encoding of row `i` of a column under a field, a
/// semi-structured value taken as it stands.
fn push_field(buf: &mut Vec<u8>, field: &SortField, column: &Column, i: usize)
    requires
        column.wf(),
        i < column.spec_len(),
    ensures
        final(buf)@ == old(buf)@ + encode_field(*field, plain_key(column, i as int)),
{
    let valid = match &column.validity {
        Some(marks) => marks[i],
        None => true,
    };
    if !valid {
        buf.push(
            if field.nulls_first {
                0
            } else {
                0xFF
            },
        );
        assert(buf@ =~= old(buf)@ + encode_field(*field, plain_key(column, i as int)));
        return ;
    }
    buf.push(1);
    let ghost marked = buf@;
    match &column.data {
        ColumnData::Boolean(v) => {
            let b: u8 = if v[i] {
                1
            } else {
                0
            };
            buf.push(
                if field.asc {
                    b
                } else {
                    255 - b
                },
            );
            assert(invert(seq![b]) =~= seq![(255 - b) as u8]);
        },
        ColumnData::Int64(v) => {
            let x = v[i];
            let shifted: u64 = if x < 0 {
                (x + 0x4000_0000_0000_0000 + 0x4000_0000_0000_0000) as u64
            } else {
                x as u64 + 0x8000_0000_0000_0000
            };
            push_be(buf, shifted, 8, field.asc);
        },
        ColumnData::UInt64(v) => {
            push_be(buf, v[i], 8, field.asc);
        },
        ColumnData::String(rows) => {
            push_bytes(buf, rows.row(i), field.asc);
        },
        ColumnData::Variant(rows) => {
            push_bytes(buf, rows.row(i), field.asc);
        },
    }
    assert(buf@ =~= old(buf)@ + encode_field(*field, plain_key(column, i as int)));
}

/// Turns the sort columns of blocks into encoded rows.
#[derive(Debug)]
pub struct RowConverter {
    pub fields: Vec<SortField>,
}

impl RowConverter {
    /// Whether the columns of a block of `rows` rows stand for the fields
    /// of the converter, one for each.
    pub open spec fn shape_ok(&self, columns: Seq<BlockEntry>, rows: nat) -> bool {
        &&& columns.len() == self.fields@.len()
        &&& forall|j: int|
            0 <= j < columns.len() ==> entry_fits(self.fields@[j], #[trigger] &columns[j], rows)
    }

    /// Whether every semi-structured value of the block that counts can
    /// be transcoded.
    pub open spec fn readable(columns: Seq<BlockEntry>) -> bool {
        forall|j: int| 0 <= j < columns.len() ==> entry_readable(#[trigger] &columns[j])
    }

    /// The encoded rows of a block of `rows` rows.
    pub open spec fn keys(&self, columns: Seq<BlockEntry>, rows: nat) -> Seq<Seq<u8>> {
        Seq::new(rows, |i: int| encode_row(self.fields@, block_row(columns, i)))
    }

    /// The converter for the given sort over blocks of the given schema,
    /// or a schema-mismatch error where a sort column lies outside the
    /// schema.
    pub fn create(sort_columns_descriptions: &Vec<SortColumnDescription>, output_schema: &DataSchema) -> (made:
        Result<RowConverter, ErrorCode>)
        ensures
            match made {
                Ok(converter) => {
                    &&& forall|i: int|
                        0 <= i < sort_columns_descriptions@.len()
                            ==> (#[trigger] sort_columns_descriptions@[i]).offset
                            < output_schema.types().len()
                    &&& converter.fields@ == sort_fields(
                        sort_columns_descriptions@,
                        output_schema.types(),
                    )
                },
                Err(e) => {
                    &&& exists|i: int|
                        0 <= i < sort_columns_descriptions@.len()
                            && (#[trigger] sort_columns_descriptions@[i]).offset
                            >= output_schema.types().len()
                    &&& e@ == (crate::error::ErrorView {
                        kind: ErrorKind::SchemaMismatch,
                        message: "sort column is not in the schema"@,
                    })
                },
            },
    {
        let mut fields: Vec<SortField> = Vec::new();
        let mut i: usize = 0;
        while i < sort_columns_descriptions.len()
            invariant
                i <= sort_columns_descriptions@.len(),
                forall|k: int|
                    0 <= k < i ==> (#[trigger] sort_columns_descriptions@[k]).offset
                        < output_schema.types().len(),
                fields@ == sort_fields(
                    sort_columns_descriptions@.take(i as int),
                    output_schema.types(),
                ),
            decreases sort_columns_descriptions.len() - i,
        {
            let d = &sort_columns_descriptions[i];
            if d.offset >= output_schema.num_fields() {
                return Err(
                    ErrorCode::create(ErrorKind::SchemaMismatch, "sort column is not in the schema"),
                );
            }
            let data_type = output_schema.field(d.offset).data_type;
            fields.push(SortField::new_with_options(data_type, d.asc, d.nulls_first));
            assert(fields@ =~= sort_fields(
                sort_columns_descriptions@.take(i + 1),
                output_schema.types(),
            ));
            i = i + 1;
        }
        assert(sort_columns_descriptions@.take(i as int) =~= sort_columns_descriptions@);
        Ok(RowConverter { fields })
    }

    /// Whether `entry` can stand for `field` in a block of `rows` rows.
    fn fits(field: &SortField, entry: &BlockEntry, rows: usize) -> (ok: bool)
        requires
            entry_wf(entry),
        ensures
            ok == entry_fits(*field, entry, rows as nat),
    {
        let kind = field.data_type.kind;
        match &entry.value {
            Value::Scalar(s) => match s {
                Scalar::Null => true,
                Scalar::Boolean(_) => kind == TypeKind::Boolean,
                Scalar::Int64(_) => kind == TypeKind::Int64,
                Scalar::UInt64(_) => kind == TypeKind::UInt64,
                Scalar::String(_) => kind == TypeKind::String,
                Scalar::Variant(_) => kind == TypeKind::Variant,
            },
            Value::Column(c) => c.data.kind() == kind && c.len() == rows,
        }
    }

    /// The encoded rows of the given columns under the fields of the
    /// converter, semi-structured values taken as they stand.
    fn convert_columns(&self, columns: &Vec<Prepared>, num_rows: usize) -> (rows: StringColumn)
        requires
            columns@.len() == self.fields@.len(),
            forall|j: int|
                0 <= j < columns@.len() ==> (#[trigger] columns@[j]).spec_column().wf()
                    && columns@[j].spec_column().spec_len() == num_rows,
        ensures
            rows.wf(),
            rows@ == Seq::new(
                num_rows as nat,
                |i: int|
                    encode_row(
                        self.fields@,
                        Seq::new(columns@.len(), |j: int| plain_key(columns@[j].spec_column(), i)),
                    ),
            ),
    {
        let ghost key_row = |i: int|
            Seq::new(columns@.len(), |j: int| plain_key(columns@[j].spec_column(), i));
        let mut builder = StringColumnBuilder::with_capacity(num_rows, 0);
        let mut i: usize = 0;
        while i < num_rows
            invariant
                i <= num_rows,
                columns@.len() == self.fields@.len(),
                forall|j: int|
                    0 <= j < columns@.len() ==> (#[trigger] columns@[j]).spec_column().wf()
                        && columns@[j].spec_column().spec_len() == num_rows,
                builder.wf(),
                builder.pending().len() == 0,
                key_row == |i: int|
                    Seq::new(columns@.len(), |j: int| plain_key(columns@[j].spec_column(), i)),
                builder.rows() == Seq::new(
                    i as nat,
                    |r: int| encode_row(self.fields@, key_row(r)),
                ),
            decreases num_rows - i,
        {
            let ghost done = builder.rows();
            let ghost row = key_row(i as int);
            let mut j: usize = 0;
            assert(self.fields@.take(0) =~= Seq::<SortField>::empty());
            assert(builder.pending() =~= encode_row(self.fields@.take(0), row.take(0)));
            while j < columns.len()
                invariant
                    j <= columns@.len(),
                    i < num_rows,
                    columns@.len() == self.fields@.len(),
                    forall|j: int|
                        0 <= j < columns@.len() ==> (#[trigger] columns@[j]).spec_column().wf()
                            && columns@[j].spec_column().spec_len() == num_rows,
                    builder.wf(),
                    builder.rows() == done,
                    row == Seq::new(
                        columns@.len(),
                        |k: int| plain_key(columns@[k].spec_column(), i as int),
                    ),
                    builder.pending() == encode_row(
                        self.fields@.take(j as int),
                        row.take(j as int),
                    ),
                decreases columns.len() - j,
            {
                let ghost before = builder.data@;
                let ghost pending = builder.pending();
                let column = columns[j].column();
                push_field(&mut builder.data, &self.fields[j], column, i);
                proof {
                    assert(builder.data@.take(before.len() as int) =~= before);
                    crate::column::lemma_rows_ignore_tail(before, builder.data@, builder.offsets@);
                    assert(builder.pending() =~= pending + encode_field(
                        self.fields@[j as int],
                        row[j as int],
                    ));
                    assert(self.fields@.take(j + 1).drop_last() =~= self.fields@.take(j as int));
                    assert(row.take(j + 1).drop_last() =~= row.take(j as int));
                }
                j = j + 1;
            }
            assert(self.fields@.take(j as int) =~= self.fields@);
            assert(row.take(j as int) =~= row);
            builder.commit_row();
            assert(builder.rows() =~= Seq::new(
                (i + 1) as nat,
                |r: int| encode_row(self.fields@, key_row(r)),
            ));
            i = i + 1;
        }
        builder.build()
    }

    /// Encodes the sort columns of a block of `num_rows` rows: one byte
    /// string for each row, whose bytewise order among the rows is the
    /// order of the sort. A single value stands for every row; a
    /// semi-structured value enters in its comparable form; a null of a
    /// nullable column enters as the null of its field.
    ///
    /// Columns that do not stand for the fields of the converter are
    /// refused with a schema-mismatch error, and a semi-structured value
    /// that cannot be transcoded with an internal error. Where no field
    /// is of semi-structured values, columns that stand for the fields
    /// are always encoded.
    pub fn convert(&mut self, columns: &Vec<BlockEntry>, num_rows: usize) -> (encoded: Result<
        StringColumn,
        ErrorCode,
    >)
        requires
            forall|j: int| 0 <= j < columns@.len() ==> entry_wf(#[trigger] &columns@[j]),
        ensures
            final(self).fields@ == old(self).fields@,
            match encoded {
                Ok(rows) => {
                    &&& old(self).shape_ok(columns@, num_rows as nat)
                    &&& RowConverter::readable(columns@)
                    &&& rows.wf()
                    &&& rows@ == old(self).keys(columns@, num_rows as nat)
                },
                Err(e) => if old(self).shape_ok(columns@, num_rows as nat) {
                    !RowConverter::readable(columns@) && e@ == (crate::error::ErrorView {
                        kind: ErrorKind::Internal,
                        message: "a semi-structured value is not well formed"@,
                    })
                } else {
                    e@ == (crate::error::ErrorView {
                        kind: ErrorKind::SchemaMismatch,
                        message: "the columns do not stand for the sort fields"@,
                    })
                },
            },
    {
        if columns.len() != self.fields.len() {
            return Err(
                ErrorCode::create(
                    ErrorKind::SchemaMismatch,
                    "the columns do not stand for the sort fields",
                ),
            );
        }
        let mut j: usize = 0;
        while j < columns.len()
            invariant
                j <= columns@.len(),
                columns@.len() == self.fields@.len(),
                forall|k: int| 0 <= k < columns@.len() ==> entry_wf(#[trigger] &columns@[k]),
                forall|k: int|
                    0 <= k < j ==> entry_fits(
                        self.fields@[k],
                        #[trigger] &columns@[k],
                        num_rows as nat,
                    ),
            decreases columns.len() - j,
        {
            assert(entry_wf(&columns@[j as int]));
            if !Self::fits(&self.fields[j], &columns[j], num_rows) {
                return Err(
                    ErrorCode::create(
                        ErrorKind::SchemaMismatch,
                        "the columns do not stand for the sort fields",
                    ),
                );
            }
            j = j + 1;
        }
        let mut prepared: Vec<Prepared> = Vec::new();
        let mut j: usize = 0;
        while j < columns.len()
            invariant
                j <= columns@.len(),
                prepared@.len() == j,
                self.shape_ok(columns@, num_rows as nat),
                forall|k: int| 0 <= k < columns@.len() ==> entry_wf(#[trigger] &columns@[k]),
                forall|k: int| 0 <= k < j ==> entry_readable(#[trigger] &columns@[k]),
                forall|k: int|
                    0 <= k < j ==> {
                        &&& (#[trigger] prepared@[k]).spec_column().wf()
                        &&& prepared@[k].spec_column().spec_len() == num_rows
                        &&& forall|i: int|
                            0 <= i < num_rows ==> plain_key(prepared@[k].spec_column(), i)
                                == entry_key(&columns@[k], i)
                    },
            decreases columns.len() - j,
        {
            assert(entry_wf(&columns@[j as int]));
            assert(entry_fits(self.fields@[j as int], &columns@[j as int], num_rows as nat));
            match prepare(&columns[j], self.fields[j].data_type.kind, num_rows) {
                Some(p) => {
                    prepared.push(p);
                },
                None => {
                    return Err(
                        ErrorCode::create(
                            ErrorKind::Internal,
                            "a semi-structured value is not well formed",
                        ),
                    );
                },
            }
            j = j + 1;
        }
        let rows = self.convert_columns(&prepared, num_rows);
        proof {
            assert forall|i: int| 0 <= i < num_rows implies #[trigger] rows@[i] == self.keys(
                columns@,
                num_rows as nat,
            )[i] by {
                assert(Seq::new(prepared@.len(), |j: int| plain_key(prepared@[j].spec_column(), i))
                    =~= block_row(columns@, i));
            }
            assert(rows@ =~= self.keys(columns@, num_rows as nat));
        }
        Ok(rows)
    }
}

/// A vector of `rows` times the value `value`.
fn repeat_value<T: Copy>(value: T, rows: usize) -> (values: Vec<T>)
    ensures
        values@.len() == rows,
        forall|i: int| 0 <= i < rows ==> values@[i] == value,
{
    let mut values: Vec<T> = Vec::with_capacity(rows);
    let mut i: usize = 0;
    while i < rows
        invariant
            i <= rows,
            values@.len() == i,
            forall|k: int| 0 <= k < i ==> values@[k] == value,
        decreases rows - i,
    {
        values.push(value);
        i = i + 1;
    }
    values
}

/// A column of `rows` times the byte string `bytes`.
fn repeat_bytes(bytes: &[u8], rows: usize) -> (column: StringColumn)
    ensures
        column.wf(),
        column@.len() == rows,
        forall|i: int| 0 <= i < rows ==> column@[i] == bytes@,
{
    let mut builder = StringColumnBuilder::with_capacity(rows, 0);
    let mut i: usize = 0;
    while i < rows
        invariant
            i <= rows,
            builder.wf(),
            builder.pending().len() == 0,
            builder.rows().len() == i,
            forall|k: int| 0 <= k < i ==> #[trigger] builder.rows()[k] == bytes@,
        decreases rows - i,
    {
        builder.put_slice(bytes);
        builder.commit_row();
        i = i + 1;
    }
    builder.build()
}

/// A column of `rows` equal values, as [`repeat_key`] has them. A null
/// is repeated as a column of the given kind in which no row counts.
fn repeat(scalar: &Scalar, kind: TypeKind, rows: usize) -> (column: Column)
    requires
        scalar@.fits(kind),
    ensures
        column.wf(),
        column.spec_len() == rows,
        forall|i: int| 0 <= i < rows ==> plain_key(&column, i) == repeat_key(scalar@),
{
    match scalar {
        Scalar::Null => {
            let none: [u8; 0] = [];
            let data = match kind {
                TypeKind::Boolean => ColumnData::Boolean(repeat_value(false, rows)),
                TypeKind::Int64 => ColumnData::Int64(repeat_value(0i64, rows)),
                TypeKind::UInt64 => ColumnData::UInt64(repeat_value(0u64, rows)),
                TypeKind::String => ColumnData::String(repeat_bytes(none.as_slice(), rows)),
                TypeKind::Variant => ColumnData::Variant(repeat_bytes(none.as_slice(), rows)),
            };
            Column { data, validity: Some(repeat_value(false, rows)) }
        },
        Scalar::Boolean(b) => Column {
            data: ColumnData::Boolean(repeat_value(*b, rows)),
            validity: None,
        },
        Scalar::Int64(v) => Column { data: ColumnData::Int64(repeat_value(*v, rows)), validity: None },
        Scalar::UInt64(v) => Column {
            data: ColumnData::UInt64(repeat_value(*v, rows)),
            validity: None,
        },
        Scalar::String(s) => Column {
            data: ColumnData::String(repeat_bytes(s.as_slice(), rows)),
            validity: None,
        },
        Scalar::Variant(s) => Column {
            data: ColumnData::Variant(repeat_bytes(s.as_slice(), rows)),
            validity: None,
        },
    }
}

/// A single value as the sort sees it, a semi-structured value taken as
/// it stands.
pub open spec fn repeat_key(s: ScalarView) -> Option<KeyValue> {
    match s {
        ScalarView::Null => None,
        ScalarView::Boolean(b) => Some(KeyValue::Boolean(b)),
        ScalarView::Int64(v) => Some(KeyValue::Int64(v)),
        ScalarView::UInt64(v) => Some(KeyValue::UInt64(v)),
        ScalarView::String(bytes) => Some(KeyValue::Bytes(bytes)),
        ScalarView::Variant(bytes) => Some(KeyValue::Bytes(bytes)),
    }
}

/// The column that stands for `entry` when the rows are encoded: a single
/// value is repeated for every row, semi-structured values are put into
/// their comparable form, and any other column is taken as it is. Nothing
/// is made where a semi-structured value that counts cannot be transcoded.
fn prepare<'a>(entry: &'a BlockEntry, kind: TypeKind, num_rows: usize) -> (made: Option<
    Prepared<'a>,
>)
    requires
        entry_wf(entry),
        fits_kind(kind, entry, num_rows as nat),
    ensures
        match made {
            Some(p) => {
                &&& entry_readable(entry)
                &&& p.spec_column().wf()
                &&& p.spec_column().spec_len() == num_rows
                &&& forall|i: int|
                    0 <= i < num_rows ==> plain_key(p.spec_column(), i) == entry_key(entry, i)
            },
            None => !entry_readable(entry),
        },
{
    match &entry.value {
        Value::Scalar(s) => match s {
            Scalar::Variant(raw) => {
                // The comparable form is computed once and then repeated.
                if !is_transcodable(raw.as_slice()) {
                    return None;
                }
                let mut buf: Vec<u8> = Vec::new();
                convert_to_comparable(raw.as_slice(), &mut buf);
                let comparable = Scalar::Variant(buf);
                Some(Prepared::Made(repeat(&comparable, kind, num_rows)))
            },
            _ => Some(Prepared::Made(repeat(s, kind, num_rows))),
        },
        Value::Column(c) => match &c.data {
            ColumnData::Variant(rows) => {
                let mut builder = StringColumnBuilder::with_capacity(rows.len(), rows.data.len());
                let mut i: usize = 0;
                while i < rows.len()
                    invariant
                        i <= rows@.len(),
                        rows.wf(),
                        c.wf(),
                        c.data == ColumnData::Variant(*rows),
                        entry.value == Value::Column(*c),
                        builder.wf(),
                        builder.pending().len() == 0,
                        builder.rows().len() == i,
                        forall|k: int|
                            0 <= k < i && c.is_valid(k) ==> transcodable(#[trigger] rows@[k]),
                        forall|k: int|
                            0 <= k < i && c.is_valid(k) ==> #[trigger] builder.rows()[k]
                                == comparable_form(rows@[k]),
                    decreases rows@.len() - i,
                {
                    let valid = match &c.validity {
                        Some(marks) => marks[i],
                        None => true,
                    };
                    if valid {
                        let value = rows.row(i);
                        if !is_transcodable(value) {
                            assert(c.is_valid(i as int) && !transcodable(rows@[i as int]));
                            return None;
                        }
                        let ghost before = builder.data@;
                        let ghost committed = builder.rows();
                        convert_to_comparable(value, &mut builder.data);
                        proof {
                            assert(builder.data@.take(before.len() as int) =~= before);
                            crate::column::lemma_rows_ignore_tail(
                                before,
                                builder.data@,
                                builder.offsets@,
                            );
                            assert(builder.pending() =~= comparable_form(value@));
                        }
                    }
                    builder.commit_row();
                    i = i + 1;
                }
                let validity = match &c.validity {
                    Some(marks) => Some(marks.clone()),
                    None => None,
                };
                let made = Column { data: ColumnData::Variant(builder.build()), validity };
                Some(Prepared::Made(made))
            },
            _ => Some(Prepared::Source(c)),
        },
    }
}

/// The encoded rows of a block sort as the sort asks: for any two rows of
/// a block whose columns stand for the fields of a converter, the
/// bytewise order of their keys is the order of the rows under the fields,
/// with each field ascending or descending and its nulls first or last
/// as it says.
pub proof fn lemma_converted_rows_sort_as_asked(
    converter: RowConverter,
    columns: Seq<BlockEntry>,
    rows: nat,
    i: int,
    j: int,
)
    requires
        converter.shape_ok(columns, rows),
        0 <= i < rows,
        0 <= j < rows,
    ensures
        lex_order(converter.keys(columns, rows)[i], converter.keys(columns, rows)[j]) == row_order(
            converter.fields@,
            block_row(columns, i),
            block_row(columns, j),
        ),
{
    let a = block_row(columns, i);
    let b = block_row(columns, j);
    assert forall|k: int| 0 <= k < converter.fields@.len() implies comparable(
        #[trigger] a[k],
        b[k],
    ) by {
        assert(entry_fits(converter.fields@[k], &columns[k], rows));
    }
    lemma_encoded_order_is_row_order(converter.fields@, a, b);
}

/// Columns that stand for fields of which none holds semi-structured
/// values can always be encoded: nothing of them has to be transcoded.
pub proof fn lemma_plain_columns_are_readable(
    converter: RowConverter,
    columns: Seq<BlockEntry>,
    rows: nat,
)
    requires
        converter.shape_ok(columns, rows),
        forall|k: int|
            0 <= k < converter.fields@.len() ==> (#[trigger] converter.fields@[k]).data_type.kind
                != TypeKind::Variant,
    ensures
        RowConverter::readable(columns),
{
    assert forall|j: int| 0 <= j < columns.len() implies entry_readable(#[trigger] &columns[j]) by {
        assert(converter.fields@[j].data_type.kind != TypeKind::Variant);
        assert(entry_fits(converter.fields@[j], &columns[j], rows));
    }
}

} // verus!
