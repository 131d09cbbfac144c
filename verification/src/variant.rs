//! Semi-structured values: the check that a value can be read, and its
//! transcoding into a form that compares bytewise.
//!
//! A value is kept in a binary encoding, or, from earlier days, as JSON
//! text. The first byte tells which: a value that starts with one of the
//! three bytes that open a binary value is read as one, any other as
//! text.
//!
//! The order of the comparable forms is the transcoder's: `false`, then
//! `true`, then numbers, strings, objects and arrays, and null behind them
//! all; arrays and objects member by member. Nothing here is proved of
//! that order.
//!
//! A binary value is a tree. Every node starts with a header of four bytes: its
//! three top bits say whether the node is an array, an object or a single
//! scalar, the other bits count the children. The entries follow, four
//! bytes for each child (for an object: one for each key, then one for
//! each value), with the child's type and the length of its data. The data
//! of the children follow in the same order.

use vstd::prelude::*;
use vstd::slice::slice_subrange;

verus! {

/// What the transcoder of the `jsonb` crate appends for a value. Its
/// documentation gives the order of these bytes as that of its own
/// comparison of values: null is greater than an array, an array greater
/// than an object, an object greater than any other scalar, and among
/// those a string is greater than a number and a number greater than a
/// boolean. No contract here says anything of the bytes but their name.
pub uninterp spec fn comparable_form(value: Seq<u8>) -> Seq<u8>;

/// The number that four bytes at `at` hold, the high byte first.
pub open spec fn be32(v: Seq<u8>, at: int) -> int {
    v[at] * 0x100_0000 + v[at + 1] * 0x1_0000 + v[at + 2] * 0x100 + v[at + 3]
}

/// The type that an entry gives its child: 1 for a string, 2 for a number,
/// 5 for a nested node; the others have no data.
pub open spec fn entry_type(entry: int) -> int {
    (entry / 0x1000_0000) % 8
}

/// The length that an entry gives for its child's data.
pub open spec fn entry_len(entry: int) -> int {
    entry % 0x1000_0000
}

/// The kind of node that a header stands for: 4 for an array, 2 for an
/// object, 1 for a single scalar.
pub open spec fn header_kind(header: int) -> int {
    header / 0x2000_0000
}

/// The number of children that a header counts.
pub open spec fn header_len(header: int) -> int {
    header % 0x2000_0000
}

/// Whether `v` is the data of a number: a tag, and behind it as many
/// bytes as the tag asks for.
pub open spec fn number_ok(v: Seq<u8>) -> bool {
    &&& v.len() >= 1
    &&& {
        ||| v[0] == 0x00
        ||| v[0] == 0x10
        ||| v[0] == 0x20
        ||| v[0] == 0x30
        ||| (v[0] == 0x40 || v[0] == 0x50) && (v.len() == 2 || v.len() == 3 || v.len() == 5
            || v.len() == 9)
        ||| v[0] == 0x60 && v.len() == 9
    }
}

/// Whether the child that `entry` describes can be read from the start of
/// `v`, at nesting depth `depth`.
pub open spec fn scalar_ok(depth: int, entry: int, v: Seq<u8>) -> bool
    decreases v.len(), 0int, 0int,
{
    if entry_type(entry) == 5 {
        if v.len() < 4 {
            false
        } else if header_kind(be32(v, 0)) == 4 {
            depth < 255 && array_ok(depth + 1, header_len(be32(v, 0)), v.skip(4))
        } else if header_kind(be32(v, 0)) == 2 {
            depth < 255 && object_ok(depth + 1, header_len(be32(v, 0)), v.skip(4))
        } else {
            true
        }
    } else if entry_type(entry) == 1 {
        entry_len(entry) <= v.len()
    } else if entry_type(entry) == 2 {
        entry_len(entry) <= v.len() && number_ok(v.take(entry_len(entry)))
    } else {
        true
    }
}

/// Whether `v` holds the entries and the data of an array of `n` children.
pub open spec fn array_ok(depth: int, n: int, v: Seq<u8>) -> bool
    decreases v.len(), 2int, 0int,
{
    4 * n <= v.len() && items_ok(depth, n, v, 0, 4 * n)
}

/// Whether the children of an array from the `k`-th on can be read, the
/// data of the `k`-th starting at `offset`.
pub open spec fn items_ok(depth: int, n: int, v: Seq<u8>, k: int, offset: int) -> bool
    decreases v.len(), 1int, n - k,
{
    if k < 0 || k >= n {
        true
    } else if 4 * k + 4 <= v.len() && 4 <= offset <= v.len() {
        scalar_ok(depth, be32(v, 4 * k), v.skip(offset)) && items_ok(
            depth,
            n,
            v,
            k + 1,
            offset + entry_len(be32(v, 4 * k)),
        )
    } else {
        false
    }
}

/// The lengths of the first `k` keys of an object, summed.
pub open spec fn keys_len(v: Seq<u8>, k: int) -> int
    decreases k,
{
    if k <= 0 {
        0
    } else {
        keys_len(v, k - 1) + entry_len(be32(v, 4 * (k - 1)))
    }
}

/// Whether `v` holds the entries and the data of an object of `n` pairs.
pub open spec fn object_ok(depth: int, n: int, v: Seq<u8>) -> bool
    decreases v.len(), 2int, 0int,
{
    8 * n <= v.len() && pairs_ok(depth, n, v, 0, 8 * n, 8 * n + keys_len(v, n))
}

/// Whether the pairs of an object from the `k`-th on can be read, the
/// `k`-th key starting at `key_offset` and its value at `value_offset`.
pub open spec fn pairs_ok(
    depth: int,
    n: int,
    v: Seq<u8>,
    k: int,
    key_offset: int,
    value_offset: int,
) -> bool
    decreases v.len(), 1int, n - k,
{
    if k < 0 || k >= n {
        true
    } else if 4 * (n + k) + 4 <= v.len() && 8 <= key_offset <= v.len() && 8 <= value_offset
        <= v.len() {
        &&& scalar_ok(depth, be32(v, 4 * k), v.skip(key_offset))
        &&& scalar_ok(depth, be32(v, 4 * (n + k)), v.skip(value_offset))
        &&& pairs_ok(
            depth,
            n,
            v,
            k + 1,
            key_offset + entry_len(be32(v, 4 * k)),
            value_offset + entry_len(be32(v, 4 * (n + k))),
        )
    } else {
        false
    }
}

/// Whether `value` is a semi-structured value in the binary encoding that
/// can be read from its first byte to its last node: the first byte names
/// an array, an object or a single scalar; every header, entry and datum
/// lies inside the value; every number has the length of its tag; and no
/// node is nested deeper than 255 levels.
pub open spec fn well_formed(value: Seq<u8>) -> bool {
    if value.len() < 4 {
        false
    } else if value[0] == 0x20 {
        value.len() >= 8 && scalar_ok(0, be32(value, 4), value.skip(8))
    } else if value[0] == 0x80 {
        array_ok(1, header_len(be32(value, 0)), value.skip(4))
    } else if value[0] == 0x40 {
        object_ok(1, header_len(be32(value, 0)), value.skip(4))
    } else {
        false
    }
}

/// Whether `value` starts with one of the bytes that open a binary value.
pub open spec fn has_binary_prefix(value: Seq<u8>) -> bool {
    value.len() > 0 && (value[0] == 0x80 || value[0] == 0x40 || value[0] == 0x20)
}

/// Where a reader of JSON text stands: outside or inside a string, with
/// how many containers open around it.
pub struct TextScan {
    /// 0 outside a string, 1 inside one, 2 behind a backslash inside a
    /// string, 3 behind `\u` inside a string.
    pub mode: int,
    /// The bytes of an escape that are still to be passed over.
    pub skip: int,
    /// The containers that are open.
    pub depth: int,
    /// The most containers that were open at once.
    pub deepest: int,
}

/// The reader before the first byte.
pub open spec fn scan_start() -> TextScan {
    TextScan { mode: 0, skip: 0, depth: 0, deepest: 0 }
}

/// The reader after one more byte. Outside a string a quote opens a
/// string, `[` and `{` open a container and `]` and `}` close one. Inside
/// a string a quote ends it and a backslash hides the byte behind it;
/// behind `\u` four more bytes are hidden, or six where the first of them
/// is `{`.
pub open spec fn scan_step(s: TextScan, b: u8) -> TextScan {
    if s.skip > 0 {
        TextScan { skip: s.skip - 1, ..s }
    } else if s.mode == 0 {
        if b == 0x22 {
            TextScan { mode: 1, ..s }
        } else if b == 0x5B || b == 0x7B {
            TextScan {
                depth: s.depth + 1,
                deepest: if s.depth + 1 > s.deepest {
                    s.depth + 1
                } else {
                    s.deepest
                },
                ..s
            }
        } else if (b == 0x5D || b == 0x7D) && s.depth > 0 {
            TextScan { depth: s.depth - 1, ..s }
        } else {
            s
        }
    } else if s.mode == 1 {
        if b == 0x5C {
            TextScan { mode: 2, ..s }
        } else if b == 0x22 {
            TextScan { mode: 0, ..s }
        } else {
            s
        }
    } else if s.mode == 2 {
        if b == 0x75 {
            TextScan { mode: 3, ..s }
        } else {
            TextScan { mode: 1, ..s }
        }
    } else {
        TextScan {
            mode: 1,
            skip: if b == 0x7B {
                5
            } else {
                3
            },
            ..s
        }
    }
}

/// The reader after the first `n` bytes of `value`.
pub open spec fn scan(value: Seq<u8>, n: int) -> TextScan
    decreases n,
{
    if n <= 0 {
        scan_start()
    } else {
        scan_step(scan(value, n - 1), value[n - 1])
    }
}

/// The greatest length of a value that is read as text.
pub const MAX_TEXT_LEN: usize = 0x100_0000;

/// The greatest number of containers that may be open at once.
pub const MAX_DEPTH: usize = 255;

/// Whether `value` can be handed over as JSON text: it is no longer than
/// [`MAX_TEXT_LEN`] bytes, and read as above it never has more than
/// [`MAX_DEPTH`] containers open at once. The text need not be valid.
pub open spec fn text_ok(value: Seq<u8>) -> bool {
    value.len() <= MAX_TEXT_LEN && scan(value, value.len() as int).deepest <= MAX_DEPTH
}

/// Whether `value` can be transcoded: as a binary value where it starts
/// like one, and then it must be well formed; as text otherwise.
pub open spec fn transcodable(value: Seq<u8>) -> bool {
    if has_binary_prefix(value) {
        well_formed(value)
    } else {
        text_ok(value)
    }
}

/// Appends to `buf` the comparable form of `value`.
///
/// Calls `jsonb::convert_to_comparable`. On a value that starts like a
/// binary one, that function reads the headers, entries and data without
/// checking their bounds, and counts the nesting depth in one byte: such
/// a value must be well formed. Any other value it parses as JSON text,
/// one call deep for every open container, encodes what it has parsed
/// with lengths of 28 bits, and transcodes the encoding: such a value
/// must be short enough and never nest too deep; where the text does not
/// parse, its bytes are appended behind a mark. What is appended depends
/// on `value` alone, and is named [`comparable_form`]; the bytes that
/// `buf` held stay in front.
#[verifier::external_body]
pub(crate) fn convert_to_comparable(value: &[u8], buf: &mut Vec<u8>)
    requires
        transcodable(value@),
    ensures
        final(buf)@ == old(buf)@ + comparable_form(value@),
{
    jsonb::convert_to_comparable(value, buf)
}

/// Whether `value` can be handed over as JSON text.
pub fn is_text_ok(value: &[u8]) -> (ok: bool)
    ensures
        ok == text_ok(value@),
{
    if value.len() > MAX_TEXT_LEN {
        return false;
    }
    let mut mode: u8 = 0;
    let mut skip: u8 = 0;
    let mut depth: usize = 0;
    let mut deepest: usize = 0;
    let mut i: usize = 0;
    while i < value.len()
        invariant
            i <= value@.len(),
            depth <= i,
            deepest <= i,
            skip <= 5,
            scan(value@, i as int) == (TextScan {
                mode: mode as int,
                skip: skip as int,
                depth: depth as int,
                deepest: deepest as int,
            }),
        decreases value.len() - i,
    {
        let b = value[i];
        assert(scan(value@, i + 1) == scan_step(scan(value@, i as int), b));
        if skip > 0 {
            skip = skip - 1;
        } else if mode == 0 {
            if b == 0x22 {
                mode = 1;
            } else if b == 0x5B || b == 0x7B {
                depth = depth + 1;
                if depth > deepest {
                    deepest = depth;
                }
            } else if (b == 0x5D || b == 0x7D) && depth > 0 {
                depth = depth - 1;
            }
        } else if mode == 1 {
            if b == 0x5C {
                mode = 2;
            } else if b == 0x22 {
                mode = 0;
            }
        } else if mode == 2 {
            if b == 0x75 {
                mode = 3;
            } else {
                mode = 1;
            }
        } else {
            mode = 1;
            skip = if b == 0x7B {
                5
            } else {
                3
            };
        }
        i = i + 1;
    }
    deepest <= MAX_DEPTH
}

/// Whether `value` can be transcoded.
pub fn is_transcodable(value: &[u8]) -> (ok: bool)
    ensures
        ok == transcodable(value@),
{
    if value.len() > 0 && (value[0] == 0x80 || value[0] == 0x40 || value[0] == 0x20) {
        is_well_formed(value)
    } else {
        is_text_ok(value)
    }
}

fn read_be32(v: &[u8], at: usize) -> (n: u32)
    requires
        at + 4 <= v@.len(),
    ensures
        n == be32(v@, at as int),
{
    let b0: u32 = v[at] as u32;
    let b1: u32 = v[at + 1] as u32;
    let b2: u32 = v[at + 2] as u32;
    let b3: u32 = v[at + 3] as u32;
    b0 * 0x100_0000 + b1 * 0x1_0000 + b2 * 0x100 + b3
}

fn check_number(v: &[u8]) -> (ok: bool)
    ensures
        ok == number_ok(v@),
{
    if v.len() < 1 {
        return false;
    }
    let tag = v[0];
    let n = v.len();
    if tag == 0x00 || tag == 0x10 || tag == 0x20 || tag == 0x30 {
        true
    } else if tag == 0x40 || tag == 0x50 {
        n == 2 || n == 3 || n == 5 || n == 9
    } else if tag == 0x60 {
        n == 9
    } else {
        false
    }
}

fn check_scalar(depth: u8, entry: u32, v: &[u8]) -> (ok: bool)
    ensures
        ok == scalar_ok(depth as int, entry as int, v@),
    decreases v@.len(), 0int, 0int,
{
    let kind = (entry / 0x1000_0000) % 8;
    let len = (entry % 0x1000_0000) as usize;
    if kind == 5 {
        if v.len() < 4 {
            return false;
        }
        let header = read_be32(v, 0);
        let node = header / 0x2000_0000;
        let count = (header % 0x2000_0000) as usize;
        if node == 4 {
            let rest = slice_subrange(v, 4, v.len());
            assert(rest@ == v@.skip(4));
            depth < 255 && check_array(depth + 1, count, rest)
        } else if node == 2 {
            let rest = slice_subrange(v, 4, v.len());
            assert(rest@ == v@.skip(4));
            depth < 255 && check_object(depth + 1, count, rest)
        } else {
            true
        }
    } else if kind == 1 {
        len <= v.len()
    } else if kind == 2 {
        if len <= v.len() {
            let data = slice_subrange(v, 0, len);
            assert(data@ == v@.take(len as int));
            check_number(data)
        } else {
            false
        }
    } else {
        true
    }
}

fn check_array(depth: u8, n: usize, v: &[u8]) -> (ok: bool)
    requires
        n < 0x2000_0000,
    ensures
        ok == array_ok(depth as int, n as int, v@),
    decreases v@.len(), 2int, 0int,
{
    if v.len() / 4 < n {
        return false;
    }
    let mut k: usize = 0;
    let mut offset: u128 = 4 * (n as u128);
    while k < n
        invariant
            k <= n,
            n < 0x2000_0000,
            4 * n <= v@.len(),
            4 * n <= offset <= v@.len() + 0x1000_0000,
            items_ok(depth as int, n as int, v@, 0, 4 * n) == items_ok(
                depth as int,
                n as int,
                v@,
                k as int,
                offset as int,
            ),
        decreases n - k,
    {
        if offset > v.len() as u128 {
            return false;
        }
        let entry = read_be32(v, 4 * k);
        let rest = slice_subrange(v, offset as usize, v.len());
        assert(rest@ == v@.skip(offset as int));
        if !check_scalar(depth, entry, rest) {
            return false;
        }
        offset = offset + (entry % 0x1000_0000) as u128;
        k = k + 1;
    }
    true
}

fn check_object(depth: u8, n: usize, v: &[u8]) -> (ok: bool)
    requires
        n < 0x2000_0000,
    ensures
        ok == object_ok(depth as int, n as int, v@),
    decreases v@.len(), 2int, 0int,
{
    if v.len() / 8 < n {
        return false;
    }
    let mut k: usize = 0;
    let mut value_offset: usize = 8 * n;
    while k < n
        invariant
            k <= n,
            n < 0x2000_0000,
            8 * n <= v@.len(),
            value_offset == 8 * n + keys_len(v@, k as int),
            value_offset <= v@.len(),
        decreases n - k,
    {
        let entry = read_be32(v, 4 * k);
        let len = (entry % 0x1000_0000) as usize;
        assert(keys_len(v@, k + 1) == keys_len(v@, k as int) + len);
        if len > v.len() - value_offset {
            proof {
                lemma_keys_len_grows(v@, k + 1, n as int);
                lemma_pairs_need_room(depth as int, n as int, v@, 0, 8 * n, 8 * n + keys_len(v@, n as int));
            }
            return n == 0;
        }
        value_offset = value_offset + len;
        k = k + 1;
    }
    proof {
        lemma_keys_len_grows(v@, 0, n as int);
    }
    let mut k: usize = 0;
    let mut key_offset: u128 = 8 * (n as u128);
    let mut value_offset: u128 = value_offset as u128;
    while k < n
        invariant
            k <= n,
            n < 0x2000_0000,
            8 * n <= v@.len(),
            8 * n <= key_offset <= v@.len() + 0x1000_0000,
            8 * n <= value_offset <= v@.len() + 0x1000_0000,
            pairs_ok(depth as int, n as int, v@, 0, 8 * n, 8 * n + keys_len(v@, n as int))
                == pairs_ok(
                depth as int,
                n as int,
                v@,
                k as int,
                key_offset as int,
                value_offset as int,
            ),
        decreases n - k,
    {
        if key_offset > v.len() as u128 || value_offset > v.len() as u128 {
            return false;
        }
        let key_entry = read_be32(v, 4 * k);
        let value_entry = read_be32(v, 4 * (n + k));
        let key_data = slice_subrange(v, key_offset as usize, v.len());
        assert(key_data@ == v@.skip(key_offset as int));
        if !check_scalar(depth, key_entry, key_data) {
            return false;
        }
        let value_data = slice_subrange(v, value_offset as usize, v.len());
        assert(value_data@ == v@.skip(value_offset as int));
        if !check_scalar(depth, value_entry, value_data) {
            return false;
        }
        key_offset = key_offset + (key_entry % 0x1000_0000) as u128;
        value_offset = value_offset + (value_entry % 0x1000_0000) as u128;
        k = k + 1;
    }
    true
}

/// The summed lengths of the keys grow with their number.
proof fn lemma_keys_len_grows(v: Seq<u8>, j: int, k: int)
    requires
        0 <= j <= k,
    ensures
        0 <= keys_len(v, j) <= keys_len(v, k),
    decreases k,
{
    if j < k {
        lemma_keys_len_grows(v, j, k - 1);
    } else if k > 0 {
        lemma_keys_len_grows(v, j - 1, k - 1);
    }
}

/// The pairs of an object can be read only where the first value starts
/// inside the data.
proof fn lemma_pairs_need_room(
    depth: int,
    n: int,
    v: Seq<u8>,
    k: int,
    key_offset: int,
    value_offset: int,
)
    requires
        0 <= k < n,
        value_offset > v.len(),
    ensures
        !pairs_ok(depth, n, v, k, key_offset, value_offset),
{
}

/// Whether `value` is a well-formed semi-structured value in the binary
/// encoding.
pub fn is_well_formed(value: &[u8]) -> (ok: bool)
    ensures
        ok == well_formed(value@),
{
    if value.len() < 4 {
        return false;
    }
    let first = value[0];
    if first == 0x20 {
        if value.len() < 8 {
            return false;
        }
        let entry = read_be32(value, 4);
        let rest = slice_subrange(value, 8, value.len());
        assert(rest@ == value@.skip(8));
        check_scalar(0, entry, rest)
    } else if first == 0x80 {
        let header = read_be32(value, 0);
        let rest = slice_subrange(value, 4, value.len());
        assert(rest@ == value@.skip(4));
        check_array(1, (header % 0x2000_0000) as usize, rest)
    } else if first == 0x40 {
        let header = read_be32(value, 0);
        let rest = slice_subrange(value, 4, value.len());
        assert(rest@ == value@.skip(4));
        check_object(1, (header % 0x2000_0000) as usize, rest)
    } else {
        false
    }
}

/// The comparable form of `value`, where `value` can be transcoded.
pub fn to_comparable(value: &[u8]) -> (form: Option<Vec<u8>>)
    ensures
        match form {
            Some(bytes) => transcodable(value@) && bytes@ == comparable_form(value@),
            None => !transcodable(value@),
        },
{
    if is_transcodable(value) {
        let mut buf: Vec<u8> = Vec::new();
        convert_to_comparable(value, &mut buf);
        Some(buf)
    } else {
        None
    }
}

} // verus!
