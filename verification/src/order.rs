//! The order of byte strings, by which encoded sort keys are compared.

use vstd::prelude::*;

verus! {

/// How a first value stands to a second one.
#[derive(Clone, Copy, Debug, PartialEq, Eq, Structural)]
pub enum Order {
    Less,
    Equal,
    Greater,
}

impl Order {
    /// The order of the same two values taken the other way round.
    pub open spec fn reverse(self) -> Order {
        match self {
            Order::Less => Order::Greater,
            Order::Equal => Order::Equal,
            Order::Greater => Order::Less,
        }
    }
}

/// The order of two integers.
pub open spec fn int_order(a: int, b: int) -> Order {
    if a < b {
        Order::Less
    } else if a == b {
        Order::Equal
    } else {
        Order::Greater
    }
}

/// The order of two byte strings: by the first byte in which they differ;
/// a string sorts before each string that it starts.
pub open spec fn lex_order(a: Seq<u8>, b: Seq<u8>) -> Order
    decreases a.len(),
{
    if a.len() == 0 {
        if b.len() == 0 {
            Order::Equal
        } else {
            Order::Less
        }
    } else if b.len() == 0 {
        Order::Greater
    } else if a[0] < b[0] {
        Order::Less
    } else if a[0] > b[0] {
        Order::Greater
    } else {
        lex_order(a.skip(1), b.skip(1))
    }
}

/// `a` sorts before `b` by a byte that both of them have: they agree up
/// to some position, and there `a` holds the smaller byte.
pub open spec fn precedes(a: Seq<u8>, b: Seq<u8>) -> bool {
    exists|i: int| precedes_at(a, b, i)
}

/// `a` and `b` agree before position `i`, where `a` holds the smaller
/// byte.
pub open spec fn precedes_at(a: Seq<u8>, b: Seq<u8>, i: int) -> bool {
    &&& 0 <= i < a.len()
    &&& i < b.len()
    &&& a.take(i) == b.take(i)
    &&& a[i] < b[i]
}

/// Two byte strings are in order `Equal` exactly when they are the same.
pub proof fn lemma_lex_equal(a: Seq<u8>, b: Seq<u8>)
    ensures
        lex_order(a, b) == Order::Equal <==> a == b,
    decreases a.len(),
{
    if a.len() > 0 && b.len() > 0 && a[0] == b[0] {
        lemma_lex_equal(a.skip(1), b.skip(1));
        if a.skip(1) == b.skip(1) {
            assert(a =~= seq![a[0]] + a.skip(1));
            assert(b =~= seq![b[0]] + b.skip(1));
        }
    }
    if a == b && a.len() > 0 {
        assert(a.skip(1) == b.skip(1));
    }
    if a.len() == 0 && b.len() == 0 {
        assert(a =~= b);
    }
}

/// Taking two byte strings the other way round reverses their order.
pub proof fn lemma_lex_reverse(a: Seq<u8>, b: Seq<u8>)
    ensures
        lex_order(b, a) == lex_order(a, b).reverse(),
    decreases a.len(),
{
    if a.len() > 0 && b.len() > 0 && a[0] == b[0] {
        lemma_lex_reverse(a.skip(1), b.skip(1));
    }
}

/// The order of byte strings is transitive.
pub proof fn lemma_lex_transitive(a: Seq<u8>, b: Seq<u8>, c: Seq<u8>)
    requires
        lex_order(a, b) != Order::Greater,
        lex_order(b, c) != Order::Greater,
    ensures
        lex_order(a, c) != Order::Greater,
        lex_order(a, b) == Order::Less || lex_order(b, c) == Order::Less ==> lex_order(a, c)
            == Order::Less,
    decreases a.len(),
{
    if a.len() > 0 && b.len() > 0 && c.len() > 0 && a[0] == b[0] && b[0] == c[0] {
        lemma_lex_transitive(a.skip(1), b.skip(1), c.skip(1));
    }
}

/// What stands before a deciding byte decides: where `a` precedes `b`,
/// `a` followed by anything sorts before `b` followed by anything.
pub proof fn lemma_precedes_decides(a: Seq<u8>, b: Seq<u8>, x: Seq<u8>, y: Seq<u8>)
    requires
        precedes(a, b),
    ensures
        lex_order(a + x, b + y) == Order::Less,
        lex_order(b + y, a + x) == Order::Greater,
{
    let i = choose|i: int| precedes_at(a, b, i);
    assert((a + x).take(i) =~= a.take(i));
    assert((b + y).take(i) =~= b.take(i));
    lemma_precedes_at_decides(a + x, b + y, i);
    lemma_lex_reverse(a + x, b + y);
}

/// A deciding byte at position `i` puts `a` before `b`.
pub proof fn lemma_precedes_at_decides(a: Seq<u8>, b: Seq<u8>, i: int)
    requires
        precedes_at(a, b, i),
    ensures
        lex_order(a, b) == Order::Less,
    decreases i,
{
    if i > 0 {
        assert(a[0] == a.take(i)[0]);
        assert(b[0] == b.take(i)[0]);
        assert(a.skip(1).take(i - 1) =~= a.take(i).skip(1));
        assert(b.skip(1).take(i - 1) =~= b.take(i).skip(1));
        lemma_precedes_at_decides(a.skip(1), b.skip(1), i - 1);
    }
}

/// A common start keeps a deciding byte deciding.
pub proof fn lemma_precedes_behind_prefix(p: Seq<u8>, a: Seq<u8>, b: Seq<u8>)
    requires
        precedes(a, b),
    ensures
        precedes(p + a, p + b),
{
    let i = choose|i: int| precedes_at(a, b, i);
    assert((p + a).take(p.len() + i) =~= p + a.take(i));
    assert((p + b).take(p.len() + i) =~= p + b.take(i));
    assert(precedes_at(p + a, p + b, p.len() + i));
}

/// What follows a deciding byte does not count.
pub proof fn lemma_precedes_before_suffix(a: Seq<u8>, b: Seq<u8>, x: Seq<u8>, y: Seq<u8>)
    requires
        precedes(a, b),
    ensures
        precedes(a + x, b + y),
{
    let i = choose|i: int| precedes_at(a, b, i);
    assert((a + x).take(i) =~= a.take(i));
    assert((b + y).take(i) =~= b.take(i));
    assert(precedes_at(a + x, b + y, i));
}

/// The order of two byte strings.
pub fn compare_bytes(a: &[u8], b: &[u8]) -> (order: Order)
    ensures
        order == lex_order(a@, b@),
{
    let mut i: usize = 0;
    assert(a@.skip(0) =~= a@);
    assert(b@.skip(0) =~= b@);
    while i < a.len() && i < b.len()
        invariant
            i <= a.len(),
            i <= b.len(),
            lex_order(a@, b@) == lex_order(a@.skip(i as int), b@.skip(i as int)),
        decreases a.len() - i,
    {
        proof {
            assert(a@.skip(i as int)[0] == a@[i as int]);
            assert(b@.skip(i as int)[0] == b@[i as int]);
            assert(a@.skip(i as int).skip(1) =~= a@.skip(i + 1));
            assert(b@.skip(i as int).skip(1) =~= b@.skip(i + 1));
        }
        if a[i] < b[i] {
            return Order::Less;
        }
        if a[i] > b[i] {
            return Order::Greater;
        }
        i = i + 1;
    }
    if i == a.len() {
        if i == b.len() {
            Order::Equal
        } else {
            Order::Less
        }
    } else {
        Order::Greater
    }
}

} // verus!
