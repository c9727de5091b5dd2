//! The order in which status entries are kept and exported: names compare
//! byte by byte on their UTF-8 encoding, which is the order of `String`.
use std::cmp::Ordering;
use vstd::prelude::*;
use vstd::utf8::encode_utf8;

verus! {

/// Lexicographic comparison of two byte sequences.
pub open spec fn bytes_cmp(a: Seq<u8>, b: Seq<u8>) -> Ordering
    decreases a.len(),
{
    if a.len() == 0 {
        if b.len() == 0 {
            Ordering::Equal
        } else {
            Ordering::Less
        }
    } else if b.len() == 0 {
        Ordering::Greater
    } else if a[0] < b[0] {
        Ordering::Less
    } else if a[0] > b[0] {
        Ordering::Greater
    } else {
        bytes_cmp(a.drop_first(), b.drop_first())
    }
}

/// The bytes by which a name is ordered.
pub open spec fn name_key(name: Seq<char>) -> Seq<u8> {
    encode_utf8(name)
}

/// `a` comes strictly before `b`.
pub open spec fn name_lt(a: Seq<char>, b: Seq<char>) -> bool {
    bytes_cmp(name_key(a), name_key(b)) == Ordering::Less
}

proof fn lemma_bytes_cmp_equal(a: Seq<u8>, b: Seq<u8>)
    ensures
        (bytes_cmp(a, b) == Ordering::Equal) == (a == b),
    decreases a.len(),
{
    if a.len() > 0 && b.len() > 0 && a[0] == b[0] {
        lemma_bytes_cmp_equal(a.drop_first(), b.drop_first());
        if a.drop_first() == b.drop_first() {
            assert(a =~= seq![a[0]] + a.drop_first());
            assert(b =~= seq![b[0]] + b.drop_first());
        }
    } else if a.len() > 0 && b.len() > 0 {
        assert(a[0] != b[0]);
        assert(a != b);
    } else if a.len() > 0 || b.len() > 0 {
        assert(a.len() != b.len());
    } else {
        assert(a =~= b);
    }
}

proof fn lemma_bytes_cmp_flip(a: Seq<u8>, b: Seq<u8>)
    ensures
        (bytes_cmp(a, b) == Ordering::Less) == (bytes_cmp(b, a) == Ordering::Greater),
    decreases a.len(),
{
    if a.len() > 0 && b.len() > 0 && a[0] == b[0] {
        lemma_bytes_cmp_flip(a.drop_first(), b.drop_first());
    }
}

proof fn lemma_bytes_cmp_trans(a: Seq<u8>, b: Seq<u8>, c: Seq<u8>)
    requires
        bytes_cmp(a, b) == Ordering::Less,
        bytes_cmp(b, c) == Ordering::Less,
    ensures
        bytes_cmp(a, c) == Ordering::Less,
    decreases a.len(),
{
    if a.len() > 0 && b.len() > 0 && c.len() > 0 && a[0] == b[0] && b[0] == c[0] {
        lemma_bytes_cmp_trans(a.drop_first(), b.drop_first(), c.drop_first());
    }
}

/// Two distinct names are ordered one way or the other; a name is never
/// before itself.
pub proof fn lemma_name_order_total(a: Seq<char>, b: Seq<char>)
    ensures
        !name_lt(a, a),
        a == b || name_lt(a, b) || name_lt(b, a),
{
    lemma_bytes_cmp_equal(name_key(a), name_key(a));
    lemma_bytes_cmp_equal(name_key(a), name_key(b));
    lemma_bytes_cmp_flip(name_key(b), name_key(a));
    if name_key(a) == name_key(b) {
        vstd::utf8::encode_utf8_decode_utf8(a);
        vstd::utf8::encode_utf8_decode_utf8(b);
    }
}

/// The order on names is transitive.
pub proof fn lemma_name_lt_transitive(a: Seq<char>, b: Seq<char>, c: Seq<char>)
    requires
        name_lt(a, b),
        name_lt(b, c),
    ensures
        name_lt(a, c),
{
    lemma_bytes_cmp_trans(name_key(a), name_key(b), name_key(c));
}

/// Compares two names in the order of `name_lt`.
pub fn compare_names(a: &String, b: &String) -> (r: Ordering)
    ensures
        r == bytes_cmp(name_key(a@), name_key(b@)),
        (r == Ordering::Less) == name_lt(a@, b@),
        (r == Ordering::Equal) == (a@ == b@),
        (r == Ordering::Greater) == name_lt(b@, a@),
{
    let r = compare_bytes(a.as_str().as_bytes(), b.as_str().as_bytes());
    proof {
        lemma_name_order_total(a@, b@);
        lemma_bytes_cmp_equal(name_key(a@), name_key(b@));
        lemma_bytes_cmp_flip(name_key(a@), name_key(b@));
        lemma_bytes_cmp_flip(name_key(b@), name_key(a@));
    }
    r
}

fn compare_bytes(x: &[u8], y: &[u8]) -> (r: Ordering)
    ensures
        r == bytes_cmp(x@, y@),
{
    let mut i: usize = 0;
    assert(x@.subrange(0, x@.len() as int) =~= x@);
    assert(y@.subrange(0, y@.len() as int) =~= y@);
    while i < x.len() && i < y.len()
        invariant
            i <= x@.len(),
            i <= y@.len(),
            bytes_cmp(x@, y@) == bytes_cmp(x@.subrange(i as int, x@.len() as int), y@.subrange(i as int, y@.len() as int)),
        decreases x@.len() - i,
    {
        if x[i] < y[i] {
            return Ordering::Less;
        } else if x[i] > y[i] {
            return Ordering::Greater;
        }
        assert(x@.subrange(i + 1, x@.len() as int) =~= x@.subrange(i as int, x@.len() as int).drop_first());
        assert(y@.subrange(i + 1, y@.len() as int) =~= y@.subrange(i as int, y@.len() as int).drop_first());
        i = i + 1;
    }
    if i == x.len() {
        if i == y.len() {
            Ordering::Equal
        } else {
            Ordering::Less
        }
    } else {
        Ordering::Greater
    }
}

} // verus!
