//! Lexicographic order on byte-string keys, and the half-open key
//! intervals that range reads and deletes are scoped to.

use vstd::prelude::*;

verus! {

/// Strict lexicographic order on byte strings: the order etcd keys are
/// sorted in. `a` is less than `b` when `a` is a proper prefix of `b`, or
/// when the first differing byte of `a` is smaller.
pub open spec fn lex_lt(a: Seq<u8>, b: Seq<u8>) -> bool
    decreases a.len(),
{
    if b.len() == 0 {
        false
    } else if a.len() == 0 {
        true
    } else if a[0] < b[0] {
        true
    } else if a[0] > b[0] {
        false
    } else {
        lex_lt(a.drop_first(), b.drop_first())
    }
}

/// Membership of key `k` in the interval a request on the wire names: the
/// single key `key` when `range_end` is empty, else the half-open interval
/// `[key, range_end)` under the lexicographic order.
pub open spec fn wire_in_interval(key: Seq<u8>, range_end: Seq<u8>, k: Seq<u8>) -> bool {
    if range_end.len() == 0 {
        k == key
    } else {
        !lex_lt(k, key) && lex_lt(k, range_end)
    }
}

/// The `range_end` bytes that stand for an optional upper bound on the
/// wire: the empty byte string when the bound is absent.
pub open spec fn wire_end(end: Option<Seq<u8>>) -> Seq<u8> {
    match end {
        None => Seq::empty(),
        Some(e) => e,
    }
}

/// Membership of key `k` in the interval a `Range` stands for: the single
/// key `start` when `end` is absent or empty, else the half-open interval
/// `[start, end)` under the lexicographic order.
pub open spec fn in_interval(start: Seq<u8>, end: Option<Seq<u8>>, k: Seq<u8>) -> bool {
    wire_in_interval(start, wire_end(end), k)
}

/// The set of keys a wire-form request touches.
pub open spec fn wire_interval_set(key: Seq<u8>, range_end: Seq<u8>) -> Set<Seq<u8>> {
    Set::new(|k: Seq<u8>| wire_in_interval(key, range_end, k))
}

/// The set of keys a `Range` touches.
pub open spec fn interval_set(start: Seq<u8>, end: Option<Seq<u8>>) -> Set<Seq<u8>> {
    wire_interval_set(start, wire_end(end))
}

/// No byte string is lexicographically below itself.
pub proof fn lemma_lex_irreflexive(a: Seq<u8>)
    ensures
        !lex_lt(a, a),
    decreases a.len(),
{
    if a.len() > 0 {
        lemma_lex_irreflexive(a.drop_first());
    }
}

/// The order is connected: two byte strings compare one way or the other,
/// or are equal.
pub proof fn lemma_lex_connected(a: Seq<u8>, b: Seq<u8>)
    ensures
        lex_lt(a, b) || lex_lt(b, a) || a == b,
    decreases a.len(),
{
    if a.len() == 0 {
        if b.len() == 0 {
            assert(a =~= b);
        }
    } else if b.len() > 0 {
        if a[0] == b[0] {
            lemma_lex_connected(a.drop_first(), b.drop_first());
            if !lex_lt(a, b) && !lex_lt(b, a) {
                assert(a.drop_first() == b.drop_first());
                assert forall|i: int| 0 <= i < a.len() implies a[i] == b[i] by {
                    if i > 0 {
                        assert(a[i] == a.drop_first()[i - 1]);
                        assert(b[i] == b.drop_first()[i - 1]);
                    }
                }
                assert(a =~= b);
            }
        }
    }
}

/// The order is asymmetric: `a` below `b` rules out `b` below `a`.
pub proof fn lemma_lex_asymmetric(a: Seq<u8>, b: Seq<u8>)
    requires
        lex_lt(a, b),
    ensures
        !lex_lt(b, a),
        a != b,
    decreases a.len(),
{
    if a.len() > 0 && b.len() > 0 && a[0] == b[0] {
        lemma_lex_asymmetric(a.drop_first(), b.drop_first());
        if a == b {
            assert(a.drop_first() =~= b.drop_first());
        }
    } else {
        if a == b {
            lemma_lex_irreflexive(a);
        }
    }
}

/// The order is transitive.
pub proof fn lemma_lex_transitive(a: Seq<u8>, b: Seq<u8>, c: Seq<u8>)
    requires
        lex_lt(a, b),
        lex_lt(b, c),
    ensures
        lex_lt(a, c),
    decreases a.len(),
{
    if a.len() > 0 && b.len() > 0 && c.len() > 0 {
        if a[0] == b[0] && b[0] == c[0] {
            lemma_lex_transitive(a.drop_first(), b.drop_first(), c.drop_first());
        }
    }
}

/// Outcome of comparing two keys.
#[derive(Clone, Copy, PartialEq, Eq, Structural, Debug)]
pub enum KeyOrder {
    Less,
    Equal,
    Greater,
}

/// Compares the suffixes of `a` and `b` that start at position `i`.
fn key_compare_from(a: &Vec<u8>, b: &Vec<u8>, i: usize) -> (r: KeyOrder)
    requires
        i <= a.len(),
        i <= b.len(),
    ensures
        r is Less <==> lex_lt(a@.skip(i as int), b@.skip(i as int)),
        r is Greater <==> lex_lt(b@.skip(i as int), a@.skip(i as int)),
        r is Equal <==> a@.skip(i as int) == b@.skip(i as int),
    decreases a.len() - i,
{
    proof {
        lemma_lex_connected(a@.skip(i as int), b@.skip(i as int));
        if lex_lt(a@.skip(i as int), b@.skip(i as int)) {
            lemma_lex_asymmetric(a@.skip(i as int), b@.skip(i as int));
        }
        if lex_lt(b@.skip(i as int), a@.skip(i as int)) {
            lemma_lex_asymmetric(b@.skip(i as int), a@.skip(i as int));
        }
    }
    if i == b.len() {
        if i == a.len() {
            proof {
                assert(a@.skip(i as int) =~= b@.skip(i as int));
            }
            KeyOrder::Equal
        } else {
            KeyOrder::Greater
        }
    } else if i == a.len() {
        KeyOrder::Less
    } else if a[i] < b[i] {
        KeyOrder::Less
    } else if a[i] > b[i] {
        KeyOrder::Greater
    } else {
        let r = key_compare_from(a, b, i + 1);
        proof {
            assert(a@.skip(i as int).drop_first() =~= a@.skip(i + 1));
            assert(b@.skip(i as int).drop_first() =~= b@.skip(i + 1));
            if a@.skip(i as int) == b@.skip(i as int) {
                assert(a@.skip(i + 1) =~= a@.skip(i as int).drop_first());
            }
            if a@.skip(i + 1) == b@.skip(i + 1) {
                assert(a@.skip(i as int) =~= b@.skip(i as int));
            }
        }
        r
    }
}

/// Compares two keys in the lexicographic byte order.
pub fn key_compare(a: &Vec<u8>, b: &Vec<u8>) -> (r: KeyOrder)
    ensures
        r is Less <==> lex_lt(a@, b@),
        r is Greater <==> lex_lt(b@, a@),
        r is Equal <==> a@ == b@,
{
    proof {
        assert(a@.skip(0) =~= a@);
        assert(b@.skip(0) =~= b@);
    }
    key_compare_from(a, b, 0)
}

/// Whether `a` is strictly below `b` in the key order.
pub fn key_lt(a: &Vec<u8>, b: &Vec<u8>) -> (r: bool)
    ensures
        r == lex_lt(a@, b@),
{
    match key_compare(a, b) {
        KeyOrder::Less => true,
        _ => false,
    }
}

/// Whether two keys hold the same bytes.
pub fn key_eq(a: &Vec<u8>, b: &Vec<u8>) -> (r: bool)
    ensures
        r == (a@ == b@),
{
    match key_compare(a, b) {
        KeyOrder::Equal => true,
        _ => false,
    }
}

/// Whether `k` lies in the interval a wire-form request names.
pub fn key_in_wire_interval(key: &Vec<u8>, range_end: &Vec<u8>, k: &Vec<u8>) -> (r: bool)
    ensures
        r == wire_in_interval(key@, range_end@, k@),
{
    if range_end.len() == 0 {
        key_eq(k, key)
    } else {
        !key_lt(k, key) && key_lt(k, range_end)
    }
}

/// Whether `k` lies in the interval `[start, end)`, or equals `start`
/// when `end` is absent or empty.
pub fn key_in_interval(start: &Vec<u8>, end: &Option<Vec<u8>>, k: &Vec<u8>) -> (r: bool)
    ensures
        r == in_interval(start@, match end {
            Some(e) => Some(e@),
            None => None,
        }, k@),
{
    match end {
        None => key_eq(k, start),
        Some(e) => key_in_wire_interval(start, e, k),
    }
}

} // verus!
