//! Byte strings as digests see them: the lexicographic order, equality,
//! and the concatenation that is hashed when two digests are combined.

use vstd::prelude::*;

verus! {

/// Lexicographic `<=` on byte strings: the first byte that differs decides,
/// and a string is below each of its extensions.
pub open spec fn lex_le(a: Seq<u8>, b: Seq<u8>) -> bool
    decreases a.len(),
{
    if a.len() == 0 {
        true
    } else if b.len() == 0 {
        false
    } else if a[0] != b[0] {
        a[0] < b[0]
    } else {
        lex_le(a.drop_first(), b.drop_first())
    }
}

/// The bytes that are hashed to combine two digests: the greater one
/// first, the lesser one second.
pub open spec fn spec_combine_input(left: Seq<u8>, right: Seq<u8>) -> Seq<u8> {
    if lex_le(left, right) {
        right + left
    } else {
        left + right
    }
}

/// The array whose bytes are the given ones, where there is one.
pub closed spec fn array_of<const N: usize>(bytes: Seq<u8>) -> [u8; N] {
    choose|array: [u8; N]| array@ == bytes
}

/// An array is the array of its own bytes.
pub proof fn lemma_array_of_view<const N: usize>(array: [u8; N])
    ensures
        array_of::<N>(array@) == array,
{
    let chosen = array_of::<N>(array@);
    assert(chosen@ == array@);
    assert(chosen =~= array);
}

/// Any two byte strings are comparable.
pub proof fn lemma_lex_le_total(a: Seq<u8>, b: Seq<u8>)
    ensures
        lex_le(a, b) || lex_le(b, a),
    decreases a.len(),
{
    if a.len() > 0 && b.len() > 0 && a[0] == b[0] {
        lemma_lex_le_total(a.drop_first(), b.drop_first());
    }
}

/// Two byte strings that are below each other are the same string.
pub proof fn lemma_lex_le_antisymmetric(a: Seq<u8>, b: Seq<u8>)
    requires
        lex_le(a, b),
        lex_le(b, a),
    ensures
        a == b,
    decreases a.len(),
{
    if a.len() == 0 || b.len() == 0 {
        assert(a =~= b);
    } else {
        lemma_lex_le_antisymmetric(a.drop_first(), b.drop_first());
        assert(a =~= seq![a[0]] + a.drop_first());
        assert(b =~= seq![b[0]] + b.drop_first());
    }
}

/// The order is the same whichever way round the pair is combined.
pub proof fn lemma_combine_input_symmetric(left: Seq<u8>, right: Seq<u8>)
    ensures
        spec_combine_input(left, right) == spec_combine_input(right, left),
{
    lemma_lex_le_total(left, right);
    if lex_le(left, right) && lex_le(right, left) {
        lemma_lex_le_antisymmetric(left, right);
    }
}

/// Unfolds the order at a common prefix: only what follows it decides.
proof fn lemma_lex_le_skip(a: Seq<u8>, b: Seq<u8>, n: int)
    requires
        0 <= n <= a.len(),
        n <= b.len(),
        a.take(n) == b.take(n),
    ensures
        lex_le(a, b) == lex_le(a.skip(n), b.skip(n)),
    decreases n,
{
    if n == 0 {
        assert(a.skip(0) =~= a);
        assert(b.skip(0) =~= b);
    } else {
        assert(a[0] == a.take(n)[0]);
        assert(b[0] == b.take(n)[0]);
        assert(a.drop_first().take(n - 1) =~= a.take(n).drop_first());
        assert(b.drop_first().take(n - 1) =~= b.take(n).drop_first());
        lemma_lex_le_skip(a.drop_first(), b.drop_first(), n - 1);
        assert(a.drop_first().skip(n - 1) =~= a.skip(n));
        assert(b.drop_first().skip(n - 1) =~= b.skip(n));
    }
}

/// Whether two byte strings are the same.
pub fn bytes_eq(a: &[u8], b: &[u8]) -> (same: bool)
    ensures
        same == (a@ == b@),
{
    if a.len() != b.len() {
        return false;
    }
    let mut index: usize = 0;
    while index < a.len()
        invariant
            index <= a.len(),
            a.len() == b.len(),
            a@.take(index as int) == b@.take(index as int),
        decreases a.len() - index,
    {
        if a[index] != b[index] {
            return false;
        }
        assert(a@.take(index + 1) =~= a@.take(index as int).push(a@[index as int]));
        assert(b@.take(index + 1) =~= b@.take(index as int).push(b@[index as int]));
        index += 1;
    }
    assert(a@ =~= a@.take(index as int));
    assert(b@ =~= b@.take(index as int));
    true
}

/// Whether the first byte string is lexicographically at most the second.
pub fn bytes_le(a: &[u8], b: &[u8]) -> (below: bool)
    ensures
        below == lex_le(a@, b@),
{
    let mut index: usize = 0;
    while index < a.len() && index < b.len()
        invariant
            index <= a.len(),
            index <= b.len(),
            a@.take(index as int) == b@.take(index as int),
        decreases a.len() - index,
    {
        proof {
            lemma_lex_le_skip(a@, b@, index as int);
        }
        if a[index] != b[index] {
            return a[index] < b[index];
        }
        assert(a@.take(index + 1) =~= a@.take(index as int).push(a@[index as int]));
        assert(b@.take(index + 1) =~= b@.take(index as int).push(b@[index as int]));
        index += 1;
    }
    proof {
        lemma_lex_le_skip(a@, b@, index as int);
    }
    index == a.len()
}

/// The first byte string followed by the second.
pub fn join(first: &[u8], second: &[u8]) -> (joined: Vec<u8>)
    ensures
        joined@ == first@ + second@,
{
    let mut joined: Vec<u8> = Vec::new();
    let mut index: usize = 0;
    while index < first.len()
        invariant
            index <= first.len(),
            joined@ == first@.take(index as int),
        decreases first.len() - index,
    {
        joined.push(first[index]);
        assert(first@.take(index + 1) =~= first@.take(index as int).push(first@[index as int]));
        index += 1;
    }
    assert(first@ =~= first@.take(index as int));
    index = 0;
    while index < second.len()
        invariant
            index <= second.len(),
            joined@ == first@ + second@.take(index as int),
        decreases second.len() - index,
    {
        joined.push(second[index]);
        assert(first@ + second@.take(index + 1) =~= (first@ + second@.take(index as int)).push(
            second@[index as int],
        ));
        index += 1;
    }
    assert(second@ =~= second@.take(index as int));
    joined
}

/// The bytes that are hashed to combine two digests with the given bytes.
pub fn combine_input(left: &[u8], right: &[u8]) -> (input: Vec<u8>)
    ensures
        input@ == spec_combine_input(left@, right@),
{
    if bytes_le(left, right) {
        join(right, left)
    } else {
        join(left, right)
    }
}

} // verus!
