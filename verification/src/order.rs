//! Three-way comparison results and lexicographic orders on character and
//! byte sequences, shared by the value model, the error taxonomy and the
//! expression codec.

use vstd::prelude::*;

verus! {

/// The outcome of a three-way comparison.
#[derive(Clone, Copy, Debug, PartialEq, Eq, Structural)]
pub enum Ord3 {
    Less,
    Equal,
    Greater,
}

/// Lexicographic three-way comparison of character sequences.
pub open spec fn lex_cmp_chars(a: Seq<char>, b: Seq<char>) -> Ord3
    decreases a.len(),
{
    if a.len() == 0 && b.len() == 0 {
        Ord3::Equal
    } else if a.len() == 0 {
        Ord3::Less
    } else if b.len() == 0 {
        Ord3::Greater
    } else if a[0] < b[0] {
        Ord3::Less
    } else if b[0] < a[0] {
        Ord3::Greater
    } else {
        lex_cmp_chars(a.drop_first(), b.drop_first())
    }
}

/// Lexicographic three-way comparison of byte sequences.
pub open spec fn lex_cmp_bytes(a: Seq<u8>, b: Seq<u8>) -> Ord3
    decreases a.len(),
{
    if a.len() == 0 && b.len() == 0 {
        Ord3::Equal
    } else if a.len() == 0 {
        Ord3::Less
    } else if b.len() == 0 {
        Ord3::Greater
    } else if a[0] < b[0] {
        Ord3::Less
    } else if b[0] < a[0] {
        Ord3::Greater
    } else {
        lex_cmp_bytes(a.drop_first(), b.drop_first())
    }
}

/// Comparing a character sequence with itself yields `Equal`, and `Equal`
/// is only ever returned for equal sequences.
pub proof fn lemma_lex_cmp_chars_eq(a: Seq<char>, b: Seq<char>)
    ensures
        lex_cmp_chars(a, b) == Ord3::Equal <==> a == b,
    decreases a.len(),
{
    if a.len() == 0 && b.len() == 0 {
        assert(a =~= b);
    } else if a.len() == 0 || b.len() == 0 {
    } else if a[0] == b[0] {
        lemma_lex_cmp_chars_eq(a.drop_first(), b.drop_first());
        if lex_cmp_chars(a, b) == Ord3::Equal {
            assert(a =~= seq![a[0]] + a.drop_first());
            assert(b =~= seq![b[0]] + b.drop_first());
        }
        if a == b {
            assert(a.drop_first() =~= b.drop_first());
        }
    } else {
        if a == b {
            assert(a[0] == b[0]);
        }
    }
}

/// The same, for byte sequences.
pub proof fn lemma_lex_cmp_bytes_eq(a: Seq<u8>, b: Seq<u8>)
    ensures
        lex_cmp_bytes(a, b) == Ord3::Equal <==> a == b,
    decreases a.len(),
{
    if a.len() == 0 && b.len() == 0 {
        assert(a =~= b);
    } else if a.len() == 0 || b.len() == 0 {
    } else if a[0] == b[0] {
        lemma_lex_cmp_bytes_eq(a.drop_first(), b.drop_first());
        if lex_cmp_bytes(a, b) == Ord3::Equal {
            assert(a =~= seq![a[0]] + a.drop_first());
            assert(b =~= seq![b[0]] + b.drop_first());
        }
        if a == b {
            assert(a.drop_first() =~= b.drop_first());
        }
    } else {
        if a == b {
            assert(a[0] == b[0]);
        }
    }
}

/// Swapping the arguments of the character comparison flips the outcome.
pub proof fn lemma_lex_cmp_chars_antisym(a: Seq<char>, b: Seq<char>)
    ensures
        lex_cmp_chars(a, b) == Ord3::Less <==> lex_cmp_chars(b, a) == Ord3::Greater,
    decreases a.len(),
{
    if a.len() != 0 && b.len() != 0 && a[0] == b[0] {
        lemma_lex_cmp_chars_antisym(a.drop_first(), b.drop_first());
    }
}

/// Lexicographic order on characters is transitive in its strict part.
pub proof fn lemma_lex_cmp_chars_trans(a: Seq<char>, b: Seq<char>, c: Seq<char>)
    requires
        lex_cmp_chars(a, b) != Ord3::Greater,
        lex_cmp_chars(b, c) != Ord3::Greater,
    ensures
        lex_cmp_chars(a, c) != Ord3::Greater,
    decreases a.len() + b.len() + c.len(),
{
    if a.len() == 0 {
    } else if b.len() == 0 {
    } else if c.len() == 0 {
    } else {
        if a[0] == b[0] && b[0] == c[0] {
            lemma_lex_cmp_chars_trans(a.drop_first(), b.drop_first(), c.drop_first());
        }
    }
}

/// Exact three-way comparison of two character slices read from strings.
pub fn cmp_chars_exec(a: &Vec<char>, b: &Vec<char>) -> (r: Ord3)
    ensures
        r == lex_cmp_chars(a@, b@),
{
    proof {
        assert(a@.skip(0) =~= a@);
        assert(b@.skip(0) =~= b@);
    }
    let mut i: usize = 0;
    while i < a.len() && i < b.len()
        invariant
            i <= a.len(),
            i <= b.len(),
            forall|j: int| 0 <= j < i ==> a@[j] == b@[j],
            lex_cmp_chars(a@, b@) == lex_cmp_chars(a@.skip(i as int), b@.skip(i as int)),
        decreases a.len() - i,
    {
        let x = a[i];
        let y = b[i];
        proof {
            let sa = a@.skip(i as int);
            let sb = b@.skip(i as int);
            assert(sa[0] == a@[i as int]);
            assert(sb[0] == b@[i as int]);
            assert(sa.drop_first() =~= a@.skip(i + 1));
            assert(sb.drop_first() =~= b@.skip(i + 1));
        }
        if x < y {
            return Ord3::Less;
        } else if y < x {
            return Ord3::Greater;
        }
        i = i + 1;
    }
    proof {
        let sa = a@.skip(i as int);
        let sb = b@.skip(i as int);
        assert(sa.len() == a@.len() - i);
        assert(sb.len() == b@.len() - i);
    }
    if i < b.len() {
        Ord3::Less
    } else if i < a.len() {
        Ord3::Greater
    } else {
        Ord3::Equal
    }
}

/// Exact three-way comparison of two byte vectors.
pub fn cmp_bytes_exec(a: &Vec<u8>, b: &Vec<u8>) -> (r: Ord3)
    ensures
        r == lex_cmp_bytes(a@, b@),
{
    proof {
        assert(a@.skip(0) =~= a@);
        assert(b@.skip(0) =~= b@);
    }
    let mut i: usize = 0;
    while i < a.len() && i < b.len()
        invariant
            i <= a.len(),
            i <= b.len(),
            forall|j: int| 0 <= j < i ==> a@[j] == b@[j],
            lex_cmp_bytes(a@, b@) == lex_cmp_bytes(a@.skip(i as int), b@.skip(i as int)),
        decreases a.len() - i,
    {
        let x = a[i];
        let y = b[i];
        proof {
            let sa = a@.skip(i as int);
            let sb = b@.skip(i as int);
            assert(sa[0] == a@[i as int]);
            assert(sb[0] == b@[i as int]);
            assert(sa.drop_first() =~= a@.skip(i + 1));
            assert(sb.drop_first() =~= b@.skip(i + 1));
        }
        if x < y {
            return Ord3::Less;
        } else if y < x {
            return Ord3::Greater;
        }
        i = i + 1;
    }
    proof {
        let sa = a@.skip(i as int);
        let sb = b@.skip(i as int);
        assert(sa.len() == a@.len() - i);
        assert(sb.len() == b@.len() - i);
    }
    if i < b.len() {
        Ord3::Less
    } else if i < a.len() {
        Ord3::Greater
    } else {
        Ord3::Equal
    }
}

} // verus!
