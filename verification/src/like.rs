//! SQL LIKE pattern matching: `%` matches any run of characters, `_` any
//! single character, and every other pattern character matches itself. The
//! case-insensitive form folds ASCII letters on both sides.

use vstd::prelude::*;

use crate::datum::chars_of;

verus! {

/// Whether the pattern matches the whole text.
pub open spec fn like_match(p: Seq<char>, t: Seq<char>) -> bool
    decreases p.len() + t.len(),
{
    if p.len() == 0 {
        t.len() == 0
    } else if p[0] == '%' {
        like_match(p.drop_first(), t) || (t.len() > 0 && like_match(p, t.drop_first()))
    } else if p[0] == '_' {
        t.len() > 0 && like_match(p.drop_first(), t.drop_first())
    } else {
        t.len() > 0 && p[0] == t[0] && like_match(p.drop_first(), t.drop_first())
    }
}

/// An ASCII capital letter folded to lower case; any other character kept.
pub open spec fn lower_char(c: char) -> char {
    if 'A' <= c && c <= 'Z' {
        ((c as u32) + 32) as char
    } else {
        c
    }
}

/// Every character of the sequence folded by `lower_char`.
pub open spec fn lower_chars(s: Seq<char>) -> Seq<char> {
    s.map_values(|c: char| lower_char(c))
}

/// Whether the pattern matches the text under the requested case treatment.
pub open spec fn like_match_with(p: Seq<char>, t: Seq<char>, case_insensitive: bool) -> bool {
    if case_insensitive {
        like_match(lower_chars(p), lower_chars(t))
    } else {
        like_match(p, t)
    }
}

/// Folds one character to ASCII lower case.
fn lower_char_exec(c: char) -> (r: char)
    ensures
        r == lower_char(c),
{
    if 'A' <= c && c <= 'Z' {
        let v = (c as u32) + 32;
        proof {
            vstd::utf8::char_is_scalar(c);
            assert((c as u32) < 0xD800);
            assert(vstd::utf8::is_scalar(v));
        }
        match crate::trusted::char_from_u32(v) {
            Some(l) => l,
            None => c,
        }
    } else {
        c
    }
}

/// Folds a character vector to ASCII lower case.
fn lower_chars_exec(s: &Vec<char>) -> (r: Vec<char>)
    ensures
        r@ == lower_chars(s@),
{
    let mut v: Vec<char> = Vec::new();
    let mut i: usize = 0;
    while i < s.len()
        invariant
            i <= s.len(),
            v@.len() == i,
            forall|j: int| 0 <= j < i ==> v@[j] == lower_char(#[trigger] s@[j]),
        decreases s.len() - i,
    {
        v.push(lower_char_exec(s[i]));
        i = i + 1;
    }
    proof {
        assert(v@ =~= lower_chars(s@));
    }
    v
}

/// Whether the pattern matches the text from the given positions on.
fn match_at(p: &Vec<char>, t: &Vec<char>, i: usize, j: usize) -> (r: bool)
    requires
        i <= p.len(),
        j <= t.len(),
    ensures
        r == like_match(p@.skip(i as int), t@.skip(j as int)),
    decreases p@.len() - i + t@.len() - j,
{
    let ghost sp = p@.skip(i as int);
    let ghost st = t@.skip(j as int);
    proof {
        assert(sp.len() == p@.len() - i);
        assert(st.len() == t@.len() - j);
        if i < p.len() {
            assert(sp[0] == p@[i as int]);
            assert(sp.drop_first() =~= p@.skip(i + 1));
        }
        if j < t.len() {
            assert(st[0] == t@[j as int]);
            assert(st.drop_first() =~= t@.skip(j + 1));
        }
    }
    if i == p.len() {
        j == t.len()
    } else {
        let c = p[i];
        if c == '%' {
            if match_at(p, t, i + 1, j) {
                true
            } else if j < t.len() {
                match_at(p, t, i, j + 1)
            } else {
                false
            }
        } else if c == '_' {
            j < t.len() && match_at(p, t, i + 1, j + 1)
        } else {
            if j < t.len() {
                let d = t[j];
                c == d && match_at(p, t, i + 1, j + 1)
            } else {
                false
            }
        }
    }
}

/// Whether the pattern matches the whole text under the requested case
/// treatment.
pub fn like_matches(pattern: &String, text: &String, case_insensitive: bool) -> (r: bool)
    ensures
        r == like_match_with(pattern@, text@, case_insensitive),
{
    let p = chars_of(pattern.as_str());
    let t = chars_of(text.as_str());
    if case_insensitive {
        let pl = lower_chars_exec(&p);
        let tl = lower_chars_exec(&t);
        proof {
            assert(pl@.skip(0) =~= pl@);
            assert(tl@.skip(0) =~= tl@);
        }
        match_at(&pl, &tl, 0, 0)
    } else {
        proof {
            assert(p@.skip(0) =~= p@);
            assert(t@.skip(0) =~= t@);
        }
        match_at(&p, &t, 0, 0)
    }
}

} // verus!
