//! ASCII-lowercase normalization of query names: the fixed policy that
//! underlies query identity, deduplication and correlation ids.

use vstd::prelude::*;

verus! {

/// The lowercase form of one character: ASCII uppercase letters fold,
/// every other character is unchanged.
pub open spec fn lower_char(c: char) -> char {
    if 'A' <= c && c <= 'Z' {
        ((c as u8) + 32) as char
    } else {
        c
    }
}

/// The lowercase form of a character sequence.
pub open spec fn norm(s: Seq<char>) -> Seq<char> {
    s.map_values(|c: char| lower_char(c))
}

fn lower_char_exec(c: char) -> (r: char)
    ensures
        r == lower_char(c),
{
    if 'A' <= c && c <= 'Z' {
        ((c as u8) + 32) as char
    } else {
        c
    }
}

/// ASCII-lowercases a string: the normalization applied to artist and
/// album names before they form a query identity.
pub fn normalize(s: &str) -> (r: String)
    ensures
        r@ == norm(s@),
{
    let alphabet: &str = "abcdefghijklmnopqrstuvwxyz";
    proof {
        reveal_strlit("abcdefghijklmnopqrstuvwxyz");
    }
    let n: usize = s.unicode_len();
    let mut r = String::new();
    let mut i: usize = 0;
    while i < n
        invariant
            n == s@.len(),
            i <= n,
            r@ == norm(s@.subrange(0, i as int)),
            alphabet@.len() == 26,
            forall|k: int| 0 <= k < 26 ==> alphabet@[k] == (97 + k) as char,
        decreases n - i,
    {
        let c = s.get_char(i);
        if 'A' <= c && c <= 'Z' {
            let k: usize = (c as u8 - 65) as usize;
            let piece = alphabet.substring_char(k, k + 1);
            assert(piece@ =~= seq![lower_char(c)]);
            r.append(piece);
        } else {
            let piece = s.substring_char(i, i + 1);
            assert(piece@ =~= seq![lower_char(c)]);
            r.append(piece);
        }
        proof {
            assert(s@.subrange(0, i + 1) =~= s@.subrange(0, i as int).push(c));
            assert(norm(s@.subrange(0, i + 1)) =~= norm(s@.subrange(0, i as int)).push(
                lower_char(c),
            ));
        }
        i = i + 1;
    }
    proof {
        assert(s@.subrange(0, n as int) =~= s@);
    }
    r
}

/// The normalization is idempotent: folding a second time changes nothing.
pub proof fn lemma_norm_idempotent(s: Seq<char>)
    ensures
        norm(norm(s)) =~= norm(s),
{
    assert forall|i: int| 0 <= i < s.len() implies lower_char(lower_char(s[i])) == lower_char(
        s[i],
    ) by {
        let c = s[i];
        if 'A' <= c && c <= 'Z' {
            assert(lower_char(lower_char(c)) == lower_char(c));
        }
    }
}

} // verus!
