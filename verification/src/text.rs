//! Verified text utilities: decimal rendering, string equality, and
//! character-boundary-respecting head/tail windows of a string.
//!
//! All reasoning is done at the level of `Seq<char>` views, so no operation
//! here can ever split a multi-byte encoded character.

use vstd::prelude::*;
use vstd::string::*;

verus! {

/// The ten decimal digit characters, indexable by digit value.
pub const DIGIT_CHARS: [char; 10] = ['0', '1', '2', '3', '4', '5', '6', '7', '8', '9'];

/// The character that writes the digit `d`.
pub open spec fn digit_char(d: int) -> char {
    DIGIT_CHARS[d]
}

/// The decimal writing of `n`, most significant digit first.
pub open spec fn spec_u64_digits(n: u64) -> Seq<char>
    decreases n,
{
    if n < 10 {
        seq![digit_char(n as int)]
    } else {
        spec_u64_digits(n / 10).push(digit_char((n % 10) as int))
    }
}

/// Appends the decimal writing of `n` to `out`.
pub fn push_u64(out: &mut String, n: u64)
    ensures
        final(out)@ == old(out)@ + spec_u64_digits(n),
    decreases n,
{
    if n >= 10 {
        push_u64(out, n / 10);
    }
    push_char(out, DIGIT_CHARS[(n % 10) as usize]);
    proof {
        if n >= 10 {
            assert(final(out)@ =~= old(out)@ + spec_u64_digits(n));
        } else {
            assert(spec_u64_digits(n) =~= seq![digit_char(n as int)]);
            assert(final(out)@ =~= old(out)@ + spec_u64_digits(n));
        }
    }
}

/// The decimal writing of `n` as a fresh string.
pub fn u64_to_string(n: u64) -> (r: String)
    ensures
        r@ == spec_u64_digits(n),
{
    let mut s = String::new();
    push_u64(&mut s, n);
    proof {
        assert(s@ =~= spec_u64_digits(n));
    }
    s
}

/// The decimal writing of `n`, left-padded with zeros to at least `w` characters,
/// for widths up to 4.
pub open spec fn spec_u64_padded(n: u64, w: int) -> Seq<char>
    decreases w,
{
    if w >= 4 && n < 1000 {
        seq![digit_char(0)] + spec_u64_padded(n, 3)
    } else if w >= 3 && n < 100 {
        seq![digit_char(0)] + spec_u64_padded(n, 2)
    } else if w >= 2 && n < 10 {
        seq![digit_char(0)] + spec_u64_digits(n)
    } else {
        spec_u64_digits(n)
    }
}

/// Appends the decimal writing of `n`, zero-padded to at least `w` characters
/// (`w` at most 4), to `out`.
pub fn push_u64_padded(out: &mut String, n: u64, w: usize)
    requires
        w <= 4,
    ensures
        final(out)@ == old(out)@ + spec_u64_padded(n, w as int),
    decreases w,
{
    proof {
        assert(digit_char(0) == '0');
    }
    if w >= 4 && n < 1000 {
        push_char(out, '0');
        push_u64_padded(out, n, 3);
        proof {
            assert(final(out)@ =~= old(out)@ + spec_u64_padded(n, w as int));
        }
    } else if w >= 3 && n < 100 {
        push_char(out, '0');
        push_u64_padded(out, n, 2);
        proof {
            assert(final(out)@ =~= old(out)@ + spec_u64_padded(n, w as int));
        }
    } else if w >= 2 && n < 10 {
        push_char(out, '0');
        push_u64(out, n);
        proof {
            assert(final(out)@ =~= old(out)@ + spec_u64_padded(n, w as int));
        }
    } else {
        push_u64(out, n);
    }
}

/// Whether two string slices hold the same characters.
pub fn str_eq(a: &str, b: &str) -> (r: bool)
    ensures
        r == (a@ == b@),
{
    let n = a.unicode_len();
    if n != b.unicode_len() {
        return false;
    }
    for i in 0..n
        invariant
            n == a@.len(),
            n == b@.len(),
            forall|j: int| 0 <= j < i ==> a@[j] == b@[j],
    {
        if a.get_char(i) != b.get_char(i) {
            return false;
        }
    }
    proof {
        assert(a@ =~= b@);
    }
    true
}

/// The trailing window of at most `n` characters of `s`.
pub open spec fn spec_tail_chars(s: Seq<char>, n: int) -> Seq<char> {
    if s.len() <= n {
        s
    } else {
        s.subrange(s.len() - n, s.len() as int)
    }
}

/// Returns the last at most `n` characters of `s`, never splitting a character.
pub fn tail_chars(s: &str, n: usize) -> (r: String)
    ensures
        r@ == spec_tail_chars(s@, n as int),
        r@.len() <= n || r@.len() == s@.len(),
{
    let len = s.unicode_len();
    if len <= n {
        s.to_owned()
    } else {
        let t = s.substring_char(len - n, len);
        t.to_owned()
    }
}

/// The leading window of at most `n` characters of `s`.
pub open spec fn spec_head_chars(s: Seq<char>, n: int) -> Seq<char> {
    if s.len() <= n {
        s
    } else {
        s.subrange(0, n)
    }
}

/// Returns the first at most `n` characters of `s`, never splitting a character.
pub fn head_chars(s: &str, n: usize) -> (r: String)
    ensures
        r@ == spec_head_chars(s@, n as int),
{
    let len = s.unicode_len();
    if len <= n {
        s.to_owned()
    } else {
        let t = s.substring_char(0, n);
        t.to_owned()
    }
}

/// Relies on `String::push` of std: appends exactly one character.
#[verifier::external_body]
pub fn push_char(s: &mut String, c: char)
    ensures
        final(s)@ == old(s)@ + seq![c],
{
    s.push(c);
}

/// The character-level views of a list of paired strings.
pub open spec fn pair_views(v: Seq<(String, String)>) -> Seq<(Seq<char>, Seq<char>)> {
    Seq::new(v.len(), |i: int| (v[i].0@, v[i].1@))
}

/// The character-level views of a list of strings.
pub open spec fn str_views(v: Seq<String>) -> Seq<Seq<char>> {
    Seq::new(v.len(), |i: int| v[i]@)
}

/// Lexicographic order on character sequences, by Unicode scalar value: the
/// order in which session ids are listed.
pub open spec fn lex_leq(a: Seq<char>, b: Seq<char>) -> bool
    decreases a.len(),
{
    if a.len() == 0 {
        true
    } else if b.len() == 0 {
        false
    } else if (a[0] as u32) < (b[0] as u32) {
        true
    } else if (b[0] as u32) < (a[0] as u32) {
        false
    } else {
        lex_leq(a.drop_first(), b.drop_first())
    }
}

/// Any two character sequences are lexicographically comparable.
pub proof fn lemma_lex_total(a: Seq<char>, b: Seq<char>)
    ensures
        lex_leq(a, b) || lex_leq(b, a),
    decreases a.len(),
{
    if a.len() > 0 && b.len() > 0 && (a[0] as u32) == (b[0] as u32) {
        lemma_lex_total(a.drop_first(), b.drop_first());
    }
}

/// Lexicographic order is transitive.
pub proof fn lemma_lex_trans(a: Seq<char>, b: Seq<char>, c: Seq<char>)
    requires
        lex_leq(a, b),
        lex_leq(b, c),
    ensures
        lex_leq(a, c),
    decreases a.len(),
{
    if a.len() > 0 && b.len() > 0 && c.len() > 0 && (a[0] as u32) == (b[0] as u32) && (
    b[0] as u32) == (c[0] as u32) {
        lemma_lex_trans(a.drop_first(), b.drop_first(), c.drop_first());
    }
}

/// Whether `a` comes at or before `b` in lexicographic order.
pub fn str_lex_leq(a: &str, b: &str) -> (r: bool)
    ensures
        r == lex_leq(a@, b@),
{
    let na = a.unicode_len();
    let nb = b.unicode_len();
    let mut i: usize = 0;
    proof {
        assert(a@.skip(0) =~= a@);
        assert(b@.skip(0) =~= b@);
    }
    loop
        invariant
            0 <= i <= na,
            i <= nb,
            na == a@.len(),
            nb == b@.len(),
            lex_leq(a@, b@) == lex_leq(a@.skip(i as int), b@.skip(i as int)),
        decreases na - i,
    {
        proof {
            if i < na && i < nb {
                assert(a@.skip(i as int)[0] == a@[i as int]);
                assert(b@.skip(i as int)[0] == b@[i as int]);
                assert(a@.skip(i as int).drop_first() =~= a@.skip(i as int + 1));
                assert(b@.skip(i as int).drop_first() =~= b@.skip(i as int + 1));
            }
        }
        if i == na {
            proof {
                assert(a@.skip(i as int).len() == 0);
            }
            return true;
        }
        if i == nb {
            proof {
                assert(b@.skip(i as int).len() == 0);
                assert(a@.skip(i as int).len() > 0);
            }
            return false;
        }
        let ca = a.get_char(i) as u32;
        let cb = b.get_char(i) as u32;
        if ca < cb {
            return true;
        }
        if cb < ca {
            return false;
        }
        i = i + 1;
    }
}

} // verus!
