//! Upper case, as key extraction needs it: characters in, characters out.

use vstd::prelude::*;

verus! {

/// The capital letters of ASCII.
pub open spec fn is_upper(c: char) -> bool {
    'A' <= c <= 'Z'
}

/// The small letters of ASCII.
pub open spec fn is_lower(c: char) -> bool {
    'a' <= c <= 'z'
}

/// The digits of ASCII.
pub open spec fn is_digit(c: char) -> bool {
    '0' <= c <= '9'
}

/// The characters of ASCII.
pub open spec fn is_ascii(c: char) -> bool {
    (c as u32) < 128
}

/// A small ASCII letter as its capital; any other character as it is.
pub open spec fn ascii_upper(c: char) -> char {
    if is_lower(c) {
        ((c as u8) - 32) as u8 as char
    } else {
        c
    }
}

/// What `char::to_uppercase` yields for `c`: the upper-case mapping that
/// Unicode gives the character, which has one to three characters.
pub uninterp spec fn unicode_upper(c: char) -> Seq<char>;

/// The upper case of one character. For ASCII it is written out; for the
/// rest it is Unicode's mapping, which may have several characters.
pub open spec fn upper_char(c: char) -> Seq<char> {
    if is_ascii(c) {
        seq![ascii_upper(c)]
    } else {
        unicode_upper(c)
    }
}

/// The upper case of a sequence: that of its characters, one after another.
pub open spec fn uppercase(s: Seq<char>) -> Seq<char>
    decreases s.len(),
{
    if s.len() == 0 {
        Seq::empty()
    } else {
        uppercase(s.drop_last()) + upper_char(s.last())
    }
}

/// Upper case goes through a concatenation.
pub proof fn lemma_uppercase_concat(a: Seq<char>, b: Seq<char>)
    ensures
        uppercase(a + b) == uppercase(a) + uppercase(b),
    decreases b.len(),
{
    if b.len() == 0 {
        assert(a + b =~= a);
        assert(uppercase(a) + uppercase(b) =~= uppercase(a));
    } else {
        lemma_uppercase_concat(a, b.drop_last());
        assert((a + b).drop_last() =~= a + b.drop_last());
        assert((a + b).last() == b.last());
        assert(uppercase(a) + (uppercase(b.drop_last()) + upper_char(b.last())) =~= (uppercase(a)
            + uppercase(b.drop_last())) + upper_char(b.last()));
    }
}

/// Upper case leaves a sequence as it is if that holds only ASCII
/// characters other than small letters.
pub proof fn lemma_uppercase_fixed(s: Seq<char>)
    requires
        forall|i: int| 0 <= i < s.len() ==> is_ascii(#[trigger] s[i]) && !is_lower(s[i]),
    ensures
        uppercase(s) == s,
    decreases s.len(),
{
    if s.len() > 0 {
        lemma_uppercase_fixed(s.drop_last());
        assert(s.drop_last() + seq![s.last()] =~= s);
    }
}

/// Whether `c` is a capital ASCII letter.
pub fn char_is_upper(c: char) -> (r: bool)
    ensures
        r == is_upper(c),
{
    'A' <= c && c <= 'Z'
}

/// Whether `c` is a small ASCII letter.
pub fn char_is_lower(c: char) -> (r: bool)
    ensures
        r == is_lower(c),
{
    'a' <= c && c <= 'z'
}

/// Whether `c` is an ASCII digit.
pub fn char_is_digit(c: char) -> (r: bool)
    ensures
        r == is_digit(c),
{
    '0' <= c && c <= '9'
}

/// A small ASCII letter as its capital; any other character as it is.
pub fn to_ascii_upper(c: char) -> (r: char)
    ensures
        r == ascii_upper(c),
{
    if 'a' <= c && c <= 'z' {
        let b: u8 = c as u8;
        (b - 32) as char
    } else {
        c
    }
}

/// `char::to_uppercase`, collected into a vector: the characters of the
/// upper-case mapping of `c`, in order.
#[verifier::external_body]
fn unicode_upper_of(c: char) -> (r: Vec<char>)
    ensures
        r@ == unicode_upper(c),
{
    c.to_uppercase().collect()
}

/// The upper case of `s`.
pub fn to_uppercase(s: &Vec<char>) -> (r: Vec<char>)
    ensures
        r@ == uppercase(s@),
{
    let mut out: Vec<char> = Vec::new();
    let mut i: usize = 0;
    while i < s.len()
        invariant
            i <= s.len(),
            out@ == uppercase(s@.take(i as int)),
        decreases s.len() - i,
    {
        let c = s[i];
        let ghost before = out@;
        assert(s@.take(i + 1).drop_last() =~= s@.take(i as int));
        if (c as u32) < 128 {
            out.push(to_ascii_upper(c));
            assert(out@ =~= before + seq![ascii_upper(c)]);
        } else {
            let mapped = unicode_upper_of(c);
            let mut j: usize = 0;
            while j < mapped.len()
                invariant
                    j <= mapped.len(),
                    out@ == before + mapped@.take(j as int),
                decreases mapped.len() - j,
            {
                out.push(mapped[j]);
                j += 1;
                assert(mapped@.take(j as int) =~= mapped@.take(j - 1).push(mapped@[j - 1]));
            }
            assert(mapped@.take(mapped.len() as int) =~= mapped@);
        }
        i += 1;
    }
    assert(s@.take(s.len() as int) =~= s@);
    out
}

} // verus!
