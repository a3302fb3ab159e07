//! Text operations of std that the game's rules use, with what their
//! documentation promises.
use vstd::prelude::*;

verus! {

/// Whether `c` has the Unicode White_Space property, the notion of whitespace
/// that `str::trim` uses: tab, line feed, vertical tab, form feed, carriage
/// return, space, next line, no-break space, ogham space mark, the spaces from
/// en quad to hair space, line separator, paragraph separator, narrow no-break
/// space, medium mathematical space and ideographic space.
pub open spec fn is_unicode_white_space(c: char) -> bool {
    let u = c as u32;
    ||| 0x09 <= u <= 0x0d
    ||| u == 0x20
    ||| u == 0x85
    ||| u == 0xa0
    ||| u == 0x1680
    ||| 0x2000 <= u <= 0x200a
    ||| u == 0x2028
    ||| u == 0x2029
    ||| u == 0x202f
    ||| u == 0x205f
    ||| u == 0x3000
}

/// The Unicode full lowercase mapping of a text, as `str::to_lowercase` gives
/// it.
pub uninterp spec fn lowercase(s: Seq<char>) -> Seq<char>;

/// The ASCII lowercase of a character; other characters are unchanged.
pub open spec fn ascii_lower(c: char) -> char {
    if 'A' <= c && c <= 'Z' {
        ((c as u32) + 32) as char
    } else {
        c
    }
}

/// Two texts that match when ASCII letters are compared without case.
pub open spec fn eq_ignore_ascii_case(a: Seq<char>, b: Seq<char>) -> bool {
    &&& a.len() == b.len()
    &&& forall|i: int| 0 <= i < a.len() ==> ascii_lower(#[trigger] a[i]) == ascii_lower(b[i])
}

/// `needle` occurs in `hay` at some position.
pub open spec fn contains_text(hay: Seq<char>, needle: Seq<char>) -> bool {
    exists|i: int| 0 <= i && i + needle.len() <= hay.len() && #[trigger] hay.subrange(i, i + needle.len()) == needle
}

/// `t` is `s` without its leading and trailing whitespace: `t` stands in `s`
/// at some position, everything around it is whitespace, and `t` neither
/// starts nor ends with whitespace.
pub open spec fn is_trim(s: Seq<char>, t: Seq<char>) -> bool {
    &&& exists|i: int|
        0 <= i <= s.len() - t.len() && t == #[trigger] s.subrange(i, i + t.len()) && (forall|k: int|
            0 <= k < s.len() && (k < i || i + t.len() <= k) ==> is_unicode_white_space(
                #[trigger] s[k],
            ))
    &&& t.len() > 0 ==> !is_unicode_white_space(t[0]) && !is_unicode_white_space(t[t.len() - 1])
}

/// The text `s` without its leading and trailing whitespace.
pub open spec fn trimmed(s: Seq<char>) -> Seq<char> {
    choose|t: Seq<char>| is_trim(s, t)
}

/// A text has one trimmed form.
pub proof fn lemma_trim_unique(s: Seq<char>, t1: Seq<char>, t2: Seq<char>)
    requires
        is_trim(s, t1),
        is_trim(s, t2),
    ensures
        t1 == t2,
{
    let i1 = choose|i: int|
        0 <= i <= s.len() - t1.len() && t1 == #[trigger] s.subrange(i, i + t1.len()) && (forall|k: int|
            0 <= k < s.len() && (k < i || i + t1.len() <= k) ==> is_unicode_white_space(
                #[trigger] s[k],
            ));
    let i2 = choose|i: int|
        0 <= i <= s.len() - t2.len() && t2 == #[trigger] s.subrange(i, i + t2.len()) && (forall|k: int|
            0 <= k < s.len() && (k < i || i + t2.len() <= k) ==> is_unicode_white_space(
                #[trigger] s[k],
            ));
    if t1.len() == 0 && t2.len() > 0 {
        assert(s[i2] == t2[0]);
    } else if t2.len() == 0 && t1.len() > 0 {
        assert(s[i1] == t1[0]);
    } else if t1.len() > 0 && t2.len() > 0 {
        if i1 < i2 {
            assert(s[i1] == t1[0]);
        } else if i2 < i1 {
            assert(s[i2] == t2[0]);
        }
        assert(i1 == i2);
        let e1 = i1 + t1.len();
        let e2 = i2 + t2.len();
        if e1 < e2 {
            assert(s[e2 - 1] == t2[t2.len() - 1]);
        } else if e2 < e1 {
            assert(s[e1 - 1] == t1[t1.len() - 1]);
        }
        assert(t1 =~= t2);
    } else {
        assert(t1 =~= t2);
    }
}

/// The character of a decimal digit.
pub open spec fn digit_char(d: nat) -> char {
    ((('0' as u32) + d) as u32) as char
}

/// The decimal digits of a natural number, without leading zeros.
pub open spec fn decimal(n: nat) -> Seq<char>
    decreases n,
{
    if n < 10 {
        seq![digit_char(n)]
    } else {
        decimal(n / 10).push(digit_char(n % 10))
    }
}

/// The decimal text of an integer, with a leading `-` when it is negative.
pub open spec fn signed_decimal(n: int) -> Seq<char> {
    if n < 0 {
        seq!['-'] + decimal((-n) as nat)
    } else {
        decimal(n as nat)
    }
}

/// `<str as PartialEq>::eq`: whether the two texts are the same.
#[verifier::external_body]
pub fn str_eq(a: &str, b: &str) -> (r: bool)
    ensures
        r == (a@ == b@),
{
    a == b
}

/// `str::trim`: the text without leading and trailing Unicode whitespace.
#[verifier::external_body]
pub fn trim(s: &str) -> (r: &str)
    ensures
        is_trim(s@, r@),
{
    s.trim()
}

/// The trimmed text of `s`, by `str::trim`.
pub fn trim_text(s: &str) -> (r: &str)
    ensures
        r@ == trimmed(s@),
{
    let r = trim(s);
    proof {
        lemma_trim_unique(s@, r@, trimmed(s@));
    }
    r
}

/// `str::eq_ignore_ascii_case`: the two texts are equal once ASCII letters
/// are lowered.
#[verifier::external_body]
pub fn ascii_case_insensitive_eq(a: &str, b: &str) -> (r: bool)
    ensures
        r == eq_ignore_ascii_case(a@, b@),
{
    a.eq_ignore_ascii_case(b)
}

/// `str::to_lowercase`: the Unicode lowercase of the text.
#[verifier::external_body]
pub fn to_lowercase(s: &str) -> (r: String)
    ensures
        r@ == lowercase(s@),
{
    s.to_lowercase()
}

/// `str::contains` with a text pattern: whether `needle` occurs in `hay`.
#[verifier::external_body]
pub fn contains(hay: &str, needle: &str) -> (r: bool)
    ensures
        r == contains_text(hay@, needle@),
{
    hay.contains(needle)
}

/// `ToString` for `u64`: its decimal text.
#[verifier::external_body]
pub fn u64_text(n: u64) -> (r: String)
    ensures
        r@ == decimal(n as nat),
{
    n.to_string()
}

} // verus!
