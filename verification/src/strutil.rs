//! Small character and string helpers shared by the parser, the header map
//! and the response writer.

use vstd::prelude::*;

verus! {

/// ASCII upper-casing of a single character; anything outside `a..=z` is kept.
pub open spec fn upper_char(c: char) -> char {
    if 'a' <= c && c <= 'z' {
        ((c as u8) - 0x20) as char
    } else {
        c
    }
}

/// ASCII lower-casing of a single character; anything outside `A..=Z` is kept.
pub open spec fn lower_char(c: char) -> char {
    if 'A' <= c && c <= 'Z' {
        ((c as u8) + 0x20) as char
    } else {
        c
    }
}

/// ASCII whitespace, the characters removed by trimming.
pub open spec fn is_space_char(c: char) -> bool {
    c == ' ' || c == '\t' || c == '\n' || c == '\r' || c == '\x0B' || c == '\x0C'
}

/// Upper-cases one character, ASCII-wise.
pub fn to_upper_char(c: char) -> (r: char)
    ensures
        r == upper_char(c),
{
    if 'a' <= c && c <= 'z' {
        ((c as u8) - 0x20) as char
    } else {
        c
    }
}

/// Lower-cases one character, ASCII-wise.
pub fn to_lower_char(c: char) -> (r: char)
    ensures
        r == lower_char(c),
{
    if 'A' <= c && c <= 'Z' {
        ((c as u8) + 0x20) as char
    } else {
        c
    }
}

/// Tests for ASCII whitespace.
pub fn is_space(c: char) -> (r: bool)
    ensures
        r == is_space_char(c),
{
    c == ' ' || c == '\t' || c == '\n' || c == '\r' || c == '\x0B' || c == '\x0C'
}

/// Relies on `String::push`: appends exactly the given character.
#[verifier::external_body]
pub fn push_char(s: &mut String, c: char)
    ensures
        final(s)@ == old(s)@.push(c),
{
    s.push(c);
}

/// A string upper-cased character by character, ASCII-wise.
pub open spec fn upper_str(s: Seq<char>) -> Seq<char> {
    s.map_values(|c: char| upper_char(c))
}

/// Upper-cases a string, ASCII-wise.
pub fn to_ascii_upper(s: &str) -> (r: String)
    ensures
        r@ == upper_str(s@),
{
    let len = s.unicode_len();
    let mut out = String::new();
    let mut i: usize = 0;
    while i < len
        invariant
            i <= len,
            len == s@.len(),
            out@ == s@.subrange(0, i as int).map_values(|c: char| upper_char(c)),
        decreases len - i,
    {
        let c = to_upper_char(s.get_char(i));
        push_char(&mut out, c);
        proof {
            assert(s@.subrange(0, i + 1 as int).map_values(|c: char| upper_char(c)) =~= s@
                .subrange(0, i as int).map_values(|c: char| upper_char(c)).push(
                upper_char(s@[i as int]),
            ));
        }
        i = i + 1;
    }
    proof {
        assert(s@.subrange(0, len as int) =~= s@);
    }
    out
}

/// String equality, decided character by character.
pub fn str_eq(a: &str, b: &str) -> (r: bool)
    ensures
        r == (a@ == b@),
{
    let alen = a.unicode_len();
    let blen = b.unicode_len();
    if alen != blen {
        return false;
    }
    let mut i: usize = 0;
    while i < alen
        invariant
            i <= alen,
            alen == a@.len(),
            alen == b@.len(),
            forall|j: int| 0 <= j < i ==> a@[j] == b@[j],
        decreases alen - i,
    {
        if a.get_char(i) != b.get_char(i) {
            return false;
        }
        i = i + 1;
    }
    proof {
        assert(a@ =~= b@);
    }
    true
}

/// The string with leading ASCII whitespace removed.
pub open spec fn trim_start_spec(s: Seq<char>) -> Seq<char>
    decreases s.len(),
{
    if s.len() > 0 && is_space_char(s[0]) {
        trim_start_spec(s.skip(1))
    } else {
        s
    }
}

/// The string with trailing ASCII whitespace removed.
pub open spec fn trim_end_spec(s: Seq<char>) -> Seq<char>
    decreases s.len(),
{
    if s.len() > 0 && is_space_char(s[s.len() - 1]) {
        trim_end_spec(s.take(s.len() - 1))
    } else {
        s
    }
}

/// The string with whitespace removed on both ends.
pub open spec fn trim_spec(s: Seq<char>) -> Seq<char> {
    trim_end_spec(trim_start_spec(s))
}

/// Removes leading ASCII whitespace.
pub fn trim_start(s: &str) -> (r: &str)
    ensures
        r@ == trim_start_spec(s@),
    decreases s@.len(),
{
    let len = s.unicode_len();
    if len > 0 && is_space(s.get_char(0)) {
        let rest = s.substring_char(1, len);
        proof {
            assert(rest@ =~= s@.skip(1));
        }
        trim_start(rest)
    } else {
        s
    }
}

/// Removes trailing ASCII whitespace.
pub fn trim_end(s: &str) -> (r: &str)
    ensures
        r@ == trim_end_spec(s@),
    decreases s@.len(),
{
    let len = s.unicode_len();
    if len > 0 && is_space(s.get_char(len - 1)) {
        let rest = s.substring_char(0, len - 1);
        proof {
            assert(rest@ =~= s@.take(s@.len() - 1));
        }
        trim_end(rest)
    } else {
        s
    }
}

/// Removes ASCII whitespace on both ends.
pub fn trim(s: &str) -> (r: &str)
    ensures
        r@ == trim_spec(s@),
{
    trim_end(trim_start(s))
}

/// The position of the first occurrence of `c` in `s`, or `s.len()` if absent.
pub open spec fn char_index(s: Seq<char>, c: char) -> nat
    decreases s.len(),
{
    if s.len() == 0 {
        0
    } else if s[0] == c {
        0
    } else {
        1 + char_index(s.skip(1), c)
    }
}

/// What `char_index` returns: a position at most `s.len()`, holding `c` when
/// inside the string, with no earlier occurrence of `c`.
pub proof fn lemma_char_index(s: Seq<char>, c: char)
    ensures
        char_index(s, c) <= s.len(),
        char_index(s, c) < s.len() ==> s[char_index(s, c) as int] == c,
        forall|j: int| 0 <= j < char_index(s, c) ==> s[j] != c,
    decreases s.len(),
{
    if s.len() == 0 || s[0] == c {
    } else {
        lemma_char_index(s.skip(1), c);
        let i = char_index(s, c);
        assert forall|j: int| 0 <= j < i implies s[j] != c by {
            if j > 0 {
                assert(s.skip(1)[j - 1] == s[j]);
            }
        }
        if i < s.len() {
            assert(s.skip(1)[i - 1] == s[i as int]);
        }
    }
}

/// Finds the first occurrence of `c`, reporting `s.len()` if there is none.
pub fn find_char(s: &str, c: char) -> (i: usize)
    ensures
        i as nat == char_index(s@, c),
        i <= s@.len(),
    decreases s@.len(),
{
    proof {
        lemma_char_index(s@, c);
    }
    let len = s.unicode_len();
    if len == 0 {
        0
    } else if s.get_char(0) == c {
        0
    } else {
        let rest = s.substring_char(1, len);
        proof {
            assert(rest@ =~= s@.skip(1));
        }
        let r = find_char(rest, c);
        1 + r
    }
}

/// Splits at the first occurrence of `c`; the separator itself is dropped.
pub fn split_once_char<'a>(s: &'a str, c: char) -> (r: Option<(&'a str, &'a str)>)
    ensures
        match r {
            Some(parts) => {
                let i = char_index(s@, c) as int;
                &&& i < s@.len()
                &&& parts.0@ == s@.subrange(0, i)
                &&& parts.1@ == s@.subrange(i + 1, s@.len() as int)
            },
            None => char_index(s@, c) == s@.len(),
        },
{
    let len = s.unicode_len();
    let i = find_char(s, c);
    if i == len {
        None
    } else {
        Some((s.substring_char(0, i), s.substring_char(i + 1, len)))
    }
}

/// The position of the last occurrence of `c` in `s`, or `-1` if absent.
pub open spec fn last_index_of(s: Seq<char>, c: char) -> int
    decreases s.len(),
{
    if s.len() == 0 {
        -1
    } else if s[s.len() - 1] == c {
        s.len() - 1
    } else {
        last_index_of(s.take(s.len() - 1), c)
    }
}

/// What `last_index_of` returns: a position below `s.len()`, holding `c` when
/// not `-1`, with no later occurrence of `c`.
pub proof fn lemma_last_index_of(s: Seq<char>, c: char)
    ensures
        -1 <= last_index_of(s, c) < s.len(),
        last_index_of(s, c) >= 0 ==> s[last_index_of(s, c)] == c,
        forall|j: int| last_index_of(s, c) < j < s.len() ==> s[j] != c,
    decreases s.len(),
{
    if s.len() == 0 || s[s.len() - 1] == c {
    } else {
        lemma_last_index_of(s.take(s.len() - 1), c);
        let i = last_index_of(s, c);
        assert forall|j: int| i < j < s.len() implies s[j] != c by {
            if j < s.len() - 1 {
                assert(s.take(s.len() - 1)[j] == s[j]);
            }
        }
        if i >= 0 {
            assert(s.take(s.len() - 1)[i] == s[i]);
        }
    }
}

/// Finds the last occurrence of `c` in `s`.
pub fn rfind_char(s: &str, c: char) -> (r: Option<usize>)
    ensures
        match r {
            Some(i) => i as int == last_index_of(s@, c) && i < s@.len(),
            None => last_index_of(s@, c) == -1,
        },
    decreases s@.len(),
{
    proof {
        lemma_last_index_of(s@, c);
    }
    let len = s.unicode_len();
    if len == 0 {
        None
    } else if s.get_char(len - 1) == c {
        Some(len - 1)
    } else {
        let rest = s.substring_char(0, len - 1);
        proof {
            assert(rest@ =~= s@.take(s@.len() - 1));
        }
        rfind_char(rest, c)
    }
}

/// One decimal digit as a character.
pub open spec fn dec_digit(d: nat) -> char {
    ((0x30 + d) as u8) as char
}

/// The decimal notation of `n`, most significant digit first.
pub open spec fn dec_spec(n: nat) -> Seq<char>
    decreases n,
{
    if n < 10 {
        seq![dec_digit(n)]
    } else {
        dec_spec(n / 10).push(dec_digit(n % 10))
    }
}

/// Renders `n` in decimal.
pub fn u64_to_dec(n: u64) -> (s: String)
    ensures
        s@ == dec_spec(n as nat),
    decreases n,
{
    if n < 10 {
        let mut s = String::new();
        push_char(&mut s, ((0x30 + n) as u8) as char);
        s
    } else {
        let mut s = u64_to_dec(n / 10);
        push_char(&mut s, ((0x30 + n % 10) as u8) as char);
        s
    }
}

} // verus!
