//! Text as sequences of characters: its pieces and when two are the same,
//! trimming, ASCII lower case, and text out of bytes that need not be UTF-8.

use vstd::prelude::*;
use vstd::utf8::{decode_utf8, valid_utf8};

verus! {

/// `String::push` appends one character to the end of the string.
pub assume_specification[ String::push ](s: &mut String, c: char)
    ensures
        final(s)@ == old(s)@.push(c),
;

/// The characters of `s`, in order.
pub fn chars_of(s: &str) -> (r: Vec<char>)
    ensures
        r@ == s@,
{
    let mut r: Vec<char> = Vec::new();
    for c in it: s.chars()
        invariant
            r@ == it.seq().take(it.index()),
            it.seq() == s@,
    {
        r.push(c);
        assert(it.seq().take(it.index() + 1) == it.seq().take(it.index()).push(c));
    }
    assert(s@.take(s@.len() as int) == s@);
    r
}

/// The string of the characters `chars[from..to]`.
pub fn string_of(chars: &Vec<char>, from: usize, to: usize) -> (r: String)
    requires
        from <= to <= chars@.len(),
    ensures
        r@ == chars@.subrange(from as int, to as int),
{
    let mut r = String::new();
    let mut i: usize = from;
    while i < to
        invariant
            from <= i <= to <= chars@.len(),
            r@ == chars@.subrange(from as int, i as int),
        decreases to - i,
    {
        r.push(chars[i]);
        i += 1;
        assert(chars@.subrange(from as int, i as int) == chars@.subrange(from as int, i - 1).push(
            chars@[i - 1],
        ));
    }
    r
}

/// Whether two strings hold the same characters.
pub fn same_text(a: &str, b: &str) -> (r: bool)
    ensures
        r == (a@ == b@),
{
    a.to_owned() == b.to_owned()
}

// ---------------------------------------------------------------------------
// Trimming
// ---------------------------------------------------------------------------

/// The Unicode property `White_Space`.
pub open spec fn white_space(c: char) -> bool {
    let u = c as u32;
    ||| 0x9 <= u <= 0xd
    ||| u == 0x20
    ||| u == 0x85
    ||| u == 0xa0
    ||| u == 0x1680
    ||| 0x2000 <= u <= 0x200a
    ||| u == 0x2028
    ||| u == 0x2029
    ||| u == 0x202f
    ||| u == 0x205f
    ||| u == 0x3000
}

pub fn is_white_space(c: char) -> (r: bool)
    ensures
        r == white_space(c),
{
    let u: u32 = c as u32;
    (0x9 <= u && u <= 0xd) || u == 0x20 || u == 0x85 || u == 0xa0 || u == 0x1680 || (0x2000 <= u && u
        <= 0x200a) || u == 0x2028 || u == 0x2029 || u == 0x202f || u == 0x205f || u == 0x3000
}

/// `s` without its leading white space.
pub open spec fn trimmed_start(s: Seq<char>) -> Seq<char>
    decreases s.len(),
{
    if s.len() > 0 && white_space(s[0]) {
        trimmed_start(s.skip(1))
    } else {
        s
    }
}

/// `s` without its trailing white space.
pub open spec fn trimmed_end(s: Seq<char>) -> Seq<char>
    decreases s.len(),
{
    if s.len() > 0 && white_space(s.last()) {
        trimmed_end(s.drop_last())
    } else {
        s
    }
}

/// `s` without leading and trailing white space.
pub open spec fn trimmed(s: Seq<char>) -> Seq<char> {
    trimmed_end(trimmed_start(s))
}

/// Removes leading and trailing white space.
pub fn trim(s: &str) -> (r: String)
    ensures
        r@ == trimmed(s@),
{
    let chars = chars_of(s);
    let mut from: usize = 0;
    assert(s@.skip(0) == s@);
    while from < chars.len() && is_white_space(chars[from])
        invariant
            from <= chars@.len(),
            chars@ == s@,
            trimmed_start(s@) == trimmed_start(s@.skip(from as int)),
        decreases chars@.len() - from,
    {
        assert(s@.skip(from as int).skip(1) == s@.skip(from + 1));
        from += 1;
    }
    assert(trimmed_start(s@) == s@.skip(from as int));
    let mut to: usize = chars.len();
    assert(s@.subrange(from as int, to as int) == s@.skip(from as int));
    while from < to && is_white_space(chars[to - 1])
        invariant
            from <= to <= chars@.len(),
            chars@ == s@,
            trimmed(s@) == trimmed_end(s@.subrange(from as int, to as int)),
        decreases to,
    {
        assert(s@.subrange(from as int, to as int).drop_last() == s@.subrange(
            from as int,
            to - 1,
        ));
        to -= 1;
    }
    string_of(&chars, from, to)
}

// ---------------------------------------------------------------------------
// ASCII lower case
// ---------------------------------------------------------------------------

/// `c` with an ASCII capital letter replaced by its small letter.
pub open spec fn lower_char(c: char) -> char {
    if 'A' <= c <= 'Z' {
        ((c as u32 + 32) as u32) as char
    } else {
        c
    }
}

/// `s` with every ASCII capital letter replaced by its small letter.
pub open spec fn lowered(s: Seq<char>) -> Seq<char> {
    s.map_values(|c: char| lower_char(c))
}

fn char_to_lower(c: char) -> (r: char)
    ensures
        r == lower_char(c),
{
    if 'A' <= c && c <= 'Z' {
        let u: u8 = c as u8;
        (u + 32) as char
    } else {
        c
    }
}

/// Replaces ASCII capital letters by small letters and keeps everything else.
pub fn to_lower(s: &str) -> (r: String)
    ensures
        r@ == lowered(s@),
{
    let chars = chars_of(s);
    let mut r = String::new();
    let mut i: usize = 0;
    while i < chars.len()
        invariant
            i <= chars@.len(),
            chars@ == s@,
            r@ == lowered(s@.take(i as int)),
        decreases chars@.len() - i,
    {
        r.push(char_to_lower(chars[i]));
        assert(s@.take(i + 1) == s@.take(i as int).push(s@[i as int]));
        i += 1;
        assert(r@ == lowered(s@.take(i as int)));
    }
    assert(s@.take(i as int) == s@);
    r
}

// ---------------------------------------------------------------------------
// Bytes that may be text
// ---------------------------------------------------------------------------

/// The text of `bytes`, with a replacement character for whatever is no UTF-8.
pub uninterp spec fn lossy_text(bytes: Seq<u8>) -> Seq<char>;

/// `String::from_utf8_lossy` reads UTF-8. Bytes that are UTF-8 are kept as they
/// are; a run of others becomes one replacement character, so there are never
/// more characters than bytes. Where such a run ends is left to the name
/// `lossy_text`.
#[verifier::external_body]
pub(crate) fn from_utf8_lossy(bytes: &[u8]) -> (r: String)
    ensures
        r@ == lossy_text(bytes@),
        r@.len() <= bytes@.len(),
        valid_utf8(bytes@) ==> r@ == decode_utf8(bytes@),
{
    String::from_utf8_lossy(bytes).into_owned()
}

// ---------------------------------------------------------------------------
// Laws of text
// ---------------------------------------------------------------------------

/// A character that takes room but leaves no mark.
pub open spec fn blank(c: char) -> bool {
    ||| c == ' ' || c == '\u{a0}' || c == '\u{3000}' || c == '\u{1680}'
    ||| c == '\t' || c == '\n' || c == '\u{b}' || c == '\u{c}' || c == '\r' || c == '\u{85}'
    ||| '\u{2000}' <= c <= '\u{200a}'
    ||| c == '\u{2028}' || c == '\u{2029}' || c == '\u{202f}' || c == '\u{205f}'
}

/// White space is what is blank.
pub proof fn white_space_is_blank(c: char, r: bool)
    requires
        call_ensures(is_white_space, (c,), r),
    ensures
        r == blank(c),
        r == white_space(c),
{
}

/// `t` is `s` with blanks cut off at both ends, and no blank is left there.
pub open spec fn cut_out(s: Seq<char>, t: Seq<char>) -> bool {
    exists|a: int, b: int| #![trigger s.subrange(a, b)]
        {
            &&& 0 <= a <= b <= s.len()
            &&& t == s.subrange(a, b)
            &&& forall|i: int| 0 <= i < a ==> blank(#[trigger] s[i])
            &&& forall|i: int| b <= i < s.len() ==> blank(#[trigger] s[i])
            &&& t.len() > 0 ==> !blank(t[0]) && !blank(t[t.len() - 1])
        }
}

proof fn white_or_blank(c: char)
    ensures
        white_space(c) == blank(c),
{
}

proof fn trimmed_start_cuts(s: Seq<char>) -> (a: int)
    ensures
        0 <= a <= s.len(),
        trimmed_start(s) == s.skip(a),
        forall|i: int| 0 <= i < a ==> blank(#[trigger] s[i]),
        a < s.len() ==> !blank(s[a]),
    decreases s.len(),
{
    if s.len() > 0 && white_space(s[0]) {
        let rest = s.skip(1);
        white_or_blank(s[0]);
        let a = trimmed_start_cuts(rest);
        assert forall|i: int| 0 <= i < a + 1 implies blank(#[trigger] s[i]) by {
            if i > 0 {
                assert(s[i] == rest[i - 1]);
            }
        }
        assert(rest.skip(a) =~= s.skip(a + 1));
        a + 1
    } else {
        if s.len() > 0 {
            white_or_blank(s[0]);
        }
        assert(s.skip(0) =~= s);
        0
    }
}

proof fn trimmed_end_cuts(s: Seq<char>) -> (b: int)
    ensures
        0 <= b <= s.len(),
        trimmed_end(s) == s.take(b),
        forall|i: int| b <= i < s.len() ==> blank(#[trigger] s[i]),
        b > 0 ==> !blank(s[b - 1]),
    decreases s.len(),
{
    if s.len() > 0 && white_space(s.last()) {
        let rest = s.drop_last();
        white_or_blank(s.last());
        let b = trimmed_end_cuts(rest);
        assert forall|i: int| b <= i < s.len() implies blank(#[trigger] s[i]) by {
            if i < rest.len() {
                assert(s[i] == rest[i]);
            }
        }
        assert(rest.take(b) =~= s.take(b));
        b
    } else {
        if s.len() > 0 {
            white_or_blank(s.last());
        }
        assert(s.take(s.len() as int) =~= s);
        s.len() as int
    }
}

/// What trimming leaves is cut out of the text: blanks go at both ends, and
/// everything between stays as it is.
pub proof fn trimmed_is_cut_out(s: Seq<char>)
    ensures
        cut_out(s, trimmed(s)),
{
    let a = trimmed_start_cuts(s);
    let t = s.skip(a);
    let b = trimmed_end_cuts(t);
    assert(t.take(b) =~= s.subrange(a, a + b));
    assert forall|i: int| a + b <= i < s.len() implies blank(#[trigger] s[i]) by {
        assert(s[i] == t[i - a]);
    }
}

/// `trim` cuts blanks off both ends and leaves the rest as it is.
pub proof fn trim_cuts_blanks(s: &str, r: String)
    requires
        call_ensures(trim, (s,), r),
    ensures
        cut_out(s@, r@),
{
    trimmed_is_cut_out(s@);
}

/// Only one text is cut out of another, so that says all of trimming.
pub proof fn cut_out_once(s: Seq<char>, t: Seq<char>, u: Seq<char>)
    requires
        cut_out(s, t),
        cut_out(s, u),
    ensures
        t == u,
{
    let (a, b) = choose|a: int, b: int| #![trigger s.subrange(a, b)]
        {
            &&& 0 <= a <= b <= s.len()
            &&& t == s.subrange(a, b)
            &&& forall|i: int| 0 <= i < a ==> blank(#[trigger] s[i])
            &&& forall|i: int| b <= i < s.len() ==> blank(#[trigger] s[i])
            &&& t.len() > 0 ==> !blank(t[0]) && !blank(t[t.len() - 1])
        };
    let (c, d) = choose|c: int, d: int| #![trigger s.subrange(c, d)]
        {
            &&& 0 <= c <= d <= s.len()
            &&& u == s.subrange(c, d)
            &&& forall|i: int| 0 <= i < c ==> blank(#[trigger] s[i])
            &&& forall|i: int| d <= i < s.len() ==> blank(#[trigger] s[i])
            &&& u.len() > 0 ==> !blank(u[0]) && !blank(u[u.len() - 1])
        };
    if a < b {
        assert(t[0] == s[a] && t[t.len() - 1] == s[b - 1]);
    }
    if c < d {
        assert(u[0] == s[c] && u[u.len() - 1] == s[d - 1]);
    }
    assert(t =~= u);
}

/// `to_lower` makes the capital letters of ASCII small and keeps every other
/// character.
pub proof fn to_lower_makes_small(s: &str, r: String)
    requires
        call_ensures(to_lower, (s,), r),
    ensures
        r@.len() == s@.len(),
        forall|i: int| #![trigger r@[i]]
            0 <= i < r@.len() ==> if 'A' <= s@[i] <= 'Z' {
                r@[i] as int == s@[i] as int - 'A' as int + 'a' as int
            } else {
                r@[i] == s@[i]
            },
        r@ == lowered(s@),
{
}

/// Two texts are the same only if they are equal character for character.
pub proof fn same_text_is_exact(a: &str, b: &str, r: bool)
    requires
        call_ensures(same_text, (a, b), r),
    ensures
        r <==> a@.len() == b@.len() && forall|i: int| 0 <= i < a@.len() ==> a@[i] == b@[i],
{
    if a@.len() == b@.len() && forall|i: int| 0 <= i < a@.len() ==> a@[i] == b@[i] {
        assert(a@ =~= b@);
    }
}

} // verus!
