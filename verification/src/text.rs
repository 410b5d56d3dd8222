//! Character and byte level text operations with their specifications:
//! Unicode whitespace trimming, splitting on a separator, and byte searches
//! in the UTF-8 encoding of a string.

use vstd::prelude::*;
use vstd::utf8::*;
use vstd::string::StringSliceAdditionalSpecFns;

verus! {

broadcast use vstd::utf8::encode_utf8_valid_utf8, vstd::utf8::encode_utf8_decode_utf8;

/// The Unicode `White_Space` property, which `char::is_whitespace` and
/// `str::trim` follow.
pub open spec fn is_white_space(c: char) -> bool {
    ||| ('\u{9}' <= c && c <= '\u{d}')
    ||| c == ' '
    ||| c == '\u{85}'
    ||| c == '\u{a0}'
    ||| c == '\u{1680}'
    ||| ('\u{2000}' <= c && c <= '\u{200a}')
    ||| c == '\u{2028}'
    ||| c == '\u{2029}'
    ||| c == '\u{202f}'
    ||| c == '\u{205f}'
    ||| c == '\u{3000}'
}

/// Whether `c` is Unicode whitespace.
pub fn char_is_white_space(c: char) -> (b: bool)
    ensures
        b == is_white_space(c),
{
    ('\u{9}' <= c && c <= '\u{d}') || c == ' ' || c == '\u{85}' || c == '\u{a0}' || c
        == '\u{1680}' || ('\u{2000}' <= c && c <= '\u{200a}') || c == '\u{2028}' || c
        == '\u{2029}' || c == '\u{202f}' || c == '\u{205f}' || c == '\u{3000}'
}

/// `s` without its leading whitespace.
pub open spec fn trim_start(s: Seq<char>) -> Seq<char>
    decreases s.len(),
{
    if s.len() > 0 && is_white_space(s[0]) {
        trim_start(s.drop_first())
    } else {
        s
    }
}

/// `s` without its trailing whitespace.
pub open spec fn trim_end(s: Seq<char>) -> Seq<char>
    decreases s.len(),
{
    if s.len() > 0 && is_white_space(s.last()) {
        trim_end(s.drop_last())
    } else {
        s
    }
}

/// `s` without its leading and trailing whitespace.
pub open spec fn trimmed(s: Seq<char>) -> Seq<char> {
    trim_end(trim_start(s))
}

/// The part of `s` between its leading and its trailing whitespace.
pub fn trim(s: &str) -> (r: &str)
    ensures
        r@ == trimmed(s@),
{
    let n = s.unicode_len();
    let mut a: usize = 0;
    assert(s@.subrange(0, n as int) =~= s@);
    while a < n && char_is_white_space(s.get_char(a))
        invariant
            a <= n,
            n == s@.len(),
            trim_start(s@) == trim_start(s@.subrange(a as int, n as int)),
        decreases n - a,
    {
        assert(s@.subrange(a as int, n as int).drop_first() =~= s@.subrange(a + 1, n as int));
        a = a + 1;
    }
    assert(trim_start(s@) == s@.subrange(a as int, n as int));
    let mut b: usize = n;
    while b > a && char_is_white_space(s.get_char(b - 1))
        invariant
            a <= b <= n,
            n == s@.len(),
            trim_end(s@.subrange(a as int, n as int)) == trim_end(s@.subrange(a as int, b as int)),
        decreases b - a,
    {
        assert(s@.subrange(a as int, b as int).drop_last() =~= s@.subrange(a as int, b - 1));
        b = b - 1;
    }
    s.substring_char(a, b)
}

/// Whether `i` is the position of the first `c` in `s`.
pub open spec fn is_first_index(s: Seq<char>, c: char, i: int) -> bool {
    &&& 0 <= i < s.len()
    &&& s[i] == c
    &&& forall|j: int| 0 <= j < i ==> s[j] != c
}

/// The position of the first `c` in `s`, when `s` holds one.
pub open spec fn first_index(s: Seq<char>, c: char) -> int {
    choose|i: int| is_first_index(s, c, i)
}

/// There is at most one first position of a character.
pub proof fn lemma_first_index_unique(s: Seq<char>, c: char, i: int)
    requires
        is_first_index(s, c, i),
    ensures
        first_index(s, c) == i,
        holds_char(s, c),
{
    let k = first_index(s, c);
    assert(is_first_index(s, c, k));
    if k < i {
        assert(s[k] != c);
    } else if k > i {
        assert(s[i] != c);
    }
}

/// Leading whitespace does not change what trimming gives.
pub proof fn lemma_trimmed_after_space(s: Seq<char>)
    ensures
        trimmed(seq![' '] + s) == trimmed(s),
{
    assert((seq![' '] + s).drop_first() =~= s);
}

/// Trimming keeps a text that starts with a character other than
/// whitespace non-empty.
pub proof fn lemma_trimmed_not_empty(s: Seq<char>)
    requires
        s.len() > 0,
        !is_white_space(s[0]),
    ensures
        trimmed(s).len() > 0,
    decreases s.len(),
{
    lemma_trim_end_keeps_first(s);
}

/// `trim_end` keeps a first character that is not whitespace.
proof fn lemma_trim_end_keeps_first(s: Seq<char>)
    requires
        s.len() > 0,
        !is_white_space(s[0]),
    ensures
        trim_end(s).len() > 0,
    decreases s.len(),
{
    if is_white_space(s.last()) {
        assert(s.len() > 1);
        assert(s.drop_last()[0] == s[0]);
        lemma_trim_end_keeps_first(s.drop_last());
    }
}

/// Whether `s` holds the character `c`.
pub open spec fn holds_char(s: Seq<char>, c: char) -> bool {
    exists|i: int| 0 <= i < s.len() && s[i] == c
}

/// The piece of index `n` when `s` is cut at each `sep`, as `str::split`
/// with a one-character pattern followed by `nth(n)` yields it.
pub open spec fn nth_piece(s: Seq<char>, sep: char, n: nat) -> Option<Seq<char>>
    decreases n,
{
    if !holds_char(s, sep) {
        if n == 0 {
            Some(s)
        } else {
            None
        }
    } else if n == 0 {
        Some(s.take(first_index(s, sep)))
    } else {
        nth_piece(s.skip(first_index(s, sep) + 1), sep, (n - 1) as nat)
    }
}

/// The position of the first `c` in `s`, or `None` where `s` holds none.
pub fn find_char(s: &str, c: char) -> (r: Option<usize>)
    ensures
        r is None <==> !holds_char(s@, c),
        r matches Some(i) ==> is_first_index(s@, c, i as int) && i == first_index(s@, c),
{
    let n = s.unicode_len();
    let mut i: usize = 0;
    while i < n
        invariant
            i <= n,
            n == s@.len(),
            forall|j: int| 0 <= j < i ==> s@[j] != c,
        decreases n - i,
    {
        if s.get_char(i) == c {
            proof {
                lemma_first_index_unique(s@, c, i as int);
            }
            return Some(i);
        }
        i = i + 1;
    }
    None
}

/// The piece of index `n` of `s` cut at each `sep`, or `None` where `s` has
/// fewer pieces.
pub fn nth_piece_of<'a>(s: &'a str, sep: char, n: usize) -> (r: Option<&'a str>)
    ensures
        match r {
            Some(p) => nth_piece(s@, sep, n as nat) == Some(p@),
            None => nth_piece(s@, sep, n as nat) is None,
        },
{
    let mut rest: &'a str = s;
    let mut k: usize = n;
    loop
        invariant
            nth_piece(rest@, sep, k as nat) == nth_piece(s@, sep, n as nat),
        decreases k,
    {
        match find_char(rest, sep) {
            None => {
                if k == 0 {
                    return Some(rest);
                } else {
                    return None;
                }
            },
            Some(i) => {
                let len = rest.unicode_len();
                if k == 0 {
                    let p = rest.substring_char(0, i);
                    assert(p@ =~= rest@.take(i as int));
                    return Some(p);
                }
                let next = rest.substring_char(i + 1, len);
                assert(next@ =~= rest@.skip(i + 1));
                rest = next;
                k = k - 1;
            },
        }
    }
}

/// Whether `i` is the position of the first byte `x` in `b`.
pub open spec fn is_first_byte_index(b: Seq<u8>, x: u8, i: int) -> bool {
    &&& 0 <= i < b.len()
    &&& b[i] == x
    &&& forall|j: int| 0 <= j < i ==> b[j] != x
}

/// Whether `i` is the position of the last byte `x` in `b`.
pub open spec fn is_last_byte_index(b: Seq<u8>, x: u8, i: int) -> bool {
    &&& 0 <= i < b.len()
    &&& b[i] == x
    &&& forall|j: int| i < j < b.len() ==> b[j] != x
}

/// Whether `b` holds the byte `x`.
pub open spec fn holds_byte(b: Seq<u8>, x: u8) -> bool {
    exists|i: int| 0 <= i < b.len() && b[i] == x
}

/// The position of the first byte `x` in `b`, when `b` holds one.
pub open spec fn first_byte_index(b: Seq<u8>, x: u8) -> int {
    choose|i: int| is_first_byte_index(b, x, i)
}

/// There is at most one first position of a byte.
pub proof fn lemma_first_byte_index_unique(b: Seq<u8>, x: u8, i: int)
    requires
        is_first_byte_index(b, x, i),
    ensures
        first_byte_index(b, x) == i,
{
    let k = first_byte_index(b, x);
    assert(is_first_byte_index(b, x, k));
    if k < i {
        assert(b[k] != x);
    } else if k > i {
        assert(b[i] != x);
    }
}

/// The position of the last byte `x` in `b`, when `b` holds one.
pub open spec fn last_byte_index(b: Seq<u8>, x: u8) -> int {
    choose|i: int| is_last_byte_index(b, x, i)
}

/// There is at most one last position of a byte.
pub proof fn lemma_last_byte_index_unique(b: Seq<u8>, x: u8, i: int)
    requires
        is_last_byte_index(b, x, i),
    ensures
        last_byte_index(b, x) == i,
{
    let k = last_byte_index(b, x);
    assert(is_last_byte_index(b, x, k));
    if k < i {
        assert(b[i] != x);
    } else if k > i {
        assert(b[k] != x);
    }
}

/// The byte offset of the first `x` in the UTF-8 encoding of `s`, as
/// `str::find` gives it for a one-byte (ASCII) pattern.
pub fn first_byte_index_of(s: &str, x: u8) -> (r: Option<usize>)
    ensures
        r is None <==> !holds_byte(s.spec_bytes(), x),
        r matches Some(i) ==> is_first_byte_index(s.spec_bytes(), x, i as int) && i
            == first_byte_index(s.spec_bytes(), x),
{
    let b = s.as_bytes();
    let mut i: usize = 0;
    while i < b.len()
        invariant
            i <= b@.len(),
            b@ == s.spec_bytes(),
            forall|j: int| 0 <= j < i ==> b@[j] != x,
        decreases b@.len() - i,
    {
        if b[i] == x {
            proof {
                lemma_first_byte_index_unique(b@, x, i as int);
            }
            return Some(i);
        }
        i = i + 1;
    }
    None
}

/// The byte offset of the last `x` in the UTF-8 encoding of `s`, as
/// `str::rfind` gives it for a one-byte (ASCII) pattern.
pub fn last_byte_index_of(s: &str, x: u8) -> (r: Option<usize>)
    ensures
        r is None <==> !holds_byte(s.spec_bytes(), x),
        r matches Some(i) ==> is_last_byte_index(s.spec_bytes(), x, i as int) && i
            == last_byte_index(s.spec_bytes(), x),
{
    let b = s.as_bytes();
    let mut i: usize = b.len();
    while i > 0
        invariant
            i <= b@.len(),
            b@ == s.spec_bytes(),
            forall|j: int| i <= j < b@.len() ==> b@[j] != x,
        decreases i,
    {
        if b[i - 1] == x {
            proof {
                lemma_last_byte_index_unique(b@, x, i - 1);
            }
            return Some(i - 1);
        }
        i = i - 1;
    }
    None
}

/// Cuts `s` around the ASCII character at byte offset `i`: the part before
/// it and the part after it.
pub fn split_around_ascii(s: &str, i: usize) -> (r: (&str, &str))
    requires
        i < s.spec_bytes().len(),
        s.spec_bytes()[i as int] < 0x80,
    ensures
        r.0.spec_bytes() == s.spec_bytes().subrange(0, i as int),
        r.1.spec_bytes() == s.spec_bytes().subrange(i + 1, s.spec_bytes().len() as int),
{
    let ghost b = s.spec_bytes();
    proof {
        is_char_boundary_iff_not_is_continuation_byte(b, i as int);
    }
    let (before, from) = s.split_at(i);
    let ghost t = from.spec_bytes();
    proof {
        assert(t[0] == b[i as int]);
        assert(valid_utf8(t));
        reveal_with_fuel(is_char_boundary, 2);
        assert(length_of_first_scalar(t) == 1);
        assert(is_char_boundary(t, 1));
    }
    let (_, after) = from.split_at(1);
    assert(after.spec_bytes() =~= b.subrange(i + 1, b.len() as int));
    (before, after)
}

/// The part of `s` between the byte offsets `begin` and `end`, as
/// `str::get(begin..end)` gives it where that is `Some`.
pub fn byte_range(s: &str, begin: usize, end: usize) -> (r: &str)
    requires
        begin <= end <= s.spec_bytes().len(),
        is_char_boundary(s.spec_bytes(), begin as int),
        is_char_boundary(s.spec_bytes(), end as int),
    ensures
        r.spec_bytes() == s.spec_bytes().subrange(begin as int, end as int),
{
    let ghost b = s.spec_bytes();
    let (prefix, _) = s.split_at(end);
    let ghost p = prefix.spec_bytes();
    proof {
        assert(valid_utf8(p));
        if begin == end {
            is_char_boundary_start_end_of_seq(p);
        } else if begin > 0 {
            is_char_boundary_iff_not_is_continuation_byte(b, begin as int);
            is_char_boundary_iff_not_is_continuation_byte(p, begin as int);
            assert(p[begin as int] == b[begin as int]);
        }
    }
    let (_, r) = prefix.split_at(begin);
    assert(r.spec_bytes() =~= b.subrange(begin as int, end as int));
    r
}

/// The upper-case form of `s` by the Unicode case mapping that
/// `str::to_uppercase` applies.
pub uninterp spec fn uppercase(s: Seq<char>) -> Seq<char>;

/// `str::to_uppercase`: the upper-case form of `s` under Unicode's case
/// mapping. What that mapping gives is left to the name `uppercase`, a
/// function of `s` alone; nothing more is claimed of it.
#[verifier::external_body]
pub(crate) fn to_uppercase(s: &str) -> (r: String)
    ensures
        r@ == uppercase(s@),
{
    s.to_uppercase()
}

/// A yes/no answer of the user.
#[derive(Debug, PartialEq, Eq, Structural, Clone, Copy)]
pub enum Confirmation {
    Yes,
    No,
    Other,
}

/// The answer given by an input whose upper-case form is `upper`: `Y` is
/// yes, `N` is no.
pub open spec fn confirmation_of(upper: Seq<char>) -> Confirmation {
    if upper == seq!['Y'] {
        Confirmation::Yes
    } else if upper == seq!['N'] {
        Confirmation::No
    } else {
        Confirmation::Other
    }
}

/// The answer given by an input whose upper-case form is `upper`.
pub fn confirmation_of_uppercase(upper: &str) -> (r: Confirmation)
    ensures
        r == confirmation_of(upper@),
{
    let n = upper.unicode_len();
    if n == 1 {
        let c = upper.get_char(0);
        if c == 'Y' {
            assert(upper@ =~= seq!['Y']);
            return Confirmation::Yes;
        } else if c == 'N' {
            assert(upper@ =~= seq!['N']);
            return Confirmation::No;
        }
    }
    Confirmation::Other
}

/// The answer given by `input`, compared upper-cased with `Y` and `N`.
pub fn confirmation(input: &str) -> (r: Confirmation)
    ensures
        r == confirmation_of(uppercase(input@)),
{
    let upper = to_uppercase(input);
    confirmation_of_uppercase(upper.as_str())
}

/// Whether `a` and `b` hold the same text.
pub fn same_text(a: &str, b: &str) -> (r: bool)
    ensures
        r == (a@ == b@),
{
    let n = a.unicode_len();
    if n != b.unicode_len() {
        return false;
    }
    let mut i: usize = 0;
    while i < n
        invariant
            i <= n,
            n == a@.len(),
            n == b@.len(),
            forall|j: int| 0 <= j < i ==> a@[j] == b@[j],
        decreases n - i,
    {
        if a.get_char(i) != b.get_char(i) {
            return false;
        }
        i = i + 1;
    }
    assert(a@ =~= b@);
    true
}

/// A string that holds the text of `s`.
pub fn owned(s: &str) -> (r: String)
    ensures
        r@ == s@,
{
    let mut r = String::new();
    r.append(s);
    r
}

/// The encoding of a concatenation is the concatenation of the encodings.
pub proof fn lemma_encode_utf8_concat(a: Seq<char>, b: Seq<char>)
    ensures
        encode_utf8(a + b) == encode_utf8(a) + encode_utf8(b),
    decreases a.len(),
{
    if a.len() == 0 {
        assert(a + b =~= b);
        assert(encode_utf8(a) + encode_utf8(b) =~= encode_utf8(b));
    } else {
        assert((a + b).drop_first() =~= a.drop_first() + b);
        lemma_encode_utf8_concat(a.drop_first(), b);
        assert(encode_utf8(a + b) =~= encode_utf8(a) + encode_utf8(b));
    }
}

/// An ASCII character is encoded as its own byte.
pub proof fn lemma_encode_ascii_char(c: char)
    requires
        (c as u32) < 0x80,
    ensures
        encode_utf8(seq![c]) == seq![c as u8],
{
    assert(is_ascii_chars(seq![c]));
    is_ascii_chars_encode_utf8(seq![c]);
    assert(encode_utf8(seq![c]) =~= seq![c as u8]);
}

/// Every byte of the encoding of a character outside ASCII is 0x80 or above.
proof fn lemma_multibyte_bytes_high(v: u32)
    by (bit_vector)
    ensures
        (0xC0u8 | ((v >> 6u32) & 0x1Fu32) as u8) >= 0x80u8,
        (0xE0u8 | ((v >> 12u32) & 0x0Fu32) as u8) >= 0x80u8,
        (0xF0u8 | ((v >> 18u32) & 0x7u32) as u8) >= 0x80u8,
        (0x80u8 | (v & 0x3Fu32) as u8) >= 0x80u8,
        (0x80u8 | ((v >> 6u32) & 0x3Fu32) as u8) >= 0x80u8,
        (0x80u8 | ((v >> 12u32) & 0x3Fu32) as u8) >= 0x80u8,
{
}

/// The one byte of an ASCII character's encoding is the character itself.
proof fn lemma_ascii_byte(v: u32)
    by (bit_vector)
    requires
        v < 0x80u32,
    ensures
        (v & 0x7Fu32) as u8 == v as u8,
        (v as u8) as u32 == v,
{
}

/// An ASCII byte stands in the encoding of a text only where the text holds
/// that character.
pub proof fn lemma_no_ascii_byte(x: Seq<char>, c: char)
    requires
        (c as u32) < 0x80,
        !holds_char(x, c),
    ensures
        !holds_byte(encode_utf8(x), c as u8),
    decreases x.len(),
{
    if x.len() > 0 {
        let rest = x.drop_first();
        assert(!holds_char(rest, c)) by {
            if holds_char(rest, c) {
                let j = choose|j: int| 0 <= j < rest.len() && rest[j] == c;
                assert(x[j + 1] == c);
            }
        }
        lemma_no_ascii_byte(rest, c);
        let v = x[0] as u32;
        let cv = c as u32;
        char_is_scalar(x[0]);
        lemma_multibyte_bytes_high(v);
        if v < 0x80 {
            lemma_ascii_byte(v);
        }
        lemma_ascii_byte(cv);
        let head = encode_scalar(v);
        assert(x[0] != c);
        assert(v != cv) by {
            char_u32_cast(x[0], v);
            char_u32_cast(c, cv);
        }
        assert forall|j: int| 0 <= j < head.len() implies head[j] != c as u8 by {
            if has_width_1_encoding(v) {
                assert(head[j] == v as u8);
                assert((c as u8) == cv as u8);
            } else {
                assert(head[j] >= 0x80);
                assert((c as u8) == cv as u8);
            }
        }
        let whole = encode_utf8(x);
        assert(whole == head + encode_utf8(rest));
        if holds_byte(whole, c as u8) {
            let j = choose|j: int| 0 <= j < whole.len() && whole[j] == c as u8;
            if j >= head.len() {
                assert(encode_utf8(rest)[j - head.len()] == c as u8);
            }
        }
    }
}

/// The place where two valid encodings meet is a character boundary.
pub proof fn lemma_boundary_at_join(a: Seq<u8>, b: Seq<u8>)
    requires
        valid_utf8(a),
        valid_utf8(b),
    ensures
        valid_utf8(a + b),
        is_char_boundary(a + b, a.len() as int),
{
    valid_utf8_concat(a, b);
    let ab = a + b;
    if a.len() == 0 {
    } else if b.len() == 0 {
        assert(ab =~= a);
        is_char_boundary_start_end_of_seq(a);
    } else {
        assert(ab[a.len() as int] == b[0]);
        is_char_boundary_iff_not_is_continuation_byte(ab, a.len() as int);
    }
}

/// Around an ASCII byte of a valid encoding, both parts are valid
/// encodings, and both sides of the byte are character boundaries.
pub proof fn lemma_ascii_split(b: Seq<u8>, i: int)
    requires
        valid_utf8(b),
        0 <= i < b.len(),
        b[i] < 0x80,
    ensures
        valid_utf8(b.subrange(0, i)),
        valid_utf8(b.subrange(i + 1, b.len() as int)),
        is_char_boundary(b, i),
        is_char_boundary(b, i + 1),
{
    is_char_boundary_iff_not_is_continuation_byte(b, i);
    valid_utf8_split(b, i);
    let t = b.subrange(i, b.len() as int);
    assert(t[0] == b[i]);
    assert(length_of_first_scalar(t) == 1);
    assert(pop_first_scalar(t) =~= b.subrange(i + 1, b.len() as int));
    let before = b.subrange(0, i + 1);
    assert(before =~= b.subrange(0, i) + seq![b[i]]);
    assert(valid_utf8(seq![b[i]])) by {
        reveal_with_fuel(valid_utf8, 2);
    }
    valid_utf8_concat(b.subrange(0, i), seq![b[i]]);
    lemma_boundary_at_join(before, b.subrange(i + 1, b.len() as int));
    assert(before + b.subrange(i + 1, b.len() as int) =~= b);
}

} // verus!
