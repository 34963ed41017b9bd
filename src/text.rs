use vstd::prelude::*;
use vstd::string::*;
use vstd::utf8::*;

verus! {

/// The UTF-8 bytes of a string's characters.
pub open spec fn utf8_of(s: Seq<char>) -> Seq<u8> {
    encode_utf8(s)
}

/// The UTF-8 bytes of a string.
pub fn bytes_of(s: &str) -> (r: Vec<u8>)
    ensures
        r@ == utf8_of(s@),
{
    s.as_bytes_vec()
}

/// Relies on `String::from_utf8`: it succeeds exactly on valid UTF-8, and the
/// string it builds encodes back to the same bytes.
#[verifier::external_body]
pub fn string_from_bytes(b: Vec<u8>) -> (r: Option<String>)
    ensures
        valid_utf8(b@) ==> r is Some,
        r matches Some(s) ==> utf8_of(s@) == b@,
{
    String::from_utf8(b).ok()
}

/// Relies on `str::chars`: the characters of the string, in order.
#[verifier::external_body]
pub fn chars_of(s: &str) -> (r: Vec<char>)
    ensures
        r@ == s@,
{
    s.chars().collect()
}

/// The Unicode `White_Space` characters, as `char::is_whitespace` tests them.
pub open spec fn is_white_space(c: char) -> bool {
    ('\u{9}' <= c && c <= '\u{d}') || c == ' ' || c == '\u{85}' || c == '\u{a0}' || c == '\u{1680}'
        || ('\u{2000}' <= c && c <= '\u{200a}') || c == '\u{2028}' || c == '\u{2029}' || c == '\u{202f}'
        || c == '\u{205f}' || c == '\u{3000}'
}

pub fn white_space(c: char) -> (r: bool)
    ensures
        r == is_white_space(c),
{
    ('\u{9}' <= c && c <= '\u{d}') || c == ' ' || c == '\u{85}' || c == '\u{a0}' || c == '\u{1680}'
        || ('\u{2000}' <= c && c <= '\u{200a}') || c == '\u{2028}' || c == '\u{2029}' || c == '\u{202f}'
        || c == '\u{205f}' || c == '\u{3000}'
}

/// Relies on collecting characters into a `String`: the string of those characters.
#[verifier::external_body]
pub fn string_of_chars(v: &Vec<char>) -> (r: String)
    ensures
        r@ == v@,
{
    v.iter().collect()
}

/// Relies on `char::to_string`: a string of that one character.
#[verifier::external_body]
pub fn char_string(c: char) -> (r: String)
    ensures
        r@ == seq![c],
{
    c.to_string()
}

/// The number of bytes of a character's UTF-8 encoding.
pub open spec fn utf8_width(c: char) -> int {
    if (c as u32) < 0x80 {
        1
    } else if (c as u32) < 0x800 {
        2
    } else if (c as u32) < 0x10000 {
        3
    } else {
        4
    }
}

pub fn width(c: char) -> (r: usize)
    ensures
        r == utf8_width(c),
{
    let v = c as u32;
    if v < 0x80 {
        1
    } else if v < 0x800 {
        2
    } else if v < 0x10000 {
        3
    } else {
        4
    }
}

/// The byte offset of character `i` of `c`: the length of the encoding of
/// the characters before it.
pub open spec fn byte_pos(c: Seq<char>, i: int) -> int {
    utf8_of(c.subrange(0, i)).len() as int
}

pub proof fn lemma_utf8_concat(a: Seq<char>, b: Seq<char>)
    ensures
        utf8_of(a + b) == utf8_of(a) + utf8_of(b),
    decreases a.len(),
{
    if a.len() == 0 {
        assert(a + b =~= b);
        assert(utf8_of(a) + utf8_of(b) =~= utf8_of(b));
    } else {
        assert((a + b).drop_first() =~= a.drop_first() + b);
        assert((a + b)[0] == a[0]);
        lemma_utf8_concat(a.drop_first(), b);
        assert(utf8_of(a + b) =~= utf8_of(a) + utf8_of(b));
    }
}

pub proof fn lemma_utf8_width(x: char)
    ensures
        utf8_of(seq![x]).len() == utf8_width(x),
{
    vstd::utf8::char_is_scalar(x);
    assert(seq![x].drop_first() =~= Seq::<char>::empty());
    assert(utf8_of(seq![x]) == encode_scalar(x as u32) + encode_utf8(Seq::<char>::empty()));
}

/// Moving over character `i` adds its width to the byte offset, which stays
/// within the text's encoding.
pub proof fn lemma_byte_pos_step(c: Seq<char>, i: int)
    requires
        0 <= i < c.len(),
    ensures
        byte_pos(c, i + 1) == byte_pos(c, i) + utf8_width(c[i]),
        byte_pos(c, i + 1) <= utf8_of(c).len(),
{
    assert(c.subrange(0, i + 1) =~= c.subrange(0, i) + seq![c[i]]);
    lemma_utf8_concat(c.subrange(0, i), seq![c[i]]);
    lemma_utf8_width(c[i]);
    assert(c =~= c.subrange(0, i + 1) + c.subrange(i + 1, c.len() as int));
    lemma_utf8_concat(c.subrange(0, i + 1), c.subrange(i + 1, c.len() as int));
}

pub proof fn lemma_byte_pos_zero(c: Seq<char>)
    ensures
        byte_pos(c, 0) == 0,
{
    assert(c.subrange(0, 0) =~= Seq::<char>::empty());
}

/// The byte offset of character `i` of `c`.
pub fn byte_offset(c: &Vec<char>, i: usize, Ghost(total): Ghost<int>) -> (r: usize)
    requires
        i <= c@.len(),
        total == utf8_of(c@).len(),
        total <= usize::MAX,
    ensures
        r == byte_pos(c@, i as int),
{
    let mut k: usize = 0;
    let mut pos: usize = 0;
    proof {
        lemma_byte_pos_zero(c@);
    }
    while k < i
        invariant
            k <= i <= c@.len(),
            total == utf8_of(c@).len(),
            total <= usize::MAX,
            pos == byte_pos(c@, k as int),
        decreases i - k,
    {
        proof {
            lemma_byte_pos_step(c@, k as int);
        }
        pos = pos + width(c[k]);
        k = k + 1;
    }
    pos
}

pub proof fn lemma_byte_pos_mono(c: Seq<char>, a: int, z: int)
    requires
        0 <= a <= z <= c.len(),
    ensures
        byte_pos(c, a) <= byte_pos(c, z),
        byte_pos(c, z) <= utf8_of(c).len(),
{
    assert(c.subrange(0, z) =~= c.subrange(0, a) + c.subrange(a, z));
    lemma_utf8_concat(c.subrange(0, a), c.subrange(a, z));
    assert(c =~= c.subrange(0, z) + c.subrange(z, c.len() as int));
    lemma_utf8_concat(c.subrange(0, z), c.subrange(z, c.len() as int));
}

/// Whether the characters of `a` are those of `b`.
pub fn chars_equal(a: &Vec<char>, b: &str) -> (r: bool)
    ensures
        r == (a@ == b@),
{
    let bc = chars_of(b);
    if a.len() != bc.len() {
        return false;
    }
    let mut k: usize = 0;
    while k < a.len()
        invariant
            k <= a@.len() == bc@.len(),
            bc@ == b@,
            forall|j: int| 0 <= j < k ==> a@[j] == bc@[j],
        decreases a@.len() - k,
    {
        if a[k] != bc[k] {
            return false;
        }
        k = k + 1;
    }
    assert(a@ =~= b@);
    true
}

/// Whether a character is alphabetic (Unicode `Alphabetic`).
pub uninterp spec fn is_alphabetic_char(c: char) -> bool;

/// Relies on `char::is_alphabetic`: the answer depends on the character alone.
#[verifier::external_body]
pub fn alphabetic(c: char) -> (r: bool)
    ensures
        r == is_alphabetic_char(c),
{
    c.is_alphabetic()
}

/// Whether a character is lower-case (Unicode `Lowercase`).
pub uninterp spec fn is_lowercase_char(c: char) -> bool;

/// Relies on `char::is_lowercase`: the answer depends on the character alone.
#[verifier::external_body]
pub fn lowercase_letter(c: char) -> (r: bool)
    ensures
        r == is_lowercase_char(c),
{
    c.is_lowercase()
}

/// The upper-case mapping of a character.
pub uninterp spec fn uppercase_of(c: char) -> Seq<char>;

/// Relies on `char::to_uppercase`: the mapping depends on the character alone.
#[verifier::external_body]
pub fn uppercase(c: char) -> (r: String)
    ensures
        r@ == uppercase_of(c),
{
    c.to_uppercase().collect()
}

/// The Unicode lower-case form of a string.
pub uninterp spec fn lowercase_of(s: Seq<char>) -> Seq<char>;

/// Relies on `str::to_lowercase`: the result depends on the characters alone.
#[verifier::external_body]
pub fn lowercase_chars(v: &Vec<char>) -> (r: Vec<char>)
    ensures
        r@ == lowercase_of(v@),
{
    v.iter().collect::<String>().to_lowercase().chars().collect()
}

/// `i` moved forward to a character start, but not past `hi`.
pub open spec fn snap_up(b: Seq<u8>, i: int, hi: int) -> int
    decreases hi - i,
{
    if i < hi && 0 <= i < b.len() && is_continuation_byte(b[i]) {
        snap_up(b, i + 1, hi)
    } else {
        i
    }
}

/// `j` moved back to a character start or the end, but not below `lo`.
pub open spec fn snap_down(b: Seq<u8>, lo: int, j: int) -> int
    decreases j - lo,
{
    if j > lo && 0 <= j < b.len() && is_continuation_byte(b[j]) {
        snap_down(b, lo, j - 1)
    } else {
        j
    }
}

/// The bytes around a span: up to fifty on either side, clipped to the text
/// and shrunk to whole characters.
pub open spec fn context_window(b: Seq<u8>, offset: int, length: int) -> (int, int) {
    let lo0 = if offset >= 50 { offset - 50 } else { 0 };
    let hi0 = if offset + length + 50 <= b.len() { offset + length + 50 } else { b.len() as int };
    let lo = snap_up(b, lo0, hi0);
    (lo, snap_down(b, lo, hi0))
}

/// The text of the context window of a span.
pub open spec fn context_text(b: Seq<u8>, offset: int, length: int) -> Seq<char> {
    let (lo, hi) = context_window(b, offset, length);
    if lo < hi {
        decode_utf8(b.subrange(lo, hi))
    } else {
        Seq::empty()
    }
}

/// The text around a span of the UTF-8 bytes `b`: up to fifty bytes on either
/// side, clipped to the text and shrunk to whole characters.
pub fn extract_context(b: &Vec<u8>, offset: usize, length: usize) -> (r: String)
    requires
        valid_utf8(b@),
    ensures
        r@ == context_text(b@, offset as int, length as int),
{
    let n = b.len();
    let lo0: usize = if offset >= 50 {
        offset - 50
    } else {
        0
    };
    let hi: usize = if offset <= n && length <= n - offset && 50 <= n - offset - length {
        offset + length + 50
    } else {
        n
    };
    let mut lo = lo0;
    while lo < hi && lo < n && 128 <= b[lo] && b[lo] < 192
        invariant
            lo0 <= lo,
            n == b@.len(),
            hi <= n,
            snap_up(b@, lo0 as int, hi as int) == snap_up(b@, lo as int, hi as int),
        decreases hi - lo,
    {
        lo = lo + 1;
    }
    if lo > hi {
        return String::new();
    }
    let mut e = hi;
    while e > lo && e < n && 128 <= b[e] && b[e] < 192
        invariant
            lo <= e <= hi <= n == b@.len(),
            snap_down(b@, lo as int, hi as int) == snap_down(b@, lo as int, e as int),
        decreases e,
    {
        e = e - 1;
    }
    if lo >= e {
        return String::new();
    }
    let mut w: Vec<u8> = Vec::new();
    let mut k: usize = lo;
    while k < e
        invariant
            lo <= k <= e <= n == b@.len(),
            w@ == b@.subrange(lo as int, k as int),
        decreases e - k,
    {
        w.push(b[k]);
        proof {
            assert(b@.subrange(lo as int, k + 1) =~= b@.subrange(lo as int, k as int).push(b@[k as int]));
        }
        k = k + 1;
    }
    proof {
        let bs = b@;
        vstd::utf8::is_char_boundary_iff_not_is_continuation_byte(bs, lo as int);
        vstd::utf8::valid_utf8_split(bs, lo as int);
        let tail = bs.subrange(lo as int, bs.len() as int);
        let j = (e - lo) as int;
        if e < n {
            assert(tail[j] == bs[e as int]);
            vstd::utf8::is_char_boundary_iff_not_is_continuation_byte(tail, j);
        } else {
            vstd::utf8::is_char_boundary_start_end_of_seq(tail);
        }
        vstd::utf8::valid_utf8_split(tail, j);
        assert(tail.subrange(0, j) =~= w@);
    }
    match string_from_bytes(w) {
        Some(s) => {
            proof {
                vstd::utf8::encode_utf8_decode_utf8(s@);
            }
            s
        },
        None => String::new(),
    }
}

} // verus!
