//! Character-level facts shared by the editing and layout code: UTF-8 byte
//! lengths, display widths, word characters, case mappings and conversions
//! between `String` and `Vec<char>`.

use vstd::prelude::*;

use vstd::std_specs::iter::IteratorSpec;

verus! {

// ---------------------------------------------------------------------------
// UTF-8 lengths
// ---------------------------------------------------------------------------

/// Number of bytes in the UTF-8 encoding of `c`.
pub open spec fn utf8_len(c: char) -> nat {
    if (c as u32) < 0x80 {
        1
    } else if (c as u32) < 0x800 {
        2
    } else if (c as u32) < 0x10000 {
        3
    } else {
        4
    }
}

/// Byte offset of the character with index `k` in `s` (the UTF-8 length of `s[..k]`).
pub open spec fn byte_offset(s: Seq<char>, k: int) -> nat
    decreases k,
{
    if k <= 0 {
        0
    } else {
        byte_offset(s, k - 1) + utf8_len(s[k - 1])
    }
}

/// UTF-8 length of the whole sequence.
pub open spec fn byte_len(s: Seq<char>) -> nat {
    byte_offset(s, s.len() as int)
}

/// Byte length of one character, as `char::len_utf8` computes it.
pub fn char_utf8_len(c: char) -> (n: usize)
    ensures
        n == utf8_len(c),
        1 <= n <= 4,
{
    let v = c as u32;
    if v < 0x80 {
        1
    } else if v < 0x800 {
        2
    } else if v < 0x10000 {
        3
    } else {
        4
    }
}


/// Byte offsets grow by at least one per character.
pub proof fn lemma_byte_offset_mono(s: Seq<char>, i: int, j: int)
    requires
        0 <= i <= j,
    ensures
        byte_offset(s, i) + (j - i) <= byte_offset(s, j),
    decreases j - i,
{
    if i < j {
        lemma_byte_offset_mono(s, i, j - 1);
    }
}

/// The byte offset of index `k` depends only on the first `k` characters.
pub proof fn lemma_byte_offset_prefix(s: Seq<char>, t: Seq<char>, k: int)
    requires
        0 <= k <= s.len(),
        k <= t.len(),
        forall|i: int| 0 <= i < k ==> s[i] == t[i],
    ensures
        byte_offset(s, k) == byte_offset(t, k),
    decreases k,
{
    if k > 0 {
        lemma_byte_offset_prefix(s, t, k - 1);
    }
}

/// Byte offsets inside a concatenation.
pub proof fn lemma_byte_offset_concat(a: Seq<char>, b: Seq<char>, j: int)
    requires
        0 <= j <= b.len(),
    ensures
        byte_offset(a + b, a.len() + j) == byte_len(a) + byte_offset(b, j),
    decreases j,
{
    if j == 0 {
        lemma_byte_offset_prefix(a + b, a, a.len() as int);
    } else {
        lemma_byte_offset_concat(a, b, j - 1);
        assert((a + b)[a.len() + j - 1] == b[j - 1]);
    }
}

/// Distinct indices have distinct byte offsets, so a byte offset names at most one index.
pub proof fn lemma_byte_offset_injective(s: Seq<char>, i: int, j: int)
    requires
        0 <= i,
        0 <= j,
        byte_offset(s, i) == byte_offset(s, j),
    ensures
        i == j,
{
    if i < j {
        lemma_byte_offset_mono(s, i, j);
    } else if j < i {
        lemma_byte_offset_mono(s, j, i);
    }
}

/// `pos` is the byte offset of some character boundary of `s`.
pub open spec fn is_boundary(s: Seq<char>, pos: int) -> bool {
    exists|k: int| 0 <= k <= s.len() && byte_offset(s, k) == pos
}

/// The character index whose byte offset is `pos` (meaningful when `is_boundary(s, pos)`).
pub open spec fn index_at(s: Seq<char>, pos: int) -> int {
    choose|k: int| 0 <= k <= s.len() && byte_offset(s, k) == pos
}

pub proof fn lemma_index_at(s: Seq<char>, k: int)
    requires
        0 <= k <= s.len(),
    ensures
        is_boundary(s, byte_offset(s, k) as int),
        index_at(s, byte_offset(s, k) as int) == k,
{
    let pos = byte_offset(s, k) as int;
    assert(0 <= k <= s.len() && byte_offset(s, k) == pos);
    let j = index_at(s, pos);
    lemma_byte_offset_injective(s, j, k);
}

// ---------------------------------------------------------------------------
// String <-> Vec<char>
// ---------------------------------------------------------------------------

/// The characters of `s`, in order.
pub fn chars_of(s: &str) -> (v: Vec<char>)
    ensures
        v@ == s@,
{
    let mut it = s.chars();
    let mut v: Vec<char> = Vec::new();
    assert(it.remaining() == s@);
    loop
        invariant
            it.obeys_prophetic_iter_laws(),
            it.decrease() is Some,
            v@ + it.remaining() == s@,
        ensures
            v@ == s@,
        decreases it.decrease()->0,
    {
        let ghost before = it.remaining();
        match it.next() {
            Some(c) => {
                proof {
                    assert(v@.push(c) + it.remaining() =~= v@ + before);
                }
                v.push(c);
            },
            None => {
                proof {
                    assert(v@ + before =~= v@);
                }
                break;
            },
        }
    }
    v
}

/// Append the characters of `s`.
pub(crate) fn push_str_chars(out: &mut Vec<char>, s: &str)
    ensures
        final(out)@ == old(out)@ + s@,
{
    let c = chars_of(s);
    let ghost o = out@;
    let mut i: usize = 0;
    while i < c.len()
        invariant
            i <= c@.len(),
            c@ == s@,
            out@ == o + c@.subrange(0, i as int),
        decreases c@.len() - i,
    {
        out.push(c[i]);
        proof {
            assert(c@.subrange(0, i + 1) =~= c@.subrange(0, i as int).push(c@[i as int]));
        }
        i = i + 1;
    }
    proof {
        assert(c@.subrange(0, c@.len() as int) =~= c@);
    }
}

/// A `String` holding the characters of `v` (`String::from_iter`).
#[verifier::external_body]
pub(crate) fn string_of(v: &[char]) -> (s: String)
    ensures
        s@ == v@,
{
    String::from_iter(v.iter())
}

/// Byte length of `s` (`String::len`): the length of its UTF-8 encoding.
/// A `String`'s buffer never exceeds `isize::MAX` bytes.
#[verifier::external_body]
pub(crate) fn string_byte_len(s: &String) -> (n: usize)
    ensures
        n == byte_len(s@),
        n <= isize::MAX,
{
    s.len()
}

/// Byte length of `s` (`str::len`): the length of its UTF-8 encoding. No
/// value in Rust, a string slice included, is larger than `isize::MAX` bytes.
#[verifier::external_body]
pub(crate) fn str_byte_len(s: &str) -> (n: usize)
    ensures
        n == byte_len(s@),
        n <= isize::MAX,
{
    s.len()
}

/// Byte offset of character index `k` in `v`.
pub fn offset_of(v: &Vec<char>, k: usize) -> (n: usize)
    requires
        k <= v@.len(),
        byte_len(v@) <= usize::MAX,
    ensures
        n == byte_offset(v@, k as int),
{
    let mut i: usize = 0;
    let mut acc: usize = 0;
    proof {
        lemma_byte_offset_mono(v@, k as int, v@.len() as int);
    }
    while i < k
        invariant
            i <= k <= v@.len(),
            acc == byte_offset(v@, i as int),
            byte_offset(v@, k as int) <= usize::MAX,
        decreases k - i,
    {
        proof {
            lemma_byte_offset_mono(v@, (i + 1) as int, k as int);
        }
        acc = acc + char_utf8_len(v[i]);
        i = i + 1;
    }
    acc
}

/// Character index of the boundary at byte offset `pos`.
pub fn index_of_offset(v: &Vec<char>, pos: usize) -> (k: usize)
    requires
        is_boundary(v@, pos as int),
    ensures
        k <= v@.len(),
        byte_offset(v@, k as int) == pos,
        k == index_at(v@, pos as int),
{
    let ghost target = index_at(v@, pos as int);
    let n = v.len();
    let mut i: usize = 0;
    let mut acc: usize = 0;
    while acc < pos
        invariant
            0 <= target <= v@.len(),
            n == v@.len(),
            byte_offset(v@, target) == pos,
            i <= target,
            acc == byte_offset(v@, i as int),
        decreases target - i,
    {
        proof {
            if i == target {
                assert(false);
            }
            lemma_byte_offset_mono(v@, (i + 1) as int, target);
        }
        acc = acc + char_utf8_len(v[i]);
        i = i + 1;
    }
    proof {
        if i < target {
            lemma_byte_offset_mono(v@, i as int + 1, target);
        }
        lemma_index_at(v@, i as int);
    }
    i
}


// ---------------------------------------------------------------------------
// Display widths
// ---------------------------------------------------------------------------

/// The width that `unicode_width::UnicodeWidthChar::width` gives `c`
/// (`None` for control characters).
pub uninterp spec fn char_width(c: char) -> Option<usize>;

/// The width that `unicode_width::UnicodeWidthStr::width` gives the string `s`.
pub uninterp spec fn str_width(s: Seq<char>) -> usize;

/// `UnicodeWidthChar::width`. Its source returns `Some(1)` for U+0020..U+007E,
/// `None` for U+0000..U+001F and U+007F..U+009F, and otherwise a table entry of
/// at most 3 columns; the table itself is left to the name `char_width`.
#[verifier::external_body]
pub(crate) fn char_display_width(c: char) -> (w: Option<usize>)
    ensures
        w == char_width(c),
        0x20 <= (c as u32) < 0x7F ==> w == Some(1usize),
        (c as u32) < 0x20 || 0x7F <= (c as u32) < 0xA0 ==> w is None,
        w matches Some(n) ==> n <= 3,
{
    unicode_width::UnicodeWidthChar::width(c)
}

/// `UnicodeWidthStr::width`: the display width of a whole string. It is not the
/// sum of the character widths (ligatures and emoji sequences count differently),
/// so only its name is stated.
#[verifier::external_body]
pub(crate) fn str_display_width(s: &str) -> (w: usize)
    ensures
        w == str_width(s@),
{
    unicode_width::UnicodeWidthStr::width(s)
}

/// Columns a character advances the cursor by: its width, or 1 for control characters.
pub open spec fn char_cols(c: char) -> nat {
    match char_width(c) {
        Some(w) => w as nat,
        None => 1,
    }
}

/// Sum of `char_cols` over `s`.
pub open spec fn str_cols(s: Seq<char>) -> nat
    decreases s.len(),
{
    if s.len() == 0 {
        0
    } else {
        str_cols(s.drop_last()) + char_cols(s.last())
    }
}

/// Column sums add up over concatenation.
pub proof fn lemma_str_cols_concat(a: Seq<char>, b: Seq<char>)
    ensures
        str_cols(a + b) == str_cols(a) + str_cols(b),
    decreases b.len(),
{
    if b.len() == 0 {
        assert(a + b =~= a);
    } else {
        lemma_str_cols_concat(a, b.drop_last());
        assert((a + b).drop_last() =~= a + b.drop_last());
    }
}

/// The columns of a subrange never exceed those of the whole sequence.
pub proof fn lemma_str_cols_subrange(s: Seq<char>, i: int, j: int)
    requires
        0 <= i <= j <= s.len(),
    ensures
        str_cols(s.subrange(i, j)) <= str_cols(s),
        str_cols(s) == str_cols(s.subrange(0, i)) + str_cols(s.subrange(i, j)) + str_cols(
            s.subrange(j, s.len() as int),
        ),
{
    lemma_str_cols_concat(s.subrange(0, i), s.subrange(i, j));
    lemma_str_cols_concat(s.subrange(0, i) + s.subrange(i, j), s.subrange(j, s.len() as int));
    assert(s.subrange(0, i) + s.subrange(i, j) + s.subrange(j, s.len() as int) =~= s);
}

/// Columns of one character: its width, or 1 where the width is `None`.
pub fn char_cols_of(c: char) -> (n: usize)
    ensures
        n == char_cols(c),
        n <= 3,
        (c as u32) < 0xA0 ==> n == 1,
{
    match char_display_width(c) {
        Some(w) => w,
        None => 1,
    }
}

/// Columns of the whole of `v`. Its UTF-8 length bounds it: a character of one
/// byte takes one column and any other at most three, so the total stays below
/// one and a half times the byte length and fits in a `usize`.
pub fn total_cols(v: &Vec<char>) -> (n: usize)
    requires
        byte_len(v@) <= isize::MAX,
    ensures
        n == str_cols(v@),
{
    let len = v.len();
    let mut i: usize = 0;
    let mut acc: usize = 0;
    proof {
        lemma_byte_offset_mono(v@, len as int, len as int);
    }
    while i < len
        invariant
            i <= len == v@.len(),
            acc == str_cols(v@.subrange(0, i as int)),
            2 * acc <= 3 * byte_offset(v@, i as int),
            byte_offset(v@, len as int) <= isize::MAX,
        decreases len - i,
    {
        let c = v[i];
        let w = char_cols_of(c);
        let b = char_utf8_len(c);
        proof {
            assert(v@.subrange(0, i + 1).drop_last() =~= v@.subrange(0, i as int));
            assert(byte_offset(v@, i + 1) == byte_offset(v@, i as int) + utf8_len(c));
            lemma_byte_offset_mono(v@, (i + 1) as int, len as int);
            assert(2 * w <= 3 * b);
        }
        acc = acc + w;
        i = i + 1;
    }
    proof {
        assert(v@.subrange(0, len as int) =~= v@);
    }
    acc
}

/// Sum of character columns over `v[i..j]`.
pub fn cols_between(v: &Vec<char>, i: usize, j: usize) -> (n: usize)
    requires
        i <= j <= v@.len(),
        str_cols(v@.subrange(i as int, j as int)) <= usize::MAX,
    ensures
        n == str_cols(v@.subrange(i as int, j as int)),
{
    let mut t: usize = i;
    let mut acc: usize = 0;
    while t < j
        invariant
            i <= t <= j <= v@.len(),
            acc == str_cols(v@.subrange(i as int, t as int)),
            str_cols(v@.subrange(i as int, j as int)) <= usize::MAX,
        decreases j - t,
    {
        proof {
            assert(v@.subrange(i as int, t + 1).drop_last() =~= v@.subrange(i as int, t as int));
            lemma_str_cols_subrange(v@.subrange(i as int, j as int), 0, (t + 1 - i) as int);
            assert(v@.subrange(i as int, j as int).subrange(0, (t + 1 - i) as int) =~= v@.subrange(
                i as int,
                t + 1,
            ));
        }
        acc = acc + char_cols_of(v[t]);
        t = t + 1;
    }
    acc
}

// ---------------------------------------------------------------------------
// Character classes and case mappings
// ---------------------------------------------------------------------------

/// Whether `char::is_alphanumeric` holds of `c` (Unicode Alphabetic or Numeric).
pub uninterp spec fn alphanumeric(c: char) -> bool;

/// ASCII letters and digits.
pub open spec fn ascii_alnum(c: char) -> bool {
    let v = c as u32;
    (0x30 <= v <= 0x39) || (0x41 <= v <= 0x5A) || (0x61 <= v <= 0x7A)
}

/// ASCII case mapping: `a`..`z` to `A`..`Z`, every other character unchanged.
pub open spec fn ascii_upper(c: char) -> char {
    if 0x61 <= (c as u32) <= 0x7A {
        ((c as u32) - 32) as char
    } else {
        c
    }
}

/// ASCII case mapping: `A`..`Z` to `a`..`z`, every other character unchanged.
pub open spec fn ascii_lower(c: char) -> char {
    if 0x41 <= (c as u32) <= 0x5A {
        ((c as u32) + 32) as char
    } else {
        c
    }
}

/// `char::is_alphanumeric`. Among ASCII characters, exactly the letters and
/// digits are alphabetic or numeric.
#[verifier::external_body]
pub(crate) fn char_is_alphanumeric(c: char) -> (b: bool)
    ensures
        b == alphanumeric(c),
        (c as u32) < 0x80 ==> (b == ascii_alnum(c)),
{
    c.is_alphanumeric()
}

/// A readline word character: alphanumeric or underscore.
pub open spec fn is_word(c: char) -> bool {
    alphanumeric(c) || c == '_'
}

/// Exec form of `is_word`.
pub fn is_word_char(c: char) -> (b: bool)
    ensures
        b == is_word(c),
{
    c == '_' || char_is_alphanumeric(c)
}

/// The characters that `char::to_uppercase` yields for `c`.
pub uninterp spec fn upper_chars(c: char) -> Seq<char>;

/// The characters that `char::to_lowercase` yields for `c`.
pub uninterp spec fn lower_chars(c: char) -> Seq<char>;

/// `char::to_uppercase`, collected. Its documentation says the mapping is
/// "one or more" characters; an ASCII character maps to its ASCII uppercase
/// (a character without an uppercase mapping yields itself).
#[verifier::external_body]
pub(crate) fn char_to_uppercase(c: char) -> (v: Vec<char>)
    ensures
        v@ == upper_chars(c),
        v@.len() >= 1,
        (c as u32) < 0x80 ==> v@ == seq![ascii_upper(c)],
{
    c.to_uppercase().collect()
}

/// `char::to_lowercase`, collected. Its documentation says the mapping is
/// "one or more" characters; an ASCII character maps to its ASCII lowercase
/// (a character without a lowercase mapping yields itself).
#[verifier::external_body]
pub(crate) fn char_to_lowercase(c: char) -> (v: Vec<char>)
    ensures
        v@ == lower_chars(c),
        v@.len() >= 1,
        (c as u32) < 0x80 ==> v@ == seq![ascii_lower(c)],
{
    c.to_lowercase().collect()
}

/// The result of `str::to_lowercase` on `s`.
pub uninterp spec fn lowercase(s: Seq<char>) -> Seq<char>;

/// `str::to_lowercase`. On ASCII text it lowercases each letter and keeps
/// every other character.
#[verifier::external_body]
pub(crate) fn str_to_lowercase(s: &str) -> (r: String)
    ensures
        r@ == lowercase(s@),
        (forall|i: int| 0 <= i < s@.len() ==> (#[trigger] s@[i] as u32) < 0x80) ==> r@
            == s@.map_values(|c: char| ascii_lower(c)),
{
    s.to_lowercase()
}

/// First character of the uppercase mapping (`c.to_uppercase().next().unwrap_or(c)`).
pub open spec fn upper_first(c: char) -> char {
    if upper_chars(c).len() > 0 {
        upper_chars(c)[0]
    } else {
        c
    }
}

/// First character of the lowercase mapping (`c.to_lowercase().next().unwrap_or(c)`).
pub open spec fn lower_first(c: char) -> char {
    if lower_chars(c).len() > 0 {
        lower_chars(c)[0]
    } else {
        c
    }
}

/// Unicode `White_Space`, the property `char::is_whitespace` tests.
pub open spec fn is_space(c: char) -> bool {
    let v = c as u32;
    (0x09 <= v <= 0x0D) || v == 0x20 || v == 0x85 || v == 0xA0 || v == 0x1680 || (0x2000 <= v
        <= 0x200A) || v == 0x2028 || v == 0x2029 || v == 0x202F || v == 0x205F || v == 0x3000
}

/// Exec form of `is_space`.
pub fn is_space_char(c: char) -> (b: bool)
    ensures
        b == is_space(c),
{
    let v = c as u32;
    (0x09 <= v && v <= 0x0D) || v == 0x20 || v == 0x85 || v == 0xA0 || v == 0x1680 || (0x2000
        <= v && v <= 0x200A) || v == 0x2028 || v == 0x2029 || v == 0x202F || v == 0x205F || v
        == 0x3000
}

// ---------------------------------------------------------------------------
// Substrings
// ---------------------------------------------------------------------------

/// `needle` occurs in `hay` starting at index `i`.
pub open spec fn occurs_at(hay: Seq<char>, needle: Seq<char>, i: int) -> bool {
    0 <= i && i + needle.len() <= hay.len() && hay.subrange(i, i + needle.len()) == needle
}

/// `needle` occurs somewhere in `hay` (`str::contains`).
pub open spec fn contains_seq(hay: Seq<char>, needle: Seq<char>) -> bool {
    exists|i: int| occurs_at(hay, needle, i)
}

/// Substring test.
pub fn contains_chars(hay: &Vec<char>, needle: &Vec<char>) -> (b: bool)
    ensures
        b == contains_seq(hay@, needle@),
{
    let h = hay.len();
    let n = needle.len();
    if n > h {
        proof {
            assert forall|i: int| !occurs_at(hay@, needle@, i) by {}
        }
        return false;
    }
    let mut i: usize = 0;
    while i <= h - n
        invariant
            h == hay@.len(),
            n == needle@.len(),
            n <= h,
            forall|j: int| 0 <= j < i ==> !occurs_at(hay@, needle@, j),
        decreases h - n + 1 - i,
    {
        let mut t: usize = 0;
        let mut same = true;
        while t < n
            invariant
                h == hay@.len(),
                n == needle@.len(),
                i + n <= h,
                t <= n,
                same == (forall|q: int| 0 <= q < t ==> hay@[i + q] == needle@[q]),
            decreases n - t,
        {
            if hay[i + t] != needle[t] {
                same = false;
            }
            t = t + 1;
        }
        if same {
            proof {
                assert(hay@.subrange(i as int, i + n) =~= needle@);
                assert(occurs_at(hay@, needle@, i as int));
            }
            return true;
        }
        proof {
            if hay@.subrange(i as int, i + n) == needle@ {
                let q = choose|q: int| 0 <= q < n && hay@[i + q] != needle@[q];
                assert(hay@.subrange(i as int, i + n)[q] == hay@[i + q]);
            }
        }
        i = i + 1;
    }
    proof {
        assert forall|j: int| !occurs_at(hay@, needle@, j) by {
            if 0 <= j && j + n <= h {
                assert(j < i);
            }
        }
    }
    false
}


/// Equality of two strings, character by character.
pub fn str_eq(a: &str, b: &str) -> (r: bool)
    ensures
        r == (a@ == b@),
{
    let x = chars_of(a);
    let y = chars_of(b);
    chars_eq(&x, &y)
}

/// Equality of two character vectors.
pub fn chars_eq(x: &Vec<char>, y: &Vec<char>) -> (r: bool)
    ensures
        r == (x@ == y@),
{
    if x.len() != y.len() {
        return false;
    }
    let n = x.len();
    let mut i: usize = 0;
    while i < n
        invariant
            n == x@.len(),
            n == y@.len(),
            i <= n,
            forall|j: int| 0 <= j < i ==> x@[j] == y@[j],
        decreases n - i,
    {
        if x[i] != y[i] {
            return false;
        }
        i = i + 1;
    }
    proof {
        assert(x@ =~= y@);
    }
    true
}

/// Length of the longest common prefix of `a` and `b`.
pub open spec fn shared_prefix(a: Seq<char>, b: Seq<char>) -> nat
    decreases a.len(),
{
    if a.len() == 0 || b.len() == 0 || a[0] != b[0] {
        0
    } else {
        1 + shared_prefix(a.drop_first(), b.drop_first())
    }
}

/// Length of the longest common prefix of two character vectors.
pub fn shared_prefix_len(a: &Vec<char>, b: &Vec<char>) -> (n: usize)
    ensures
        n == shared_prefix(a@, b@),
{
    let mut i: usize = 0;
    proof {
        assert(a@.skip(0) =~= a@);
        assert(b@.skip(0) =~= b@);
    }
    while i < a.len() && i < b.len() && a[i] == b[i]
        invariant
            i <= a@.len(),
            i <= b@.len(),
            shared_prefix(a@, b@) == i + shared_prefix(a@.skip(i as int), b@.skip(i as int)),
        decreases a@.len() - i,
    {
        proof {
            assert(a@.skip(i as int).drop_first() =~= a@.skip(i + 1));
            assert(b@.skip(i as int).drop_first() =~= b@.skip(i + 1));
        }
        i = i + 1;
    }
    i
}

/// `s` without its leading run of `c`.
pub open spec fn trim_leading(s: Seq<char>, c: char) -> Seq<char>
    decreases s.len(),
{
    if s.len() > 0 && s[0] == c {
        trim_leading(s.drop_first(), c)
    } else {
        s
    }
}

/// Drop every leading `c` (`str::trim_start_matches` with a character).
pub fn trim_leading_chars(v: &Vec<char>, c: char) -> (r: Vec<char>)
    ensures
        r@ == trim_leading(v@, c),
{
    let n = v.len();
    let mut i: usize = 0;
    proof {
        assert(v@.skip(0) =~= v@);
    }
    while i < n && v[i] == c
        invariant
            n == v@.len(),
            i <= n,
            trim_leading(v@.skip(i as int), c) == trim_leading(v@, c),
        decreases n - i,
    {
        proof {
            assert(v@.skip(i as int).drop_first() =~= v@.skip(i + 1));
        }
        i = i + 1;
    }
    let mut r: Vec<char> = Vec::new();
    let mut t = i;
    while t < n
        invariant
            n == v@.len(),
            i <= t <= n,
            r@ == v@.subrange(i as int, t as int),
        decreases n - t,
    {
        r.push(v[t]);
        proof {
            assert(v@.subrange(i as int, t + 1) =~= v@.subrange(i as int, t as int).push(v@[t as int]));
        }
        t = t + 1;
    }
    proof {
        assert(v@.subrange(i as int, n as int) =~= v@.skip(i as int));
    }
    r
}

} // verus!
