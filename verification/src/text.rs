//! Character classification and UTF-8/UTF-16 length arithmetic shared by the
//! completion and LSP-position logic.

use unicode_xid::UnicodeXID;
use vstd::prelude::*;

verus! {

/// `[0-9A-Za-z]`.
pub open spec fn is_ascii_alnum(c: char) -> bool {
    ('0' <= c && c <= '9') || ('a' <= c && c <= 'z') || ('A' <= c && c <= 'Z')
}

/// Identifier characters of the ASCII completion prefix: `[0-9A-Za-z_]`.
pub open spec fn is_ascii_word(c: char) -> bool {
    is_ascii_alnum(c) || c == '_'
}

/// Executable form of `is_ascii_alnum` (the same test as `char::is_ascii_alphanumeric`).
pub fn ascii_alnum(c: char) -> (r: bool)
    ensures
        r == is_ascii_alnum(c),
{
    ('0' <= c && c <= '9') || ('a' <= c && c <= 'z') || ('A' <= c && c <= 'Z')
}

/// Executable form of `is_ascii_word`.
pub fn ascii_word(c: char) -> (r: bool)
    ensures
        r == is_ascii_word(c),
{
    ascii_alnum(c) || c == '_'
}


/// Number of UTF-8 bytes that encode `c` (as `char::len_utf8`).
pub open spec fn utf8_width(c: char) -> nat {
    if (c as u32) < 0x80 {
        1
    } else if (c as u32) < 0x800 {
        2
    } else if (c as u32) < 0x10000 {
        3
    } else {
        4
    }
}

/// Number of UTF-16 code units that encode `c` (as `char::len_utf16`).
pub open spec fn utf16_width(c: char) -> nat {
    if (c as u32) < 0x10000 {
        1
    } else {
        2
    }
}

/// Byte length of the UTF-8 encoding of `s`.
pub open spec fn utf8_len(s: Seq<char>) -> nat
    decreases s.len(),
{
    if s.len() == 0 {
        0
    } else {
        utf8_len(s.drop_last()) + utf8_width(s.last())
    }
}

/// Code-unit length of the UTF-16 encoding of `s`.
pub open spec fn utf16_len(s: Seq<char>) -> nat
    decreases s.len(),
{
    if s.len() == 0 {
        0
    } else {
        utf16_len(s.drop_last()) + utf16_width(s.last())
    }
}

/// `char::len_utf8`, computed from the code point.
pub fn len_utf8(c: char) -> (r: u32)
    ensures
        r == utf8_width(c),
        1 <= r <= 4,
{
    let u = c as u32;
    if u < 0x80 {
        1
    } else if u < 0x800 {
        2
    } else if u < 0x10000 {
        3
    } else {
        4
    }
}

/// `char::len_utf16`, computed from the code point.
pub fn len_utf16(c: char) -> (r: u32)
    ensures
        r == utf16_width(c),
        1 <= r <= 2,
{
    if (c as u32) < 0x10000 {
        1
    } else {
        2
    }
}

/// UTF-8 length is monotone in the prefix taken.
pub proof fn lemma_utf8_len_take_mono(s: Seq<char>, i: int, j: int)
    requires
        0 <= i <= j <= s.len(),
    ensures
        utf8_len(s.take(i)) <= utf8_len(s.take(j)),
        i < j ==> utf8_len(s.take(i)) < utf8_len(s.take(j)),
    decreases j - i,
{
    if i < j {
        lemma_utf8_len_take_mono(s, i, j - 1);
        assert(s.take(j).drop_last() =~= s.take(j - 1));
    }
}


/// `[A-Za-z]`.
pub open spec fn is_ascii_alpha(c: char) -> bool {
    ('a' <= c && c <= 'z') || ('A' <= c && c <= 'Z')
}

/// `[0-9]`.
pub open spec fn is_ascii_digit(c: char) -> bool {
    '0' <= c && c <= '9'
}

/// Executable form of `is_ascii_digit` (as `char::is_ascii_digit`).
pub fn ascii_digit(c: char) -> (r: bool)
    ensures
        r == is_ascii_digit(c),
{
    '0' <= c && c <= '9'
}

/// The Unicode `Alphabetic`-or-`Numeric` property that `char::is_alphanumeric` tests.
pub uninterp spec fn unicode_alphanumeric(c: char) -> bool;

/// The Unicode `White_Space` property that `char::is_whitespace` tests: tab, line
/// feed, vertical tab, form feed, carriage return, space, next line, no-break space,
/// ogham space mark, the spaces U+2000 to U+200A, line and paragraph separators,
/// narrow no-break space, medium mathematical space and ideographic space.
pub open spec fn unicode_whitespace(c: char) -> bool {
    let x = c as u32;
    (0x09 <= x && x <= 0x0d) || x == 0x20 || x == 0x85 || x == 0xa0 || x == 0x1680 || (0x2000 <= x && x
        <= 0x200a) || x == 0x2028 || x == 0x2029 || x == 0x202f || x == 0x205f || x == 0x3000
}

/// The `XID_Start` property as tabled by `unicode_xid`.
pub uninterp spec fn xid_start(c: char) -> bool;

/// The `XID_Continue` property as tabled by `unicode_xid`.
pub uninterp spec fn xid_continue(c: char) -> bool;

/// `char::is_alphanumeric`: on ASCII exactly `[0-9A-Za-z]`, beyond it the Unicode
/// property.
pub open spec fn alphanumeric(c: char) -> bool {
    if (c as u32) < 0x80 {
        is_ascii_alnum(c)
    } else {
        unicode_alphanumeric(c)
    }
}

/// `XID_Start`: on ASCII exactly `[A-Za-z]`, beyond it the Unicode table.
pub open spec fn xid_start_char(c: char) -> bool {
    if (c as u32) < 0x80 {
        is_ascii_alpha(c)
    } else {
        xid_start(c)
    }
}

/// `XID_Continue`: on ASCII exactly `[0-9A-Za-z_]`, beyond it the Unicode table.
pub open spec fn xid_continue_char(c: char) -> bool {
    if (c as u32) < 0x80 {
        is_ascii_word(c)
    } else {
        xid_continue(c)
    }
}

/// `char::is_alphanumeric`. The standard library documents it as the
/// `Alphabetic` or `Numeric` property; on ASCII that is exactly `[0-9A-Za-z]`.
#[verifier::external_body]
pub(crate) fn is_alphanumeric(c: char) -> (r: bool)
    ensures
        r == unicode_alphanumeric(c),
        r == alphanumeric(c),
{
    c.is_alphanumeric()
}

/// Whether `c` is white space, as `char::is_whitespace` decides it.
pub fn is_whitespace(c: char) -> (r: bool)
    ensures
        r == unicode_whitespace(c),
{
    let x = c as u32;
    (0x09 <= x && x <= 0x0d) || x == 0x20 || x == 0x85 || x == 0xa0 || x == 0x1680 || (0x2000 <= x && x <= 0x200a)
        || x == 0x2028 || x == 0x2029 || x == 0x202f || x == 0x205f || x == 0x3000
}

/// `UnicodeXID::is_xid_start` of `unicode_xid`; its ASCII fast path accepts
/// exactly `[A-Za-z]`.
#[verifier::external_body]
pub(crate) fn is_xid_start(c: char) -> (r: bool)
    ensures
        r == xid_start(c),
        r == xid_start_char(c),
{
    UnicodeXID::is_xid_start(c)
}

/// `UnicodeXID::is_xid_continue` of `unicode_xid`; its ASCII fast path accepts
/// exactly `[0-9A-Za-z_]`.
#[verifier::external_body]
pub(crate) fn is_xid_continue(c: char) -> (r: bool)
    ensures
        r == xid_continue(c),
        r == xid_continue_char(c),
{
    UnicodeXID::is_xid_continue(c)
}

/// `String::push`: appends one char.
#[verifier::external_body]
pub(crate) fn string_push(s: &mut String, c: char)
    ensures
        final(s)@ == old(s)@.push(c),
{
    s.push(c);
}

/// The chars of `s`, in order.
pub fn str_chars(s: &str) -> (v: Vec<char>)
    ensures
        v@ == s@,
{
    let mut v: Vec<char> = Vec::new();
    proof {
        broadcast use vstd::string::axiom_spec_iter;
    }
    for c in iter: s.chars()
        invariant
            iter.seq() == s@,
            v@ == s@.take(iter.index() as int),
    {
        v.push(c);
        proof {
            assert(s@.take(iter.index() + 1) =~= s@.take(iter.index() as int).push(c));
        }
    }
    assert(v@ =~= s@);
    v
}

/// A `String` holding the chars of `v`.
pub fn string_from_chars(v: &[char]) -> (s: String)
    ensures
        s@ == v@,
{
    let mut s = String::new();
    let mut i: usize = 0;
    while i < v.len()
        invariant
            i <= v.len(),
            s@ == v@.take(i as int),
        decreases v.len() - i,
    {
        string_push(&mut s, v[i]);
        assert(v@.take(i + 1) =~= v@.take(i as int).push(v@[i as int]));
        i += 1;
    }
    assert(v@.take(i as int) =~= v@);
    s
}

/// Whether two strings hold the same chars.
pub fn str_eq(a: &str, b: &str) -> (r: bool)
    ensures
        r == (a@ == b@),
{
    let ac = str_chars(a);
    let bc = str_chars(b);
    if ac.len() != bc.len() {
        return false;
    }
    let mut i: usize = 0;
    while i < ac.len()
        invariant
            ac@ == a@,
            bc@ == b@,
            ac@.len() == bc@.len(),
            i <= ac@.len(),
            forall|k: int| 0 <= k < i ==> ac@[k] == bc@[k],
        decreases ac@.len() - i,
    {
        if ac[i] != bc[i] {
            return false;
        }
        i += 1;
    }
    proof {
        assert(ac@ =~= bc@);
    }
    true
}

/// Whether `s` starts with `prefix` (exactly, with case).
pub fn str_starts_with(s: &str, prefix: &str) -> (r: bool)
    ensures
        r == prefix@.is_prefix_of(s@),
{
    let sc = str_chars(s);
    let pc = str_chars(prefix);
    if pc.len() > sc.len() {
        return false;
    }
    let mut i: usize = 0;
    while i < pc.len()
        invariant
            sc@ == s@,
            pc@ == prefix@,
            pc@.len() <= sc@.len(),
            i <= pc@.len(),
            forall|k: int| 0 <= k < i ==> pc@[k] == sc@[k],
        decreases pc@.len() - i,
    {
        if pc[i] != sc[i] {
            return false;
        }
        i += 1;
    }
    true
}

/// The chars of each string.
pub open spec fn string_views(v: Seq<String>) -> Seq<Seq<char>> {
    v.map_values(|s: String| s@)
}

/// Lexicographic order of char sequences by code point, the order in which `str`
/// values compare (UTF-8 keeps code-point order).
pub open spec fn chars_le(a: Seq<char>, b: Seq<char>) -> bool
    decreases a.len(),
{
    if a.len() == 0 {
        true
    } else if b.len() == 0 {
        false
    } else if a[0] != b[0] {
        a[0] < b[0]
    } else {
        chars_le(a.drop_first(), b.drop_first())
    }
}

/// Any two char sequences are ordered one way or the other.
pub proof fn lemma_chars_le_total(a: Seq<char>, b: Seq<char>)
    ensures
        chars_le(a, b) || chars_le(b, a),
    decreases a.len(),
{
    if a.len() > 0 && b.len() > 0 && a[0] == b[0] {
        lemma_chars_le_total(a.drop_first(), b.drop_first());
    }
}

/// The order is transitive.
pub proof fn lemma_chars_le_trans(a: Seq<char>, b: Seq<char>, c: Seq<char>)
    requires
        chars_le(a, b),
        chars_le(b, c),
    ensures
        chars_le(a, c),
    decreases a.len(),
{
    if a.len() > 0 && b.len() > 0 && c.len() > 0 && a[0] == b[0] && b[0] == c[0] {
        lemma_chars_le_trans(a.drop_first(), b.drop_first(), c.drop_first());
    }
}

/// Sequences ordered both ways are equal.
pub proof fn lemma_chars_le_antisym(a: Seq<char>, b: Seq<char>)
    requires
        chars_le(a, b),
        chars_le(b, a),
    ensures
        a == b,
    decreases a.len(),
{
    if a.len() > 0 && b.len() > 0 {
        lemma_chars_le_antisym(a.drop_first(), b.drop_first());
        assert(a =~= seq![a[0]] + a.drop_first());
        assert(b =~= seq![b[0]] + b.drop_first());
    } else {
        assert(a =~= b);
    }
}

/// Whether `a` comes before or equals `b` in `chars_le` order, as `a <= b` on `str`.
pub fn chars_le_exec(a: &[char], b: &[char]) -> (r: bool)
    ensures
        r == chars_le(a@, b@),
{
    let mut i: usize = 0;
    assert(a@.skip(0) =~= a@ && b@.skip(0) =~= b@);
    while i < a.len() && i < b.len() && a[i] == b[i]
        invariant
            i <= a.len(),
            i <= b.len(),
            chars_le(a@, b@) == chars_le(a@.skip(i as int), b@.skip(i as int)),
        decreases a.len() - i,
    {
        proof {
            assert(a@.skip(i as int).drop_first() =~= a@.skip(i + 1));
            assert(b@.skip(i as int).drop_first() =~= b@.skip(i + 1));
        }
        i += 1;
    }
    if i == a.len() {
        true
    } else if i == b.len() {
        false
    } else {
        a[i] < b[i]
    }
}

/// Three-way comparison of char sequences in `chars_le` order: -1, 0 or 1.
pub open spec fn cmp_chars(a: Seq<char>, b: Seq<char>) -> int {
    if a == b {
        0
    } else if chars_le(a, b) {
        -1
    } else {
        1
    }
}

/// `cmp_chars` is antisymmetric and transitive on any three sequences.
pub proof fn lemma_cmp_chars(a: Seq<char>, b: Seq<char>, c: Seq<char>)
    ensures
        cmp_chars(a, b) == -cmp_chars(b, a),
        cmp_chars(a, b) <= 0 && cmp_chars(b, c) <= 0 ==> cmp_chars(a, c) <= 0,
        cmp_chars(a, b) < 0 && cmp_chars(b, c) <= 0 ==> cmp_chars(a, c) < 0,
        cmp_chars(a, b) <= 0 && cmp_chars(b, c) < 0 ==> cmp_chars(a, c) < 0,
{
    lemma_chars_le_total(a, b);
    lemma_chars_le_total(b, c);
    lemma_chars_le_total(a, c);
    if chars_le(a, b) && chars_le(b, a) {
        lemma_chars_le_antisym(a, b);
    }
    if chars_le(b, c) && chars_le(c, b) {
        lemma_chars_le_antisym(b, c);
    }
    if chars_le(a, c) && chars_le(c, a) {
        lemma_chars_le_antisym(a, c);
    }
    if chars_le(a, b) && chars_le(b, c) {
        lemma_chars_le_trans(a, b, c);
    }
    if chars_le(b, c) && chars_le(c, a) {
        lemma_chars_le_trans(b, c, a);
    }
    if chars_le(c, a) && chars_le(a, b) {
        lemma_chars_le_trans(c, a, b);
    }
}

/// Three-way comparison of two strings by code point, as `str::cmp` orders them.
pub fn cmp_str(a: &str, b: &str) -> (r: i8)
    ensures
        r == cmp_chars(a@, b@),
{
    let ac = str_chars(a);
    let bc = str_chars(b);
    let ab = chars_le_exec(ac.as_slice(), bc.as_slice());
    let ba = chars_le_exec(bc.as_slice(), ac.as_slice());
    proof {
        lemma_chars_le_total(a@, b@);
        if ab && ba {
            lemma_chars_le_antisym(a@, b@);
        }
        if a@ == b@ {
            assert(chars_le(a@, b@) && chars_le(b@, a@)) by {
                lemma_chars_le_total(a@, a@);
            }
        }
    }
    if ab && ba {
        0
    } else if ab {
        -1
    } else {
        1
    }
}

} // verus!
