//! Expansion of LSP snippet syntax (`$1`, `${2:text}`, `${3|a,b|}`, `$0`, `\` escapes)
//! into plain text with a cursor or a selection.

use vstd::prelude::*;

use crate::text::{ascii_digit, is_ascii_digit, str_chars, string_from_chars};

verus! {

/// What a snippet expands to: the text, where the cursor goes, and what is selected
/// (char offsets into the text).
#[derive(Debug, Clone, PartialEq, Eq)]
pub struct SnippetExpansion {
    pub text: String,
    pub cursor: Option<usize>,
    pub selection: Option<(usize, usize)>,
}

/// The progress of a scan: text so far, the placeholder and tab stop with the
/// lowest positive index seen first, and the last final tab stop (`$0`).
pub struct SnippetScan {
    pub out: Seq<char>,
    pub best_placeholder: Option<(u32, nat, nat)>,
    pub best_tabstop: Option<(u32, nat)>,
    pub final_cursor: Option<nat>,
}

/// Position of the `}` that closes a `${` whose content starts at `j` (nested
/// braces counted), or the end of the input.
pub open spec fn brace_end(s: Seq<char>, j: int, depth: nat) -> int
    decreases s.len() - j,
{
    if j >= s.len() || j < 0 {
        s.len() as int
    } else if s[j] == '{' {
        brace_end(s, j + 1, depth + 1)
    } else if s[j] == '}' {
        if depth == 0 {
            j
        } else {
            brace_end(s, j + 1, (depth - 1) as nat)
        }
    } else {
        brace_end(s, j + 1, depth)
    }
}

/// End of the run of ASCII digits that starts at `j`.
pub open spec fn digit_end(s: Seq<char>, j: int) -> int
    decreases s.len() - j,
{
    if j >= s.len() || j < 0 || !is_ascii_digit(s[j]) {
        j
    } else {
        digit_end(s, j + 1)
    }
}

/// The decimal value of a digit string.
pub open spec fn digits_value(d: Seq<char>) -> nat
    decreases d.len(),
{
    if d.len() == 0 {
        0
    } else {
        10 * digits_value(d.drop_last()) + ((d.last() as u32) - 48) as nat
    }
}

/// `x` saturated to `u32`.
pub open spec fn sat_u32(x: int) -> u32 {
    if x > u32::MAX {
        u32::MAX
    } else {
        x as u32
    }
}

/// The value of a digit string accumulated with saturating `u32` arithmetic.
pub open spec fn sat_digits(d: Seq<char>) -> u32
    decreases d.len(),
{
    if d.len() == 0 {
        0
    } else {
        sat_u32(sat_u32(10 * sat_digits(d.drop_last())) + ((d.last() as u32) - 48))
    }
}

/// First position of `c` in `s`.
pub open spec fn find_first(s: Seq<char>, c: char) -> Option<nat>
    decreases s.len(),
{
    if s.len() == 0 {
        None
    } else if s[0] == c {
        Some(0)
    } else {
        match find_first(s.drop_first(), c) {
            Some(k) => Some(k + 1),
            None => None,
        }
    }
}

/// Last position of `c` in `s`.
pub open spec fn find_last(s: Seq<char>, c: char) -> Option<nat>
    decreases s.len(),
{
    if s.len() == 0 {
        None
    } else if s.last() == c {
        Some((s.len() - 1) as nat)
    } else {
        find_last(s.drop_last(), c)
    }
}

/// The text a `${n...}` inserts, given what follows its index: after the first
/// `:` the default text, between the first and last `|` the first `,`-separated
/// choice; the flag tells whether it is a placeholder.
pub open spec fn placeholder_text(rest: Seq<char>) -> (Seq<char>, bool) {
    match find_first(rest, ':') {
        Some(k) => (rest.skip(k + 1 as int), true),
        None => match (find_first(rest, '|'), find_last(rest, '|')) {
            (Some(a), Some(b)) => if b > a + 1 {
                let opts = rest.subrange(a + 1 as int, b as int);
                match find_first(opts, ',') {
                    Some(c) => (opts.take(c as int), true),
                    None => (opts, true),
                }
            } else {
                (Seq::empty(), false)
            },
            _ => (Seq::empty(), false),
        },
    }
}

/// Records a tab stop with index `index` at the end of the text.
pub open spec fn with_tabstop(st: SnippetScan, index: u32) -> SnippetScan {
    if index == 0 {
        SnippetScan { final_cursor: Some(st.out.len()), ..st }
    } else if st.best_tabstop matches Some(b) && !(index < b.0) {
        st
    } else {
        SnippetScan { best_tabstop: Some((index, st.out.len())), ..st }
    }
}

/// Applies the content of a `${...}` group.
pub open spec fn with_braced(st: SnippetScan, content: Seq<char>) -> SnippetScan {
    let d = digit_end(content, 0);
    let v = digits_value(content.take(d));
    if d == 0 || v > u32::MAX {
        st
    } else {
        let index = v as u32;
        let (ins, is_placeholder) = placeholder_text(content.skip(d));
        if ins.len() > 0 {
            let start = st.out.len();
            let out = st.out + ins;
            let replace = is_placeholder && index > 0 && !(st.best_placeholder matches Some(b) && !(
            index < b.0));
            SnippetScan {
                out,
                best_placeholder: if replace {
                    Some((index, start, out.len()))
                } else {
                    st.best_placeholder
                },
                ..st
            }
        } else {
            with_tabstop(st, index)
        }
    }
}

/// The text with one more char.
pub open spec fn with_char(st: SnippetScan, c: char) -> SnippetScan {
    SnippetScan { out: st.out.push(c), ..st }
}

/// One token of the snippet at `i`: where the next one starts and the scan after it.
pub open spec fn scan_step(s: Seq<char>, i: int, st: SnippetScan) -> (int, SnippetScan) {
    let ch = s[i];
    if ch == '\\' {
        if i + 1 < s.len() {
            (i + 2, with_char(st, s[i + 1]))
        } else {
            (i + 1, with_char(st, '\\'))
        }
    } else if ch == '$' {
        if i + 1 < s.len() && s[i + 1] == '{' {
            let e = brace_end(s, i + 2, 0);
            let next = if e < s.len() {
                e + 1
            } else {
                e
            };
            (next, with_braced(st, s.subrange(i + 2, e)))
        } else if i + 1 < s.len() && is_ascii_digit(s[i + 1]) {
            let e = digit_end(s, i + 1);
            (e, with_tabstop(st, sat_digits(s.subrange(i + 1, e))))
        } else {
            (i + 1, with_char(st, '$'))
        }
    } else {
        (i + 1, with_char(st, ch))
    }
}

/// The scan of the snippet from `i` on.
pub open spec fn scan_from(s: Seq<char>, i: int, st: SnippetScan) -> SnippetScan
    decreases s.len() - i,
{
    if i >= s.len() || i < 0 {
        st
    } else {
        let (j, st2) = scan_step(s, i, st);
        if i < j <= s.len() {
            scan_from(s, j, st2)
        } else {
            st2
        }
    }
}

/// The scan of a whole snippet.
pub open spec fn scan_snippet(s: Seq<char>) -> SnippetScan {
    scan_from(s, 0, SnippetScan { out: Seq::empty(), best_placeholder: None, best_tabstop: None, final_cursor: None })
}

/// What a finished scan yields: the first lowest placeholder selected with the
/// cursor at its end, else the cursor at the first lowest tab stop, else at the
/// last `$0`.
pub open spec fn expansion_of(st: SnippetScan) -> (Seq<char>, Option<nat>, Option<(nat, nat)>) {
    match st.best_placeholder {
        Some((_, a, b)) => (st.out, Some(b), Some((a, b))),
        None => match st.best_tabstop {
            Some((_, p)) => (st.out, Some(p), None),
            None => (st.out, st.final_cursor, None),
        },
    }
}


fn brace_content_end(cs: &[char], j: usize) -> (e: usize)
    requires
        j <= cs@.len(),
    ensures
        e == brace_end(cs@, j as int, 0),
        j <= e <= cs@.len(),
{
    let mut k = j;
    let mut depth: usize = 0;
    while k < cs.len()
        invariant
            j <= k <= cs@.len(),
            depth <= k - j,
            brace_end(cs@, j as int, 0) == brace_end(cs@, k as int, depth as nat),
        decreases cs@.len() - k,
    {
        let c = cs[k];
        if c == '{' {
            depth = depth + 1;
        } else if c == '}' {
            if depth == 0 {
                return k;
            }
            depth = depth - 1;
        }
        k += 1;
    }
    k
}

fn digit_run_end(cs: &[char], j: usize) -> (e: usize)
    requires
        j <= cs@.len(),
    ensures
        e == digit_end(cs@, j as int),
        j <= e <= cs@.len(),
        forall|k: int| j <= k < e ==> is_ascii_digit(#[trigger] cs@[k]),
{
    let mut k = j;
    while k < cs.len() && ascii_digit(cs[k])
        invariant
            j <= k <= cs@.len(),
            digit_end(cs@, j as int) == digit_end(cs@, k as int),
            forall|m: int| j <= m < k ==> is_ascii_digit(#[trigger] cs@[m]),
        decreases cs@.len() - k,
    {
        k += 1;
    }
    k
}

proof fn lemma_digits_value_mono(d: Seq<char>, k: int)
    requires
        0 <= k <= d.len(),
        forall|m: int| 0 <= m < d.len() ==> is_ascii_digit(#[trigger] d[m]),
    ensures
        digits_value(d.take(k)) <= digits_value(d),
    decreases d.len() - k,
{
    if k < d.len() {
        lemma_digits_value_mono(d, k + 1);
        assert(d.take(k + 1).drop_last() =~= d.take(k));
        assert(is_ascii_digit(d[k]));
    } else {
        assert(d.take(k) =~= d);
    }
}

/// The value of a digit string as `u32`, or `None` when it does not fit (as `str::parse::<u32>`).
fn parse_digits_u32(cs: &[char], a: usize, b: usize) -> (r: Option<u32>)
    requires
        a <= b <= cs@.len(),
        forall|k: int| a <= k < b ==> is_ascii_digit(#[trigger] cs@[k]),
    ensures
        match r {
            Some(v) => v == digits_value(cs@.subrange(a as int, b as int)),
            None => digits_value(cs@.subrange(a as int, b as int)) > u32::MAX,
        },
{
    let ghost d = cs@.subrange(a as int, b as int);
    let mut acc: u32 = 0;
    let mut k = a;
    while k < b
        invariant
            a <= k <= b <= cs@.len(),
            d == cs@.subrange(a as int, b as int),
            forall|m: int| a <= m < b ==> is_ascii_digit(#[trigger] cs@[m]),
            acc == digits_value(d.take(k - a)),
        decreases b - k,
    {
        let digit = (cs[k] as u32) - 48;
        proof {
            assert(is_ascii_digit(cs@[k as int]));
            assert(d.take(k - a + 1).drop_last() =~= d.take(k - a));
            assert(d[k - a] == cs@[k as int]);
        }
        if acc > 429496729 || (acc == 429496729 && digit > 5) {
            proof {
                assert forall|m: int| 0 <= m < d.len() implies is_ascii_digit(#[trigger] d[m]) by {
                    assert(d[m] == cs@[a + m]);
                }
                lemma_digits_value_mono(d, k - a + 1);
            }
            return None;
        }
        acc = acc * 10 + digit;
        k += 1;
    }
    proof {
        assert(d.take(k - a) =~= d);
    }
    Some(acc)
}

/// The value of a digit string accumulated with saturating `u32` arithmetic.
fn saturating_digits(cs: &[char], a: usize, b: usize) -> (r: u32)
    requires
        a <= b <= cs@.len(),
        forall|k: int| a <= k < b ==> is_ascii_digit(#[trigger] cs@[k]),
    ensures
        r == sat_digits(cs@.subrange(a as int, b as int)),
{
    let ghost d = cs@.subrange(a as int, b as int);
    let mut num: u32 = 0;
    let mut k = a;
    while k < b
        invariant
            a <= k <= b <= cs@.len(),
            d == cs@.subrange(a as int, b as int),
            forall|m: int| a <= m < b ==> is_ascii_digit(#[trigger] cs@[m]),
            num == sat_digits(d.take(k - a)),
        decreases b - k,
    {
        proof {
            assert(is_ascii_digit(cs@[k as int]));
            assert(d.take(k - a + 1).drop_last() =~= d.take(k - a));
            assert(d[k - a] == cs@[k as int]);
        }
        let scaled: u32 = if num > 429496729 { u32::MAX } else { num * 10 };
        let digit: u32 = (cs[k] as u32) - 48;
        num = if scaled > u32::MAX - digit { u32::MAX } else { scaled + digit };
        k += 1;
    }
    proof {
        assert(d.take(k - a) =~= d);
    }
    num
}

proof fn lemma_find_first_at(s: Seq<char>, c: char, i: int)
    requires
        0 <= i <= s.len(),
        forall|m: int| 0 <= m < i ==> s[m] != c,
    ensures
        i < s.len() && s[i] == c ==> find_first(s, c) == Some(i as nat),
        i == s.len() ==> find_first(s, c) is None,
    decreases i,
{
    if i > 0 {
        lemma_find_first_at(s.drop_first(), c, i - 1);
    }
}

proof fn lemma_find_first_some(s: Seq<char>, c: char)
    ensures
        find_first(s, c) matches Some(k) ==> k < s.len() && s[k as int] == c,
    decreases s.len(),
{
    if s.len() > 0 && s[0] != c {
        lemma_find_first_some(s.drop_first(), c);
    }
}

proof fn lemma_find_last_some(s: Seq<char>, c: char)
    ensures
        find_last(s, c) matches Some(k) ==> k < s.len() && s[k as int] == c,
    decreases s.len(),
{
    if s.len() > 0 && s.last() != c {
        lemma_find_last_some(s.drop_last(), c);
    }
}

fn find_first_char(v: &[char], a: usize, b: usize, c: char) -> (r: Option<usize>)
    requires
        a <= b <= v@.len(),
    ensures
        r matches Some(p) ==> a <= p < b && find_first(v@.subrange(a as int, b as int), c) == Some((p - a) as nat),
        r is None ==> find_first(v@.subrange(a as int, b as int), c) is None,
{
    let ghost s = v@.subrange(a as int, b as int);
    proof {
        lemma_find_first_some(s, c);
    }
    let mut i = a;
    while i < b
        invariant
            a <= i <= b <= v@.len(),
            s == v@.subrange(a as int, b as int),
            forall|m: int| 0 <= m < i - a ==> s[m] != c,
        decreases b - i,
    {
        if v[i] == c {
            proof {
                lemma_find_first_at(s, c, i - a);
            }
            return Some(i);
        }
        i += 1;
    }
    proof {
        lemma_find_first_at(s, c, i - a);
    }
    None
}

proof fn lemma_find_last_at(s: Seq<char>, c: char, i: int)
    requires
        0 <= i <= s.len(),
        forall|m: int| i <= m < s.len() ==> s[m] != c,
    ensures
        i > 0 && s[i - 1] == c ==> find_last(s, c) == Some((i - 1) as nat),
        i == 0 ==> find_last(s, c) is None,
    decreases s.len() - i,
{
    if i < s.len() {
        lemma_find_last_at(s.drop_last(), c, i);
    } else if i > 0 {
    } else {
    }
}

fn find_last_char(v: &[char], a: usize, b: usize, c: char) -> (r: Option<usize>)
    requires
        a <= b <= v@.len(),
    ensures
        r matches Some(p) ==> a <= p < b && find_last(v@.subrange(a as int, b as int), c) == Some((p - a) as nat),
        r is None ==> find_last(v@.subrange(a as int, b as int), c) is None,
{
    let ghost s = v@.subrange(a as int, b as int);
    proof {
        lemma_find_last_some(s, c);
    }
    let mut i = b;
    while i > a
        invariant
            a <= i <= b <= v@.len(),
            s == v@.subrange(a as int, b as int),
            forall|m: int| i - a <= m < s.len() ==> s[m] != c,
        decreases i - a,
    {
        if v[i - 1] == c {
            proof {
                lemma_find_last_at(s, c, i - a);
            }
            return Some(i - 1);
        }
        i -= 1;
    }
    proof {
        lemma_find_last_at(s, c, 0);
    }
    None
}

fn copy_chars(v: &[char], a: usize, b: usize) -> (r: Vec<char>)
    requires
        a <= b <= v@.len(),
    ensures
        r@ == v@.subrange(a as int, b as int),
{
    let mut r: Vec<char> = Vec::new();
    let mut i = a;
    while i < b
        invariant
            a <= i <= b <= v@.len(),
            r@ == v@.subrange(a as int, i as int),
        decreases b - i,
    {
        r.push(v[i]);
        i += 1;
        proof {
            assert(r@ =~= v@.subrange(a as int, i as int));
        }
    }
    r
}

/// The inserted text of a `${n...}` group from the chars `a..b` after its index.
fn placeholder_text_of(v: &[char], a: usize, b: usize) -> (r: (Vec<char>, bool))
    requires
        a <= b <= v@.len(),
    ensures
        (r.0@, r.1) == placeholder_text(v@.subrange(a as int, b as int)),
{
    let ghost rest = v@.subrange(a as int, b as int);
    match find_first_char(v, a, b, ':') {
        Some(k) => {
            proof {
                assert(v@.subrange(k + 1, b as int) =~= rest.skip(k - a + 1));
            }
            let t = copy_chars(v, k + 1, b);
            assert(find_first(rest, ':') == Some((k - a) as nat));
            assert(t@ == rest.skip(k - a + 1));
            (t, true)
        },
        None => {
            let first = find_first_char(v, a, b, '|');
            let last = find_last_char(v, a, b, '|');
            if first.is_none() || last.is_none() {
                return (Vec::new(), false);
            }
            let s = first.unwrap();
            let e = last.unwrap();
            if e > s + 1 {
                let ghost opts = rest.subrange(s - a + 1, e - a);
                proof {
                    assert(v@.subrange(s + 1, e as int) =~= opts);
                }
                match find_first_char(v, s + 1, e, ',') {
                    Some(c) => {
                        proof {
                            assert(v@.subrange(s + 1, c as int) =~= opts.take(c - s - 1));
                        }
                        let t = copy_chars(v, s + 1, c);
                        assert(find_first(rest, ':') is None);
                        assert(find_first(rest, '|') == Some((s - a) as nat));
                        assert(find_last(rest, '|') == Some((e - a) as nat));
                        assert(find_first(opts, ',') == Some((c - s - 1) as nat));
                        assert(t@ == placeholder_text(rest).0);
                        (t, true)
                    },
                    None => {
                        let t = copy_chars(v, s + 1, e);
                        (t, true)
                    },
                }
            } else {
                (Vec::new(), false)
            }
        },
    }
}


/// The scan state held by the expansion loop, as a `SnippetScan`.
pub open spec fn scan_of(
    out: Seq<char>,
    bp: Option<(u32, usize, usize)>,
    bt: Option<(u32, usize)>,
    fc: Option<usize>,
) -> SnippetScan {
    SnippetScan {
        out,
        best_placeholder: match bp {
            Some((k, a, b)) => Some((k, a as nat, b as nat)),
            None => None,
        },
        best_tabstop: match bt {
            Some((k, p)) => Some((k, p as nat)),
            None => None,
        },
        final_cursor: match fc {
            Some(p) => Some(p as nat),
            None => None,
        },
    }
}

/// An expansion agrees with the text, cursor and selection that a scan yields.
pub open spec fn expansion_agrees(r: SnippetExpansion, e: (Seq<char>, Option<nat>, Option<(nat, nat)>)) -> bool {
    &&& r.text@ == e.0
    &&& match r.cursor {
        Some(c) => e.1 == Some(c as nat),
        None => e.1 is None,
    }
    &&& match r.selection {
        Some((a, b)) => e.2 == Some((a as nat, b as nat)),
        None => e.2 is None,
    }
}

fn append_chars(out: &mut Vec<char>, ins: &[char])
    ensures
        final(out)@ == old(out)@ + ins@,
{
    let mut i: usize = 0;
    while i < ins.len()
        invariant
            i <= ins@.len(),
            out@ == old(out)@ + ins@.take(i as int),
        decreases ins@.len() - i,
    {
        out.push(ins[i]);
        i += 1;
        proof {
            assert(out@ =~= old(out)@ + ins@.take(i as int));
        }
    }
    proof {
        assert(ins@.take(i as int) =~= ins@);
    }
}

proof fn lemma_placeholder_text_len(rest: Seq<char>)
    ensures
        placeholder_text(rest).0.len() <= rest.len(),
{
    lemma_find_first_some(rest, ':');
    lemma_find_first_some(rest, '|');
    lemma_find_last_some(rest, '|');
    match find_first(rest, ':') {
        Some(k) => {},
        None => match (find_first(rest, '|'), find_last(rest, '|')) {
            (Some(a), Some(b)) => if b > a + 1 {
                let opts = rest.subrange(a + 1 as int, b as int);
                lemma_find_first_some(opts, ',');
            },
            _ => {},
        },
    }
}

/// Expands LSP snippet syntax: `\x` inserts `x`, `$n` and `${n}` mark tab stops,
/// `${n:text}` and `${n|a,b|}` insert a placeholder, `$0` marks the final cursor.
/// The first placeholder with the lowest positive index is selected; failing that
/// the cursor goes to the first tab stop with the lowest positive index, else to the
/// last `$0`.
pub fn expand_snippet(snippet: &str) -> (r: SnippetExpansion)
    ensures
        expansion_agrees(r, expansion_of(scan_snippet(snippet@))),
{
    let cs = str_chars(snippet);
    let n = cs.len();
    let mut out: Vec<char> = Vec::new();
    let mut best_placeholder: Option<(u32, usize, usize)> = None;
    let mut best_tabstop: Option<(u32, usize)> = None;
    let mut final_cursor: Option<usize> = None;
    let mut i: usize = 0;
    while i < n
        invariant
            n == cs@.len(),
            cs@ == snippet@,
            i <= n,
            out@.len() <= i,
            scan_from(cs@, i as int, scan_of(out@, best_placeholder, best_tabstop, final_cursor))
                == scan_snippet(cs@),
        decreases n - i,
    {
        let ghost st = scan_of(out@, best_placeholder, best_tabstop, final_cursor);
        let ghost step = scan_step(cs@, i as int, st);
        let ch = cs[i];
        let next: usize;
        if ch == '\\' {
            if i + 1 < n {
                out.push(cs[i + 1]);
                next = i + 2;
            } else {
                out.push('\\');
                next = i + 1;
            }
        } else if ch == '$' {
            if i + 1 < n && cs[i + 1] == '{' {
                let e = brace_content_end(&cs, i + 2);
                let content = copy_chars(&cs, i + 2, e);
                next = if e < n { e + 1 } else { e };
                let d = digit_run_end(&content, 0);
                proof {
                    assert(content@.subrange(0, d as int) =~= content@.take(d as int));
                }
                if d > 0 {
                    match parse_digits_u32(&content, 0, d) {
                        None => {},
                        Some(index) => {
                            let (ins, is_placeholder) = placeholder_text_of(&content, d, content.len());
                            proof {
                                assert(content@.subrange(d as int, content@.len() as int) =~= content@.skip(d as int));
                                lemma_placeholder_text_len(content@.skip(d as int));
                            }
                            if ins.len() > 0 {
                                let start = out.len();
                                append_chars(&mut out, &ins);
                                let end = out.len();
                                let replace = is_placeholder && index > 0 && match best_placeholder {
                                    Some((best_idx, _, _)) => index < best_idx,
                                    None => true,
                                };
                                if replace {
                                    best_placeholder = Some((index, start, end));
                                }
                            } else if index == 0 {
                                final_cursor = Some(out.len());
                            } else {
                                let replace = match best_tabstop {
                                    Some((best_idx, _)) => index < best_idx,
                                    None => true,
                                };
                                if replace {
                                    best_tabstop = Some((index, out.len()));
                                }
                            }
                        },
                    }
                }
            } else if i + 1 < n && ascii_digit(cs[i + 1]) {
                let e = digit_run_end(&cs, i + 1);
                let num = saturating_digits(&cs, i + 1, e);
                if num == 0 {
                    final_cursor = Some(out.len());
                } else {
                    let replace = match best_tabstop {
                        Some((best_idx, _)) => num < best_idx,
                        None => true,
                    };
                    if replace {
                        best_tabstop = Some((num, out.len()));
                    }
                }
                next = e;
            } else {
                out.push('$');
                next = i + 1;
            }
        } else {
            out.push(ch);
            next = i + 1;
        }
        proof {
            assert(step.0 == next as int);
            assert(step.1 == scan_of(out@, best_placeholder, best_tabstop, final_cursor));
        }
        i = next;
    }
    let text = string_from_chars(&out);
    match best_placeholder {
        Some((_, start, end)) => SnippetExpansion { text, cursor: Some(end), selection: Some((start, end)) },
        None => match best_tabstop {
            Some((_, pos)) => SnippetExpansion { text, cursor: Some(pos), selection: None },
            None => SnippetExpansion { text, cursor: final_cursor, selection: None },
        },
    }
}

/// Every position a scan holds lies within its text, and a placeholder's start is not
/// after its end.
pub open spec fn scan_in_bounds(st: SnippetScan) -> bool {
    &&& (st.best_placeholder matches Some((_, a, b)) ==> a <= b <= st.out.len())
    &&& (st.best_tabstop matches Some((_, p)) ==> p <= st.out.len())
    &&& (st.final_cursor matches Some(p) ==> p <= st.out.len())
}

proof fn lemma_scan_step_in_bounds(s: Seq<char>, i: int, st: SnippetScan)
    requires
        0 <= i < s.len(),
        scan_in_bounds(st),
    ensures
        scan_in_bounds(scan_step(s, i, st).1),
        st.out.len() <= scan_step(s, i, st).1.out.len(),
{
}

proof fn lemma_scan_from_in_bounds(s: Seq<char>, i: int, st: SnippetScan)
    requires
        scan_in_bounds(st),
    ensures
        scan_in_bounds(scan_from(s, i, st)),
    decreases s.len() - i,
{
    if 0 <= i < s.len() {
        lemma_scan_step_in_bounds(s, i, st);
        let (j, st2) = scan_step(s, i, st);
        if i < j <= s.len() {
            lemma_scan_from_in_bounds(s, j, st2);
        }
    }
}

/// Law: an expanded snippet's cursor lies within its text, and a selection runs
/// forward within the text and puts the cursor at its end.
pub proof fn law_snippet_positions_within_text(s: Seq<char>)
    ensures
        ({
            let (text, cursor, selection) = expansion_of(scan_snippet(s));
            &&& cursor matches Some(c) ==> c <= text.len()
            &&& selection matches Some((a, b)) ==> a <= b <= text.len() && cursor == Some(b)
        }),
{
    lemma_scan_from_in_bounds(
        s,
        0,
        SnippetScan { out: Seq::empty(), best_placeholder: None, best_tabstop: None, final_cursor: None },
    );
}

/// Snippet text with no syntax in it: no `$`, no backslash and no ASCII digit.
pub open spec fn plain_snippet_text(p: Seq<char>) -> bool {
    forall|i: int| 0 <= i < p.len() ==> #[trigger] p[i] != '$' && p[i] != '\\' && !('0' <= p[i] <= '9')
}

proof fn lemma_scan_plain(s: Seq<char>, i: int, st: SnippetScan, p: Seq<char>)
    requires
        0 <= i,
        i + p.len() <= s.len(),
        s.subrange(i, i + p.len()) == p,
        plain_snippet_text(p),
    ensures
        scan_from(s, i, st) == scan_from(s, i + p.len(), SnippetScan { out: st.out + p, ..st }),
    decreases p.len(),
{
    if p.len() == 0 {
        assert(st.out + p =~= st.out);
    } else {
        assert(s[i] == s.subrange(i, i + p.len())[0]);
        assert(s[i] == p[0]);
        let st2 = with_char(st, p[0]);
        assert(scan_step(s, i, st) == (i + 1, st2));
        assert(s.subrange(i + 1, i + 1 + p.drop_first().len()) =~= p.drop_first());
        assert forall|k: int| 0 <= k < p.drop_first().len() implies #[trigger] p.drop_first()[k] != '$'
            && p.drop_first()[k] != '\\' && !('0' <= p.drop_first()[k] <= '9') by {
            assert(p.drop_first()[k] == p[k + 1]);
        }
        lemma_scan_plain(s, i + 1, st2, p.drop_first());
        assert(st2.out + p.drop_first() =~= st.out + p);
    }
}

proof fn lemma_scan_tabstop(s: Seq<char>, i: int, st: SnippetScan, d: char)
    requires
        0 <= i,
        i + 2 <= s.len(),
        s[i] == '$',
        s[i + 1] == d,
        '0' <= d <= '9',
        i + 2 < s.len() ==> !('0' <= s[i + 2] <= '9'),
    ensures
        scan_from(s, i, st) == scan_from(s, i + 2, with_tabstop(st, ((d as u32) - 48) as u32)),
{
    assert(digit_end(s, i + 2) == i + 2);
    assert(digit_end(s, i + 1) == i + 2);
    let ds = s.subrange(i + 1, i + 2);
    assert(ds =~= seq![d]);
    assert(ds.drop_last() =~= Seq::<char>::empty());
    assert(sat_digits(ds.drop_last()) == 0);
    assert(sat_digits(ds) == ((d as u32) - 48) as u32);
    assert(scan_step(s, i, st) == (i + 2, with_tabstop(st, ((d as u32) - 48) as u32)));
}

/// The cursor of an expanded snippet goes to the tab stop with the lowest positive
/// index, the first such one where two share it, and only without one to the last
/// final tab stop `$0`: in `a$xb$yc` (plain text `a`, `b`, `c`, single-digit indices
/// `x`, `y`) it lands after `ab` when `x` is 0, or when `y` is positive and lower
/// than `x`, and after `a` otherwise. The text is `abc` and nothing is selected.
pub proof fn law_cursor_goes_to_the_lowest_tab_stop(p0: Seq<char>, p1: Seq<char>, p2: Seq<char>, x: char, y: char)
    requires
        plain_snippet_text(p0),
        plain_snippet_text(p1),
        plain_snippet_text(p2),
        '0' <= x <= '9',
        '0' <= y <= '9',
    ensures
        ({
            let (text, cursor, selection) = expansion_of(scan_snippet(p0 + seq!['$', x] + p1 + seq!['$', y] + p2));
            &&& text == p0 + p1 + p2
            &&& selection is None
            &&& cursor == Some(
                if x == '0' || (y != '0' && y < x) {
                    (p0.len() + p1.len()) as nat
                } else {
                    p0.len() as nat
                },
            )
        }),
{
    let s = p0 + seq!['$', x] + p1 + seq!['$', y] + p2;
    let n0 = p0.len() as int;
    let n1 = p1.len() as int;
    let n2 = p2.len() as int;
    let i1 = n0 + 2;
    let i2 = i1 + n1;
    let i3 = i2 + 2;
    assert(s.len() == i3 + n2);
    assert(s.subrange(0, n0) =~= p0);
    assert(s[n0] == '$' && s[n0 + 1] == x);
    assert(s.subrange(i1, i2) =~= p1);
    assert(s[i2] == '$' && s[i2 + 1] == y);
    assert(s.subrange(i3, i3 + n2) =~= p2);
    if n1 > 0 {
        assert(s[i1] == p1[0]);
    }
    if n2 > 0 {
        assert(s[i3] == p2[0]);
    }
    let st0 = SnippetScan { out: Seq::empty(), best_placeholder: None, best_tabstop: None, final_cursor: None };
    lemma_scan_plain(s, 0, st0, p0);
    let st1 = SnippetScan { out: st0.out + p0, ..st0 };
    assert(st1.out =~= p0);
    lemma_scan_tabstop(s, n0, st1, x);
    let st2 = with_tabstop(st1, ((x as u32) - 48) as u32);
    lemma_scan_plain(s, i1, st2, p1);
    let st3 = SnippetScan { out: st2.out + p1, ..st2 };
    lemma_scan_tabstop(s, i2, st3, y);
    let st4 = with_tabstop(st3, ((y as u32) - 48) as u32);
    lemma_scan_plain(s, i3, st4, p2);
    let st5 = SnippetScan { out: st4.out + p2, ..st4 };
    assert(scan_from(s, i3 + n2, st5) == st5);
    assert(st5.out =~= p0 + p1 + p2);
}


/// Text with no `{` or `}` in it.
pub open spec fn brace_free(t: Seq<char>) -> bool {
    forall|i: int| 0 <= i < t.len() ==> #[trigger] t[i] != '{' && t[i] != '}'
}

proof fn lemma_brace_end_free(s: Seq<char>, j: int, t: Seq<char>)
    requires
        0 <= j,
        j + t.len() < s.len(),
        s.subrange(j, j + t.len()) == t,
        brace_free(t),
        s[j + t.len()] == '}',
    ensures
        brace_end(s, j, 0) == j + t.len(),
    decreases t.len(),
{
    if t.len() > 0 {
        assert(s[j] == s.subrange(j, j + t.len())[0]);
        assert(s.subrange(j + 1, j + 1 + t.drop_first().len()) =~= t.drop_first());
        assert forall|k: int| 0 <= k < t.drop_first().len() implies #[trigger] t.drop_first()[k] != '{'
            && t.drop_first()[k] != '}' by {
            assert(t.drop_first()[k] == t[k + 1]);
        }
        lemma_brace_end_free(s, j + 1, t.drop_first());
    }
}

proof fn lemma_scan_placeholder(s: Seq<char>, i: int, st: SnippetScan, d: char, t: Seq<char>)
    requires
        0 <= i,
        i + 5 + t.len() <= s.len(),
        s[i] == '$',
        s[i + 1] == '{',
        s[i + 2] == d,
        '1' <= d <= '9',
        s[i + 3] == ':',
        s.subrange(i + 4, i + 4 + t.len()) == t,
        s[i + 4 + t.len()] == '}',
        brace_free(t),
        t.len() > 0,
    ensures
        ({
            let index = ((d as u32) - 48) as u32;
            let replace = !(st.best_placeholder matches Some(b) && !(index < b.0));
            scan_from(s, i, st) == scan_from(
                s,
                i + 5 + t.len(),
                SnippetScan {
                    out: st.out + t,
                    best_placeholder: if replace {
                        Some((index, st.out.len(), st.out.len() + t.len()))
                    } else {
                        st.best_placeholder
                    },
                    ..st
                },
            )
        }),
{
    let content = s.subrange(i + 2, i + 4 + t.len());
    assert(content[0] == d && content[1] == ':');
    assert(content.subrange(2, 2 + t.len() as int) =~= t);
    let rest = content.skip(1);
    assert(rest[0] == ':');
    assert(rest.skip(1) =~= t);
    assert(find_first(rest, ':') == Some(0nat));
    assert(placeholder_text(rest) == (t, true));
    assert(digit_end(content, 1) == 1);
    assert(digit_end(content, 0) == 1);
    assert(content.take(1) =~= seq![d]);
    assert(content.take(1).drop_last() =~= Seq::<char>::empty());
    assert(digits_value(Seq::<char>::empty()) == 0);
    assert(content.take(1).last() == d);
    assert(digits_value(content.take(1)) == (d as u32) - 48);
    assert(s.subrange(i + 4, i + 4 + t.len()) == t);
    lemma_brace_end_free(s, i + 4, t);
    assert(s.subrange(i + 2, brace_end(s, i + 2, 0)) =~= content) by {
        assert(brace_end(s, i + 2, 0) == brace_end(s, i + 3, 0));
        assert(brace_end(s, i + 3, 0) == brace_end(s, i + 4, 0));
    }
    assert(scan_step(s, i, st).0 == i + 5 + t.len());
}

/// The first placeholder with the lowest positive index is selected, with the cursor
/// at its end: in `a${x:t}b${y:u}c` (plain text `a`, `b`, `c`, single-digit positive
/// indices `x`, `y`, non-empty defaults `t`, `u` without braces) the text is `atbuc`,
/// and `u` is selected when `y` is lower than `x`, else `t`.
pub proof fn law_lowest_placeholder_is_selected(
    p0: Seq<char>,
    p1: Seq<char>,
    p2: Seq<char>,
    x: char,
    t: Seq<char>,
    y: char,
    u: Seq<char>,
)
    requires
        plain_snippet_text(p0),
        plain_snippet_text(p1),
        plain_snippet_text(p2),
        '1' <= x <= '9',
        '1' <= y <= '9',
        brace_free(t),
        brace_free(u),
        t.len() > 0,
        u.len() > 0,
    ensures
        ({
            let s = p0 + seq!['$', '{', x, ':'] + t + seq!['}'] + p1 + seq!['$', '{', y, ':'] + u + seq!['}'] + p2;
            let (text, cursor, selection) = expansion_of(scan_snippet(s));
            let a = p0.len();
            let b = (p0.len() + t.len() + p1.len()) as nat;
            &&& text == p0 + t + p1 + u + p2
            &&& selection == if y < x {
                Some((b, (b + u.len()) as nat))
            } else {
                Some((a, (a + t.len()) as nat))
            }
            &&& selection matches Some((_, e)) && cursor == Some(e)
        }),
{
    let s = p0 + seq!['$', '{', x, ':'] + t + seq!['}'] + p1 + seq!['$', '{', y, ':'] + u + seq!['}'] + p2;
    let n0 = p0.len() as int;
    let i1 = n0 + 5 + t.len();
    let i2 = i1 + p1.len();
    let i3 = i2 + 5 + u.len();
    assert(s.len() == i3 + p2.len());
    assert(s.subrange(0, n0) =~= p0);
    assert(s[n0] == '$' && s[n0 + 1] == '{' && s[n0 + 2] == x && s[n0 + 3] == ':');
    assert(s.subrange(n0 + 4, n0 + 4 + t.len()) =~= t);
    assert(s[n0 + 4 + t.len()] == '}');
    assert(s.subrange(i1, i2) =~= p1);
    assert(s[i2] == '$' && s[i2 + 1] == '{' && s[i2 + 2] == y && s[i2 + 3] == ':');
    assert(s.subrange(i2 + 4, i2 + 4 + u.len()) =~= u);
    assert(s[i2 + 4 + u.len()] == '}');
    assert(s.subrange(i3, i3 + p2.len()) =~= p2);
    let st0 = SnippetScan { out: Seq::empty(), best_placeholder: None, best_tabstop: None, final_cursor: None };
    lemma_scan_plain(s, 0, st0, p0);
    let st1 = SnippetScan { out: st0.out + p0, ..st0 };
    assert(st1.out =~= p0);
    lemma_scan_placeholder(s, n0, st1, x, t);
    let xi = ((x as u32) - 48) as u32;
    let st2 = SnippetScan {
        out: st1.out + t,
        best_placeholder: Some((xi, st1.out.len(), st1.out.len() + t.len())),
        ..st1
    };
    lemma_scan_plain(s, i1, st2, p1);
    let st3 = SnippetScan { out: st2.out + p1, ..st2 };
    lemma_scan_placeholder(s, i2, st3, y, u);
    let yi = ((y as u32) - 48) as u32;
    let st4 = SnippetScan {
        out: st3.out + u,
        best_placeholder: if yi < xi {
            Some((yi, st3.out.len(), st3.out.len() + u.len()))
        } else {
            st3.best_placeholder
        },
        ..st3
    };
    lemma_scan_plain(s, i3, st4, p2);
    let st5 = SnippetScan { out: st4.out + p2, ..st4 };
    assert(scan_from(s, i3 + p2.len(), st5) == st5);
    assert(st5.out =~= p0 + t + p1 + u + p2);
}


/// A backslash inserts the char after it as text, whatever it is: `a\$1b` (plain `a`,
/// `b`) expands to `a$1b` with no cursor and no selection.
pub proof fn law_escaped_char_is_text(p0: Seq<char>, c: char, p1: Seq<char>)
    requires
        plain_snippet_text(p0),
        plain_snippet_text(p1),
    ensures
        expansion_of(scan_snippet(p0 + seq!['\\', c] + p1)) == (p0 + seq![c] + p1, None::<nat>, None::<(nat, nat)>),
{
    let s = p0 + seq!['\\', c] + p1;
    let n0 = p0.len() as int;
    assert(s.subrange(0, n0) =~= p0);
    assert(s[n0] == '\\' && s[n0 + 1] == c);
    assert(s.subrange(n0 + 2, n0 + 2 + p1.len()) =~= p1);
    let st0 = SnippetScan { out: Seq::empty(), best_placeholder: None, best_tabstop: None, final_cursor: None };
    lemma_scan_plain(s, 0, st0, p0);
    let st1 = SnippetScan { out: st0.out + p0, ..st0 };
    assert(scan_step(s, n0, st1) == (n0 + 2, with_char(st1, c)));
    let st2 = with_char(st1, c);
    lemma_scan_plain(s, n0 + 2, st2, p1);
    let st3 = SnippetScan { out: st2.out + p1, ..st2 };
    assert(scan_from(s, s.len() as int, st3) == st3);
    assert(st3.out =~= p0 + seq![c] + p1);
}


} // verus!
