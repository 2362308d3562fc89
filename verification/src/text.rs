//! Character-level text helpers shared by the parsers of this crate.
//!
//! Every helper has a specification-level twin, so that the parsers built on
//! top of them can state their behaviour directly over sequences of
//! characters.

use vstd::prelude::*;

verus! {

/// The whitespace characters this crate trims: the ASCII whitespace set.
pub open spec fn is_ws_char(c: char) -> bool {
    c == ' ' || c == '\t' || c == '\n' || c == '\r' || c == '\u{b}' || c == '\u{c}'
}

/// An ASCII decimal digit.
pub open spec fn is_digit_char(c: char) -> bool {
    '0' <= c && c <= '9'
}

/// `s` without its leading whitespace.
pub open spec fn spec_trim_start(s: Seq<char>) -> Seq<char>
    decreases s.len(),
{
    if s.len() == 0 {
        s
    } else if is_ws_char(s[0]) {
        spec_trim_start(s.skip(1))
    } else {
        s
    }
}

/// `s` without its trailing whitespace.
pub open spec fn spec_trim_end(s: Seq<char>) -> Seq<char>
    decreases s.len(),
{
    if s.len() == 0 {
        s
    } else if is_ws_char(s[s.len() - 1]) {
        spec_trim_end(s.take(s.len() - 1))
    } else {
        s
    }
}

/// `s` without leading and trailing whitespace.
pub open spec fn spec_trim(s: Seq<char>) -> Seq<char> {
    spec_trim_end(spec_trim_start(s))
}

/// The index of the first occurrence of `c` in `s` at or after `i`.
pub open spec fn spec_find_char_from(s: Seq<char>, i: int, c: char) -> Option<int>
    decreases s.len() - i,
{
    if i < 0 || i >= s.len() {
        None
    } else if s[i] == c {
        Some(i)
    } else {
        spec_find_char_from(s, i + 1, c)
    }
}

/// `pat` occurs in `s` starting at index `i`.
pub open spec fn spec_match_at(s: Seq<char>, pat: Seq<char>, i: int) -> bool {
    0 <= i && i + pat.len() <= s.len() && s.subrange(i, i + pat.len() as int) == pat
}

/// The index of the first occurrence of `pat` in `s` at or after `i`.
pub open spec fn spec_find_sub_from(s: Seq<char>, pat: Seq<char>, i: int) -> Option<int>
    decreases s.len() - i,
{
    if i < 0 || i + pat.len() > s.len() {
        None
    } else if spec_match_at(s, pat, i) {
        Some(i)
    } else if i < s.len() {
        spec_find_sub_from(s, pat, i + 1)
    } else {
        None
    }
}

/// The index of the first whitespace character in `s` at or after `i`.
pub open spec fn spec_find_ws_from(s: Seq<char>, i: int) -> Option<int>
    decreases s.len() - i,
{
    if i < 0 || i >= s.len() {
        None
    } else if is_ws_char(s[i]) {
        Some(i)
    } else {
        spec_find_ws_from(s, i + 1)
    }
}

/// Trimming leading whitespace never lengthens a sequence.
pub proof fn lemma_trim_start_le(s: Seq<char>)
    ensures
        spec_trim_start(s).len() <= s.len(),
    decreases s.len(),
{
    if s.len() > 0 && is_ws_char(s[0]) {
        lemma_trim_start_le(s.skip(1));
    }
}

/// What is left after trimming leading whitespace starts with none.
pub proof fn lemma_trim_start_first(s: Seq<char>)
    ensures
        spec_trim_start(s).len() > 0 ==> !is_ws_char(spec_trim_start(s)[0]),
    decreases s.len(),
{
    if s.len() > 0 && is_ws_char(s[0]) {
        lemma_trim_start_first(s.skip(1));
    }
}

/// When `spec_find_ws_from` finds an index, it is in range, holds
/// whitespace, and nothing before it (from the start point) does.
pub proof fn lemma_find_ws_from_props(s: Seq<char>, i: int)
    requires
        0 <= i,
    ensures
        spec_find_ws_from(s, i) matches Some(j) ==> i <= j < s.len() && is_ws_char(s[j]),
    decreases s.len() - i,
{
    if i < s.len() && !is_ws_char(s[i]) {
        lemma_find_ws_from_props(s, i + 1);
    }
}

/// Searching for whitespace from `base + i` in `s` is searching from `i` in
/// `s` with its first `base` characters dropped.
pub proof fn lemma_find_ws_skip(s: Seq<char>, base: int, i: int)
    requires
        0 <= base <= s.len(),
        0 <= i,
    ensures
        match spec_find_ws_from(s.skip(base), i) {
            Some(j) => spec_find_ws_from(s, base + i) == Some(j + base),
            None => spec_find_ws_from(s, base + i) is None,
        },
    decreases s.len() - base - i,
{
    if i < s.skip(base).len() {
        assert(s.skip(base)[i] == s[base + i]);
        if !is_ws_char(s[base + i]) {
            lemma_find_ws_skip(s, base, i + 1);
        }
    }
}

/// The whitespace-separated tokens of `s`, in order.
pub open spec fn spec_tokens(s: Seq<char>) -> Seq<Seq<char>>
    decreases s.len(),
    via spec_tokens_decreases
{
    let t = spec_trim_start(s);
    if t.len() == 0 {
        Seq::<Seq<char>>::empty()
    } else if spec_find_ws_from(t, 0) is Some {
        let i = spec_find_ws_from(t, 0)->Some_0;
        seq![t.take(i)] + spec_tokens(t.skip(i))
    } else {
        seq![t]
    }
}

#[via_fn]
proof fn spec_tokens_decreases(s: Seq<char>) {
    let t = spec_trim_start(s);
    lemma_trim_start_le(s);
    lemma_trim_start_first(s);
    lemma_find_ws_from_props(t, 0);
}

/// The first whitespace character in `s` at or after `from`.
pub fn find_ws_from(s: &str, from: usize) -> (r: Option<usize>)
    requires
        from <= s@.len(),
    ensures
        match r {
            Some(j) => from <= j < s@.len() && spec_find_ws_from(s@, from as int) == Some(j as int),
            None => spec_find_ws_from(s@, from as int) is None,
        },
{
    let n = s.unicode_len();
    let mut i: usize = from;
    while i < n
        invariant
            n == s@.len(),
            from <= i <= n,
            spec_find_ws_from(s@, from as int) == spec_find_ws_from(s@, i as int),
        decreases n - i,
    {
        if is_ws(s.get_char(i)) {
            return Some(i);
        }
        i += 1;
    }
    None
}

/// Splits `s` into its whitespace-separated tokens, as `spec_tokens` says.
pub fn split_tokens(s: &str) -> (r: Vec<String>)
    ensures
        r.deep_view() == spec_tokens(s@),
{
    let n = s.unicode_len();
    let mut r: Vec<String> = Vec::new();
    let mut pos: usize = 0;
    proof {
        assert(s@.skip(0) =~= s@);
    }
    while pos < n
        invariant
            n == s@.len(),
            0 <= pos <= n,
            spec_tokens(s@) == r.deep_view() + spec_tokens(s@.skip(pos as int)),
        decreases n - pos,
    {
        let ghost rest = s@.skip(pos as int);
        let ghost old_r = r.deep_view();
        if is_ws(s.get_char(pos)) {
            proof {
                assert(rest[0] == s@[pos as int]);
                assert(rest.skip(1) =~= s@.skip(pos as int + 1));
                assert(spec_trim_start(rest) == spec_trim_start(s@.skip(pos as int + 1)));
            }
            pos += 1;
        } else {
            proof {
                assert(rest[0] == s@[pos as int]);
                assert(spec_trim_start(rest) == rest);
                lemma_find_ws_skip(s@, pos as int, 0);
            }
            match find_ws_from(s, pos) {
                Some(j) => {
                    let tok = s.substring_char(pos, j);
                    r.push(tok.to_owned());
                    proof {
                        let k = j - pos;
                        assert(spec_find_ws_from(rest, 0) == Some(k as int));
                        assert(rest.take(k as int) =~= s@.subrange(pos as int, j as int));
                        assert(rest.skip(k as int) =~= s@.skip(j as int));
                        assert(r.deep_view() =~= old_r.push(tok@));
                        assert(spec_tokens(rest) == seq![rest.take(k as int)] + spec_tokens(
                            rest.skip(k as int),
                        ));
                        assert(spec_tokens(s@) == r.deep_view() + spec_tokens(s@.skip(j as int)));
                    }
                    pos = j;
                },
                None => {
                    let tok = s.substring_char(pos, n);
                    r.push(tok.to_owned());
                    proof {
                        assert(rest =~= s@.subrange(pos as int, n as int));
                        assert(spec_tokens(rest) == seq![rest]);
                        assert(r.deep_view() =~= old_r.push(tok@));
                        assert(s@.skip(n as int).len() == 0);
                        assert(spec_trim_start(s@.skip(n as int)).len() == 0);
                        assert(spec_tokens(s@) == r.deep_view() + spec_tokens(s@.skip(n as int)));
                    }
                    pos = n;
                },
            }
        }
    }
    proof {
        assert(s@.skip(pos as int).len() == 0);
        assert(spec_trim_start(s@.skip(pos as int)).len() == 0);
        assert(r.deep_view() + spec_tokens(s@.skip(pos as int)) =~= r.deep_view());
    }
    r
}

/// The lines joined with single newlines, with none at the end.
pub open spec fn spec_join_lines(ls: Seq<Seq<char>>) -> Seq<char>
    decreases ls.len(),
{
    if ls.len() == 0 {
        Seq::<char>::empty()
    } else if ls.len() == 1 {
        ls[0]
    } else {
        spec_join_lines(ls.drop_last()) + seq!['\n'] + ls.last()
    }
}

/// Joins lines with single newlines, as `spec_join_lines` says.
pub fn join_lines(lines: &Vec<String>) -> (r: String)
    ensures
        r@ == spec_join_lines(lines.deep_view()),
{
    let ghost lv = lines.deep_view();
    let mut s = String::new();
    let mut i: usize = 0;
    while i < lines.len()
        invariant
            lv == lines.deep_view(),
            lines@.len() == lv.len(),
            0 <= i <= lv.len(),
            s@ == spec_join_lines(lv.take(i as int)),
        decreases lv.len() - i,
    {
        proof {
            assert(lv[i as int] == lines@[i as int]@);
            assert(lv.take(i as int + 1).drop_last() =~= lv.take(i as int));
            assert(lv.take(i as int + 1).last() == lv[i as int]);
        }
        if i > 0 {
            s.append("\n");
            proof {
                reveal_strlit("\n");
                assert("\n"@ =~= seq!['\n']);
            }
        } else {
            proof {
                assert(lv.take(1).len() == 1);
            }
        }
        s.append(lines[i].as_str());
        i += 1;
    }
    proof {
        assert(lv.take(lv.len() as int) =~= lv);
    }
    s
}

/// Every character of `s` is a decimal digit.
pub open spec fn all_digit_chars(s: Seq<char>) -> bool {
    forall|i: int| 0 <= i < s.len() ==> is_digit_char(#[trigger] s[i])
}

/// How an unsigned decimal integer is read from a whole string: an optional
/// leading plus sign, then at least one digit and nothing else; absent when
/// the form is wrong or the value exceeds the given bound.
pub open spec fn spec_parse_unsigned(s: Seq<char>, bound: int) -> Option<int> {
    let ds = if s.len() > 0 && s[0] == '+' {
        s.skip(1)
    } else {
        s
    };
    if ds.len() == 0 {
        None
    } else if !all_digit_chars(ds) {
        None
    } else if spec_digits_val(ds) > bound {
        None
    } else {
        Some(spec_digits_val(ds))
    }
}

/// Parses a whole string as a `u64`, as `spec_parse_unsigned` says.
pub fn parse_u64_full(s: &str) -> (r: Option<u64>)
    ensures
        match r {
            Some(v) => spec_parse_unsigned(s@, u64::MAX as int) == Some(v as int),
            None => spec_parse_unsigned(s@, u64::MAX as int) is None,
        },
{
    let n = s.unicode_len();
    let start: usize = if n > 0 && s.get_char(0) == '+' {
        1
    } else {
        0
    };
    let ghost ds = if s@.len() > 0 && s@[0] == '+' {
        s@.skip(1)
    } else {
        s@
    };
    proof {
        if start == 0 {
            assert(ds =~= s@.skip(0));
        }
        assert(ds =~= s@.skip(start as int));
    }
    if n == start {
        return None;
    }
    let mut acc: u64 = 0;
    let mut i: usize = start;
    while i < n
        invariant
            n == s@.len(),
            start <= i <= n,
            start < n,
            start <= 1,
            ds == s@.skip(start as int),
            ds == (if s@.len() > 0 && s@[0] == '+' {
                s@.skip(1)
            } else {
                s@
            }),
            ds.len() == n - start,
            all_digit_chars(ds.take(i - start)),
            0 <= acc,
            acc == spec_digits_val(ds.take(i - start)),
        decreases n - i,
    {
        let c = s.get_char(i);
        proof {
            let k = i - start;
            assert(ds.take(k + 1).drop_last() =~= ds.take(k as int));
            assert(ds.take(k + 1).last() == ds[k as int]);
            assert(ds[k as int] == s@[i as int]);
        }
        if !is_digit(c) {
            proof {
                assert(0 <= i - start < ds.len());
                assert(ds[i - start] == c);
                assert(!is_digit_char(ds[i - start]));
                assert(!all_digit_chars(ds));
                assert(spec_parse_unsigned(s@, u64::MAX as int) is None);
            }
            return None;
        }
        let d: u64 = (c as u32 as u64) - 48;
        if acc > (u64::MAX - d) / 10 {
            proof {
                let k = i - start;
                assert(acc * 10 + d > u64::MAX) by (nonlinear_arith)
                    requires
                        acc > (u64::MAX - d) / 10,
                        0 <= d < 10,
                        acc >= 0,
                ;
                assert(spec_digits_val(ds.take(k + 1)) > u64::MAX);
                if all_digit_chars(ds) {
                    lemma_digits_val_take_le(ds, k + 1);
                    assert(spec_digits_val(ds) > u64::MAX);
                }
                assert(spec_parse_unsigned(s@, u64::MAX as int) is None);
            }
            return None;
        }
        proof {
            assert(acc * 10 + d <= u64::MAX) by (nonlinear_arith)
                requires
                    acc <= (u64::MAX - d) / 10,
                    0 <= d < 10,
                    acc >= 0,
            ;
        }
        acc = acc * 10 + d;
        i += 1;
    }
    proof {
        assert(ds.take(n - start) =~= ds);
    }
    Some(acc)
}

/// The run of consecutive decimal digits in `s` starting exactly at `i`;
/// empty when `i` is out of range or holds no digit.
pub open spec fn spec_run_at(s: Seq<char>, i: int) -> Seq<char>
    decreases s.len() - i,
{
    if i < 0 || i >= s.len() || !is_digit_char(s[i]) {
        Seq::<char>::empty()
    } else {
        seq![s[i]] + spec_run_at(s, i + 1)
    }
}

/// The first run of consecutive decimal digits in `s` at or after `i`:
/// from the first digit up to the next non-digit.
pub open spec fn spec_digit_run_from(s: Seq<char>, i: int) -> Seq<char>
    decreases s.len() - i,
{
    if i < 0 || i >= s.len() {
        Seq::<char>::empty()
    } else if is_digit_char(s[i]) {
        spec_run_at(s, i)
    } else {
        spec_digit_run_from(s, i + 1)
    }
}

/// The numeric value of one digit character.
pub open spec fn spec_digit_val(c: char) -> int {
    c as int - '0' as int
}

/// The value of a sequence of decimal digits read most-significant first.
pub open spec fn spec_digits_val(ds: Seq<char>) -> int
    decreases ds.len(),
{
    if ds.len() == 0 {
        0
    } else {
        spec_digits_val(ds.drop_last()) * 10 + spec_digit_val(ds.last())
    }
}

/// A line with one trailing carriage return removed.
pub open spec fn spec_strip_cr(l: Seq<char>) -> Seq<char> {
    if l.len() > 0 && l.last() == '\r' {
        l.drop_last()
    } else {
        l
    }
}

/// The lines of `s`: maximal runs split at each newline, a carriage return
/// directly before a newline dropped, and no empty line after a final
/// newline.
pub open spec fn spec_split_lines(s: Seq<char>) -> Seq<Seq<char>>
    decreases s.len(),
    via spec_split_lines_decreases
{
    if s.len() == 0 {
        Seq::<Seq<char>>::empty()
    } else if spec_find_char_from(s, 0, '\n') is Some {
        let i = spec_find_char_from(s, 0, '\n')->Some_0;
        seq![spec_strip_cr(s.take(i))] + spec_split_lines(s.skip(i + 1))
    } else {
        seq![s]
    }
}

#[via_fn]
proof fn spec_split_lines_decreases(s: Seq<char>) {
    lemma_find_char_from_props(s, 0, '\n');
}

/// When `spec_find_char_from` finds an index, that index is in range and
/// holds the character.
pub proof fn lemma_find_char_from_props(s: Seq<char>, i: int, c: char)
    requires
        0 <= i,
    ensures
        spec_find_char_from(s, i, c) matches Some(j) ==> i <= j < s.len() && s[j] == c,
    decreases s.len() - i,
{
    if i < s.len() && s[i] != c {
        lemma_find_char_from_props(s, i + 1, c);
    }
}

/// Searching from `base + i` in `s` is searching from `i` in `s` with its
/// first `base` characters dropped.
pub proof fn lemma_find_char_skip(s: Seq<char>, base: int, i: int, c: char)
    requires
        0 <= base <= s.len(),
        0 <= i,
    ensures
        match spec_find_char_from(s.skip(base), i, c) {
            Some(j) => spec_find_char_from(s, base + i, c) == Some(j + base),
            None => spec_find_char_from(s, base + i, c) is None,
        },
    decreases s.len() - base - i,
{
    if i < s.skip(base).len() {
        assert(s.skip(base)[i] == s[base + i]);
        if s[base + i] != c {
            lemma_find_char_skip(s, base, i + 1, c);
        }
    }
}

/// Whether the character is whitespace in this crate's sense.
pub fn is_ws(c: char) -> (r: bool)
    ensures
        r == is_ws_char(c),
{
    c == ' ' || c == '\t' || c == '\n' || c == '\r' || c == '\u{b}' || c == '\u{c}'
}

/// Whether the character is an ASCII decimal digit.
pub fn is_digit(c: char) -> (r: bool)
    ensures
        r == is_digit_char(c),
{
    '0' <= c && c <= '9'
}

/// `s` with leading and trailing whitespace removed.
pub fn trim_str<'a>(s: &'a str) -> (r: &'a str)
    ensures
        r@ == spec_trim(s@),
{
    let n = s.unicode_len();
    proof {
        assert(s@.skip(0) =~= s@);
    }
    let mut a: usize = 0;
    while a < n && is_ws(s.get_char(a))
        invariant
            n == s@.len(),
            0 <= a <= n,
            spec_trim_start(s@) == spec_trim_start(s@.skip(a as int)),
        decreases n - a,
    {
        proof {
            assert(s@.skip(a as int).skip(1) =~= s@.skip(a as int + 1));
        }
        a += 1;
    }
    proof {
        assert(spec_trim_start(s@) == s@.skip(a as int));
    }
    let mut b: usize = n;
    while b > a && is_ws(s.get_char(b - 1))
        invariant
            n == s@.len(),
            a <= b <= n,
            spec_trim_end(s@.skip(a as int)) == spec_trim_end(s@.subrange(a as int, b as int)),
        decreases b,
    {
        proof {
            assert(s@.subrange(a as int, b as int).take(b - a - 1) =~= s@.subrange(
                a as int,
                b as int - 1,
            ));
        }
        b -= 1;
    }
    proof {
        assert(spec_trim_end(s@.subrange(a as int, b as int)) == s@.subrange(a as int, b as int));
    }
    s.substring_char(a, b)
}

/// Whether two string slices hold the same characters.
pub fn str_eq(a: &str, b: &str) -> (r: bool)
    ensures
        r == (a@ == b@),
{
    let n = a.unicode_len();
    if n != b.unicode_len() {
        return false;
    }
    let mut i: usize = 0;
    while i < n
        invariant
            n == a@.len(),
            n == b@.len(),
            0 <= i <= n,
            forall|j: int| 0 <= j < i ==> a@[j] == b@[j],
        decreases n - i,
    {
        if a.get_char(i) != b.get_char(i) {
            return false;
        }
        i += 1;
    }
    proof {
        assert(a@ =~= b@);
    }
    true
}

/// The first occurrence of `c` in `s` at or after `from`.
pub fn find_char_from(s: &str, from: usize, c: char) -> (r: Option<usize>)
    requires
        from <= s@.len(),
    ensures
        match r {
            Some(j) => from <= j < s@.len() && spec_find_char_from(s@, from as int, c) == Some(
                j as int,
            ),
            None => spec_find_char_from(s@, from as int, c) is None,
        },
{
    let n = s.unicode_len();
    let mut i: usize = from;
    while i < n
        invariant
            n == s@.len(),
            from <= i <= n,
            spec_find_char_from(s@, from as int, c) == spec_find_char_from(s@, i as int, c),
        decreases n - i,
    {
        if s.get_char(i) == c {
            return Some(i);
        }
        i += 1;
    }
    None
}

/// Whether `pat` occurs in `s` starting exactly at `i`.
pub fn match_at(s: &str, pat: &str, i: usize) -> (r: bool)
    requires
        i <= s@.len(),
    ensures
        r == spec_match_at(s@, pat@, i as int),
{
    let n = s.unicode_len();
    let m = pat.unicode_len();
    if m > n - i {
        return false;
    }
    let mut j: usize = 0;
    while j < m
        invariant
            n == s@.len(),
            m == pat@.len(),
            i + m <= n,
            0 <= j <= m,
            forall|k: int| 0 <= k < j ==> s@[i + k] == pat@[k],
        decreases m - j,
    {
        if s.get_char(i + j) != pat.get_char(j) {
            proof {
                assert(s@.subrange(i as int, i + pat@.len() as int)[j as int] == s@[i + j]);
            }
            return false;
        }
        j += 1;
    }
    proof {
        assert(s@.subrange(i as int, i + pat@.len() as int) =~= pat@);
    }
    true
}

/// The first occurrence of `pat` in `s` at or after `from`.
pub fn find_sub_from(s: &str, pat: &str, from: usize) -> (r: Option<usize>)
    requires
        from <= s@.len(),
    ensures
        match r {
            Some(j) => from <= j && j + pat@.len() <= s@.len() && spec_find_sub_from(
                s@,
                pat@,
                from as int,
            ) == Some(j as int),
            None => spec_find_sub_from(s@, pat@, from as int) is None,
        },
{
    let n = s.unicode_len();
    let m = pat.unicode_len();
    if m == 0 {
        proof {
            assert(s@.subrange(from as int, from as int) =~= pat@);
        }
        return Some(from);
    }
    if m > n - from {
        return None;
    }
    let mut i: usize = from;
    while i <= n - m
        invariant
            n == s@.len(),
            m == pat@.len(),
            1 <= m <= n,
            from <= i <= n - m + 1,
            spec_find_sub_from(s@, pat@, from as int) == spec_find_sub_from(s@, pat@, i as int),
        decreases n - m - i + 1,
    {
        if match_at(s, pat, i) {
            return Some(i);
        }
        i += 1;
    }
    None
}

/// Splits `s` into its lines, as `spec_split_lines` describes.
pub fn split_lines(s: &str) -> (r: Vec<String>)
    ensures
        r.deep_view() == spec_split_lines(s@),
{
    let n = s.unicode_len();
    let mut r: Vec<String> = Vec::new();
    let mut start: usize = 0;
    proof {
        assert(s@.skip(0) =~= s@);
    }
    while start < n
        invariant
            n == s@.len(),
            0 <= start <= n,
            spec_split_lines(s@) == r.deep_view() + spec_split_lines(s@.skip(start as int)),
        decreases n - start,
    {
        let ghost rest = s@.skip(start as int);
        let ghost old_r = r.deep_view();
        proof {
            lemma_find_char_skip(s@, start as int, 0, '\n');
            lemma_find_char_from_props(rest, 0, '\n');
        }
        match find_char_from(s, start, '\n') {
            Some(j) => {
                let line_end = if j > start && s.get_char(j - 1) == '\r' {
                    j - 1
                } else {
                    j
                };
                let line = s.substring_char(start, line_end);
                r.push(line.to_owned());
                proof {
                    let k = j - start;
                    assert(spec_find_char_from(rest, 0, '\n') == Some(k as int));
                    assert(rest.take(k as int) =~= s@.subrange(start as int, j as int));
                    if j > start && s@[j - 1] == '\r' {
                        assert(spec_strip_cr(rest.take(k as int)) =~= s@.subrange(
                            start as int,
                            line_end as int,
                        ));
                    } else {
                        assert(spec_strip_cr(rest.take(k as int)) =~= s@.subrange(
                            start as int,
                            line_end as int,
                        ));
                    }
                    assert(rest.skip(k + 1) =~= s@.skip(j + 1));
                    assert(r.deep_view() =~= old_r.push(line@));
                    assert(spec_split_lines(rest) == seq![spec_strip_cr(rest.take(k as int))]
                        + spec_split_lines(rest.skip(k + 1)));
                    assert(spec_split_lines(s@) == r.deep_view() + spec_split_lines(
                        s@.skip(j + 1),
                    ));
                }
                start = j + 1;
            },
            None => {
                let line = s.substring_char(start, n);
                r.push(line.to_owned());
                proof {
                    assert(rest =~= s@.subrange(start as int, n as int));
                    assert(spec_split_lines(rest) == seq![rest]);
                    assert(r.deep_view() =~= old_r.push(line@));
                    assert(s@.skip(n as int).len() == 0);
                    assert(spec_split_lines(s@) == r.deep_view() + spec_split_lines(
                        s@.skip(n as int),
                    ));
                }
                start = n;
            },
        }
    }
    proof {
        assert(s@.skip(start as int).len() == 0);
        assert(r.deep_view() + spec_split_lines(s@.skip(start as int)) =~= r.deep_view());
    }
    r
}

/// The decimal digit character for `d`.
pub open spec fn spec_digit_char(d: int) -> char {
    if d == 0 {
        '0'
    } else if d == 1 {
        '1'
    } else if d == 2 {
        '2'
    } else if d == 3 {
        '3'
    } else if d == 4 {
        '4'
    } else if d == 5 {
        '5'
    } else if d == 6 {
        '6'
    } else if d == 7 {
        '7'
    } else if d == 8 {
        '8'
    } else {
        '9'
    }
}

/// The decimal rendering of a non-negative number, most significant digit
/// first, without leading zeroes (a single zero for 0).
pub open spec fn spec_nat_string(n: int) -> Seq<char>
    decreases n,
{
    if n < 10 {
        seq![spec_digit_char(n)]
    } else {
        spec_nat_string(n / 10).push(spec_digit_char(n % 10))
    }
}

/// The string slice holding one decimal digit.
fn digit_str(d: u64) -> (r: &'static str)
    requires
        d < 10,
    ensures
        r@ =~= seq![spec_digit_char(d as int)],
{
    proof {
        reveal_strlit("0");
        reveal_strlit("1");
        reveal_strlit("2");
        reveal_strlit("3");
        reveal_strlit("4");
        reveal_strlit("5");
        reveal_strlit("6");
        reveal_strlit("7");
        reveal_strlit("8");
        reveal_strlit("9");
    }
    if d == 0 {
        "0"
    } else if d == 1 {
        "1"
    } else if d == 2 {
        "2"
    } else if d == 3 {
        "3"
    } else if d == 4 {
        "4"
    } else if d == 5 {
        "5"
    } else if d == 6 {
        "6"
    } else if d == 7 {
        "7"
    } else if d == 8 {
        "8"
    } else {
        "9"
    }
}

/// Renders `n` in decimal.
pub fn u64_to_string(n: u64) -> (r: String)
    ensures
        r@ == spec_nat_string(n as int),
    decreases n,
{
    if n < 10 {
        digit_str(n).to_owned()
    } else {
        let mut s = u64_to_string(n / 10);
        s.append(digit_str(n % 10));
        proof {
            assert(s@ =~= spec_nat_string(n as int / 10).push(spec_digit_char(n as int % 10)));
        }
        s
    }
}

/// A digit string's value never goes down when more digits follow.
pub proof fn lemma_digits_val_nonneg(ds: Seq<char>)
    requires
        forall|i: int| 0 <= i < ds.len() ==> is_digit_char(#[trigger] ds[i]),
    ensures
        spec_digits_val(ds) >= 0,
    decreases ds.len(),
{
    if ds.len() > 0 {
        assert(forall|i: int|
            0 <= i < ds.drop_last().len() ==> is_digit_char(#[trigger] ds.drop_last()[i]));
        lemma_digits_val_nonneg(ds.drop_last());
    }
}

/// The value of a prefix of a digit string is at most the whole value.
pub proof fn lemma_digits_val_take_le(ds: Seq<char>, i: int)
    requires
        0 <= i <= ds.len(),
        forall|j: int| 0 <= j < ds.len() ==> is_digit_char(#[trigger] ds[j]),
    ensures
        spec_digits_val(ds.take(i)) <= spec_digits_val(ds),
    decreases ds.len() - i,
{
    if i < ds.len() {
        assert(ds.take(i + 1).drop_last() =~= ds.take(i));
        assert(forall|j: int|
            0 <= j < ds.take(i).len() ==> is_digit_char(#[trigger] ds.take(i)[j]));
        lemma_digits_val_nonneg(ds.take(i));
        assert(spec_digits_val(ds.take(i + 1)) == spec_digits_val(ds.take(i)) * 10
            + spec_digit_val(ds.take(i + 1).last()));
        lemma_digits_val_take_le(ds, i + 1);
    } else {
        assert(ds.take(i) =~= ds);
    }
}

/// The first run of decimal digits in `s` at or after `from`, as
/// `spec_digit_run_from` says.
pub fn collect_digit_run(s: &str, from: usize) -> (r: Vec<char>)
    requires
        from <= s@.len(),
    ensures
        r@ == spec_digit_run_from(s@, from as int),
        forall|i: int| 0 <= i < r@.len() ==> is_digit_char(#[trigger] r@[i]),
{
    let n = s.unicode_len();
    let mut j: usize = from;
    while j < n && !is_digit(s.get_char(j))
        invariant
            n == s@.len(),
            from <= j <= n,
            spec_digit_run_from(s@, from as int) == spec_digit_run_from(s@, j as int),
        decreases n - j,
    {
        j += 1;
    }
    let mut r: Vec<char> = Vec::new();
    proof {
        if j < n {
            assert(spec_digit_run_from(s@, j as int) == spec_run_at(s@, j as int));
        } else {
            assert(spec_run_at(s@, j as int).len() == 0);
        }
        assert(r@ + spec_run_at(s@, j as int) =~= spec_run_at(s@, j as int));
    }
    while j < n && is_digit(s.get_char(j))
        invariant
            n == s@.len(),
            from <= j <= n,
            spec_digit_run_from(s@, from as int) == r@ + spec_run_at(s@, j as int),
            forall|i: int| 0 <= i < r@.len() ==> is_digit_char(#[trigger] r@[i]),
        decreases n - j,
    {
        let c = s.get_char(j);
        let ghost old_r = r@;
        proof {
            assert(spec_run_at(s@, j as int) == seq![s@[j as int]] + spec_run_at(
                s@,
                j as int + 1,
            ));
        }
        r.push(c);
        proof {
            assert(r@ + spec_run_at(s@, j as int + 1) =~= old_r + spec_run_at(s@, j as int));
        }
        j += 1;
    }
    proof {
        assert(spec_run_at(s@, j as int).len() == 0);
        assert(r@ + spec_run_at(s@, j as int) =~= r@);
    }
    r
}

/// Parses a digit string into a non-negative 64-bit value; `None` when the
/// string is empty or its value exceeds `i64::MAX`.
pub fn parse_digits_i64(ds: &Vec<char>) -> (r: Option<i64>)
    requires
        forall|i: int| 0 <= i < ds@.len() ==> is_digit_char(#[trigger] ds@[i]),
    ensures
        match r {
            Some(v) => ds@.len() > 0 && v == spec_digits_val(ds@) && v >= 0,
            None => ds@.len() == 0 || spec_digits_val(ds@) > i64::MAX,
        },
{
    if ds.len() == 0 {
        return None;
    }
    let mut acc: i64 = 0;
    let mut i: usize = 0;
    while i < ds.len()
        invariant
            forall|j: int| 0 <= j < ds@.len() ==> is_digit_char(#[trigger] ds@[j]),
            0 <= i <= ds@.len(),
            0 <= acc,
            acc == spec_digits_val(ds@.take(i as int)),
        decreases ds@.len() - i,
    {
        let c = ds[i];
        let d: i64 = (c as u32 as i64) - 48;
        proof {
            assert(ds@.take(i as int + 1).drop_last() =~= ds@.take(i as int));
            assert(ds@.take(i as int + 1).last() == ds@[i as int]);
        }
        if acc > (i64::MAX - d) / 10 {
            proof {
                assert(acc * 10 + d > i64::MAX) by (nonlinear_arith)
                    requires
                        acc > (i64::MAX - d) / 10,
                        0 <= d < 10,
                        acc >= 0,
                ;
                assert(spec_digits_val(ds@.take(i as int + 1)) > i64::MAX);
                lemma_digits_val_take_le(ds@, i as int + 1);
            }
            return None;
        }
        proof {
            assert(acc * 10 + d <= i64::MAX) by (nonlinear_arith)
                requires
                    acc <= (i64::MAX - d) / 10,
                    0 <= d < 10,
                    acc >= 0,
            ;
        }
        acc = acc * 10 + d;
        i += 1;
    }
    proof {
        assert(ds@.take(ds@.len() as int) =~= ds@);
    }
    Some(acc)
}

} // verus!
