//! Extraction of version records from the two supported file formats.
//!
//! A version declaration is a prefix of the text of the shape
//! `<digits>.<digits>`, optionally followed by `.<digits>` (the teeny
//! component) and, after a teeny, optionally by `-p<digits>` (the patch
//! suffix). Each digit run is maximal. A `.tool-versions` file declares a
//! version on the first line that starts with `ruby ` followed by such a
//! prefix.

use vstd::prelude::*;
use vstd::string::{StrSliceExecFns, StringExecFns};
use crate::version::{spec_render, RubyVersion, VersionView};

verus! {

/// Whether the character is an ASCII decimal digit.
pub open spec fn is_digit(c: char) -> bool {
    '0' as u32 <= c as u32 && c as u32 <= '9' as u32
}

/// Whether every character of the text is an ASCII decimal digit.
pub open spec fn all_digits(s: Seq<char>) -> bool {
    forall|i: int| 0 <= i < s.len() ==> is_digit(s[i])
}

/// Whether the text is a non-empty run of ASCII decimal digits: the form
/// every stored version component has.
pub open spec fn is_num(s: Seq<char>) -> bool {
    s.len() > 0 && all_digits(s)
}

/// A record whose components all have the numeric-text form, with a
/// `patch` only beside a `teeny`: the shape of every record a successful
/// parse produces.
pub open spec fn wf_core(v: VersionView) -> bool {
    &&& is_num(v.major)
    &&& is_num(v.minor)
    &&& (v.teeny matches Some(t) ==> is_num(t))
    &&& (v.patch matches Some(p) ==> is_num(p))
    &&& (v.patch is Some ==> v.teeny is Some)
}

/// The index just past the maximal run of digits starting at `i`:
/// the first position at or after `i` that is out of range or holds a
/// non-digit.
pub open spec fn digit_run_end(s: Seq<char>, i: int) -> int
    decreases s.len() - i,
{
    if 0 <= i < s.len() && is_digit(s[i]) {
        digit_run_end(s, i + 1)
    } else {
        i
    }
}

/// The maximal digit run starting at `i` stays within bounds, consists of
/// digits, and ends at the end of the text or at a non-digit.
pub proof fn lemma_digit_run_end(s: Seq<char>, i: int)
    requires
        0 <= i <= s.len(),
    ensures
        i <= digit_run_end(s, i) <= s.len(),
        forall|k: int| i <= k < digit_run_end(s, i) ==> is_digit(s[k]),
        digit_run_end(s, i) == s.len() || !is_digit(s[digit_run_end(s, i)]),
    decreases s.len() - i,
{
    if i < s.len() && is_digit(s[i]) {
        lemma_digit_run_end(s, i + 1);
    }
}

/// A run of digits over `[i, e)` that ends at the end of the text or at a
/// non-digit is the maximal run starting at `i`.
pub proof fn lemma_digit_run_end_exact(s: Seq<char>, i: int, e: int)
    requires
        0 <= i <= e <= s.len(),
        forall|k: int| i <= k < e ==> is_digit(s[k]),
        e == s.len() || !is_digit(s[e]),
    ensures
        digit_run_end(s, i) == e,
    decreases e - i,
{
    if i < e {
        lemma_digit_run_end_exact(s, i + 1, e);
    }
}

/// The version declaration, if any, at the start of the text: major and
/// minor digit runs separated by `.`, an optional `.teeny` run, and after
/// a teeny an optional `-ppatch` run. Text after the matched prefix is
/// ignored.
pub open spec fn spec_parse_version(s: Seq<char>, loc: Seq<char>) -> Option<VersionView> {
    let mj_end = digit_run_end(s, 0);
    if mj_end == 0 || mj_end >= s.len() || s[mj_end] != '.' {
        None
    } else {
        let mn_start = mj_end + 1;
        let mn_end = digit_run_end(s, mn_start);
        if mn_end == mn_start {
            None
        } else {
            let major = s.subrange(0, mj_end);
            let minor = s.subrange(mn_start, mn_end);
            if mn_end < s.len() && s[mn_end] == '.' && digit_run_end(s, mn_end + 1) > mn_end
                + 1 {
                let t_start = mn_end + 1;
                let t_end = digit_run_end(s, t_start);
                let teeny = s.subrange(t_start, t_end);
                if t_end + 1 < s.len() && s[t_end] == '-' && s[t_end + 1] == 'p'
                    && digit_run_end(s, t_end + 2) > t_end + 2 {
                    let p_end = digit_run_end(s, t_end + 2);
                    Some(VersionView {
                        major,
                        minor,
                        teeny: Some(teeny),
                        patch: Some(s.subrange(t_end + 2, p_end)),
                        found_in_file: loc,
                    })
                } else {
                    Some(VersionView {
                        major,
                        minor,
                        teeny: Some(teeny),
                        patch: None,
                        found_in_file: loc,
                    })
                }
            } else {
                Some(VersionView { major, minor, teeny: None, patch: None, found_in_file: loc })
            }
        }
    }
}

/// Every record a successful parse produces is well formed and carries
/// the given source location.
pub proof fn lemma_parse_version_wf(s: Seq<char>, loc: Seq<char>)
    ensures
        spec_parse_version(s, loc) matches Some(v) ==> wf_core(v) && v.found_in_file == loc,
{
    lemma_digit_run_end(s, 0);
    let mj_end = digit_run_end(s, 0);
    if 0 < mj_end < s.len() && s[mj_end] == '.' {
        lemma_digit_run_end(s, mj_end + 1);
        let mn_end = digit_run_end(s, mj_end + 1);
        if mn_end > mj_end + 1 {
            assert(is_num(s.subrange(0, mj_end)));
            assert(is_num(s.subrange(mj_end + 1, mn_end)));
            if mn_end < s.len() && s[mn_end] == '.' {
                lemma_digit_run_end(s, mn_end + 1);
                let t_end = digit_run_end(s, mn_end + 1);
                if t_end > mn_end + 1 {
                    assert(is_num(s.subrange(mn_end + 1, t_end)));
                    if t_end + 1 < s.len() && s[t_end] == '-' && s[t_end + 1] == 'p' {
                        lemma_digit_run_end(s, t_end + 2);
                        let p_end = digit_run_end(s, t_end + 2);
                        if p_end > t_end + 2 {
                            assert(is_num(s.subrange(t_end + 2, p_end)));
                        }
                    }
                }
            }
        }
    }
}

/// Whether the character is an ASCII decimal digit.
fn is_digit_char(c: char) -> (r: bool)
    ensures
        r == is_digit(c),
{
    let u = c as u32;
    '0' as u32 <= u && u <= '9' as u32
}

/// Scans the maximal digit run starting at `from`.
fn scan_digits(s: &str, n: usize, from: usize) -> (e: usize)
    requires
        n == s@.len(),
        from <= n,
    ensures
        from <= e <= n,
        e == digit_run_end(s@, from as int),
{
    let mut i = from;
    loop
        invariant
            n == s@.len(),
            from <= i <= n,
            digit_run_end(s@, from as int) == digit_run_end(s@, i as int),
        decreases n - i,
    {
        if i == n {
            return i;
        }
        let c = s.get_char(i);
        if !is_digit_char(c) {
            return i;
        }
        i = i + 1;
    }
}

/// Extracts the version declaration, if any, at the start of the text,
/// tagging the record with the given source location.
fn parse_version(s: &str, found_in_file: &str) -> (r: Option<RubyVersion>)
    ensures
        r.deep_view() == spec_parse_version(s@, found_in_file@),
{
    let n = s.unicode_len();
    let mj_end = scan_digits(s, n, 0);
    if mj_end == 0 || mj_end == n {
        return None;
    }
    if s.get_char(mj_end) != '.' {
        return None;
    }
    let mn_start = mj_end + 1;
    let mn_end = scan_digits(s, n, mn_start);
    if mn_end == mn_start {
        return None;
    }
    let major = s.substring_char(0, mj_end).to_owned();
    let minor = s.substring_char(mn_start, mn_end).to_owned();
    let mut teeny: Option<String> = None;
    let mut patch: Option<String> = None;
    if mn_end < n && s.get_char(mn_end) == '.' {
        let t_start = mn_end + 1;
        let t_end = scan_digits(s, n, t_start);
        if t_end > t_start {
            teeny = Some(s.substring_char(t_start, t_end).to_owned());
            if t_end < n && t_end + 1 < n && s.get_char(t_end) == '-' && s.get_char(t_end + 1)
                == 'p' {
                let p_start = t_end + 2;
                let p_end = scan_digits(s, n, p_start);
                if p_end > p_start {
                    patch = Some(s.substring_char(p_start, p_end).to_owned());
                }
            }
        }
    }
    Some(
        RubyVersion {
            major,
            minor,
            teeny,
            patch,
            found_in_file: found_in_file.to_owned(),
        },
    )
}

/// Extracts the version record, if any, from the content of a
/// bare-version file such as `.ruby-version`: the declaration must stand
/// at the start of the content.
pub fn parse_bare_version(content: &str, found_in_file: &str) -> (r: Option<RubyVersion>)
    ensures
        r.deep_view() == spec_parse_version(content@, found_in_file@),
{
    parse_version(content, found_in_file)
}

proof fn lemma_parse_prefix(maj: Seq<char>, min: Seq<char>, tail: Seq<char>, s: Seq<char>)
    requires
        is_num(maj),
        is_num(min),
        s == maj + seq!['.'] + min + tail,
        tail.len() == 0 || !is_digit(tail[0]),
    ensures
        s.len() == maj.len() + 1 + min.len() + tail.len(),
        digit_run_end(s, 0) == maj.len(),
        maj.len() < s.len(),
        s[maj.len() as int] == '.',
        digit_run_end(s, maj.len() as int + 1) == maj.len() + 1 + min.len(),
        s.subrange(0, maj.len() as int) == maj,
        s.subrange(maj.len() as int + 1, maj.len() as int + 1 + min.len() as int) == min,
        forall|k: int|
            0 <= k < tail.len() ==> s[maj.len() + 1 + min.len() + k] == tail[k],
{
    let m = maj.len() as int;
    let n = min.len() as int;
    assert forall|k: int| 0 <= k < m implies s[k] == maj[k] by {
        assert(s[k] == ((maj + seq!['.']) + min)[k]);
        assert(((maj + seq!['.']) + min)[k] == (maj + seq!['.'])[k]);
    }
    assert(s[m] == '.') by {
        assert(s[m] == ((maj + seq!['.']) + min)[m]);
        assert(((maj + seq!['.']) + min)[m] == (maj + seq!['.'])[m]);
        assert((maj + seq!['.'])[m] == seq!['.'][0]);
    }
    assert forall|k: int| m + 1 <= k < m + 1 + n implies s[k] == min[k - m - 1] by {
        assert(s[k] == ((maj + seq!['.']) + min)[k]);
        assert(((maj + seq!['.']) + min)[k] == min[k - m - 1]);
    }
    assert forall|k: int| 0 <= k < tail.len() implies s[m + 1 + n + k] == tail[k] by {
        assert(s[m + 1 + n + k] == tail[m + 1 + n + k - (m + 1 + n)]);
    }
    assert(!is_digit('.'));
    lemma_digit_run_end_exact(s, 0, m);
    assert(digit_run_end(s, m + 1) == m + 1 + n) by {
        if tail.len() == 0 {
            lemma_digit_run_end_exact(s, m + 1, m + 1 + n);
        } else {
            assert(s[m + 1 + n] == tail[0]);
            lemma_digit_run_end_exact(s, m + 1, m + 1 + n);
        }
    }
    assert(s.subrange(0, m) =~= maj);
    assert(s.subrange(m + 1, m + 1 + n) =~= min);
}

/// Round trip: parsing the display form of any well-formed record yields
/// that record back, so rendering what was parsed reproduces the input
/// text for every valid version declaration.
pub proof fn lemma_render_parse_round_trip(v: VersionView)
    requires
        wf_core(v),
    ensures
        spec_parse_version(spec_render(v), v.found_in_file) == Some(v),
{
    let s = spec_render(v);
    let m = v.major.len() as int;
    let n = v.minor.len() as int;
    match v.teeny {
        None => {
            assert(s =~= v.major + seq!['.'] + v.minor + Seq::<char>::empty());
            lemma_parse_prefix(v.major, v.minor, Seq::empty(), s);
            assert(spec_parse_version(s, v.found_in_file) == Some(v));
        },
        Some(t) => {
            let tl = t.len() as int;
            let t_start = m + 1 + n + 1;
            match v.patch {
                None => {
                    let tail = seq!['.'] + t;
                    assert(s =~= v.major + seq!['.'] + v.minor + tail);
                    lemma_parse_prefix(v.major, v.minor, tail, s);
                    assert(s[m + 1 + n] == '.') by {
                        assert(s[m + 1 + n + 0] == tail[0]);
                    }
                    assert forall|k: int| 0 <= k < tl implies s[t_start + k] == t[k] by {
                        assert(s[m + 1 + n + (k + 1)] == tail[k + 1]);
                        assert(tail[k + 1] == t[k]);
                    }
                    lemma_digit_run_end_exact(s, t_start, t_start + tl);
                    assert(s.subrange(t_start, t_start + tl) =~= t);
                    assert(spec_parse_version(s, v.found_in_file) == Some(v));
                },
                Some(p) => {
                    let pl = p.len() as int;
                    let tail = seq!['.'] + t + seq!['-', 'p'] + p;
                    assert(s =~= v.major + seq!['.'] + v.minor + tail);
                    lemma_parse_prefix(v.major, v.minor, tail, s);
                    assert forall|k: int| 0 <= k < tail.len() implies tail[k] == (if k == 0 {
                        '.'
                    } else if k < 1 + tl {
                        t[k - 1]
                    } else if k == 1 + tl {
                        '-'
                    } else if k == 2 + tl {
                        'p'
                    } else {
                        p[k - tl - 3]
                    }) by {
                        assert(tail[k] == ((seq!['.'] + t) + seq!['-', 'p'] + p)[k]);
                        if k < 1 + tl {
                            assert(tail[k] == ((seq!['.'] + t) + seq!['-', 'p'])[k]);
                            assert(tail[k] == (seq!['.'] + t)[k]);
                        } else if k < 3 + tl {
                            assert(tail[k] == ((seq!['.'] + t) + seq!['-', 'p'])[k]);
                            assert(tail[k] == seq!['-', 'p'][k - 1 - tl]);
                        }
                    }
                    assert(s[m + 1 + n] == '.') by {
                        assert(s[m + 1 + n + 0] == tail[0]);
                    }
                    assert forall|k: int| 0 <= k < tl implies s[t_start + k] == t[k] by {
                        assert(s[m + 1 + n + (k + 1)] == tail[k + 1]);
                    }
                    let t_end = t_start + tl;
                    assert(s[t_end] == '-') by {
                        assert(s[m + 1 + n + (1 + tl)] == tail[1 + tl]);
                    }
                    assert(s[t_end + 1] == 'p') by {
                        assert(s[m + 1 + n + (2 + tl)] == tail[2 + tl]);
                    }
                    assert forall|k: int| 0 <= k < pl implies s[t_end + 2 + k] == p[k] by {
                        assert(s[m + 1 + n + (3 + tl + k)] == tail[3 + tl + k]);
                    }
                    assert(!is_digit('-'));
                    lemma_digit_run_end_exact(s, t_start, t_end);
                    lemma_digit_run_end_exact(s, t_end + 2, t_end + 2 + pl);
                    assert(s.subrange(t_start, t_end) =~= t);
                    assert(s.subrange(t_end + 2, t_end + 2 + pl) =~= p);
                    assert(spec_parse_version(s, v.found_in_file) == Some(v));
                },
            }
        },
    }
}

/// Parsing any valid version text yields a record whose display form
/// re-renders to the identical text, whatever location tag the parse
/// attaches.
pub proof fn lemma_parse_reproduces_text(v: VersionView, loc: Seq<char>)
    requires
        wf_core(v),
    ensures
        spec_parse_version(spec_render(v), loc) matches Some(w) && spec_render(w) == spec_render(
            v,
        ) && w.found_in_file == loc,
{
    let w = VersionView {
        major: v.major,
        minor: v.minor,
        teeny: v.teeny,
        patch: v.patch,
        found_in_file: loc,
    };
    assert(spec_render(w) == spec_render(v));
    lemma_render_parse_round_trip(w);
}

/// Whether the line starts with the literal token `ruby` followed by one
/// space: the only `.tool-versions` lines that declare a relevant version.
pub open spec fn has_ruby_prefix(line: Seq<char>) -> bool {
    line.len() >= 5 && line[0] == 'r' && line[1] == 'u' && line[2] == 'b' && line[3] == 'y'
        && line[4] == ' '
}

/// The version declared by one `.tool-versions` line: the version prefix
/// directly after the `ruby ` token, if the line has both.
pub open spec fn spec_parse_tool_line(line: Seq<char>, loc: Seq<char>) -> Option<VersionView> {
    if has_ruby_prefix(line) {
        spec_parse_version(line.subrange(5, line.len() as int), loc)
    } else {
        None
    }
}

/// Extracts the version record, if any, declared by one line of a
/// `.tool-versions` file.
pub fn parse_tool_versions_line(line: &str, found_in_file: &str) -> (r: Option<RubyVersion>)
    ensures
        r.deep_view() == spec_parse_tool_line(line@, found_in_file@),
{
    let n = line.unicode_len();
    if n < 5 {
        return None;
    }
    if line.get_char(0) != 'r' || line.get_char(1) != 'u' || line.get_char(2) != 'b'
        || line.get_char(3) != 'y' || line.get_char(4) != ' ' {
        return None;
    }
    let rest = line.substring_char(5, n);
    parse_version(rest, found_in_file)
}

/// The index of the first line break at or after `i`, or the end of the
/// text if no line break follows.
pub open spec fn line_end(s: Seq<char>, i: int) -> int
    decreases s.len() - i,
{
    if 0 <= i < s.len() && s[i] != '\n' {
        line_end(s, i + 1)
    } else {
        i
    }
}

/// The line starting at `i` stays within bounds, holds no line break,
/// and ends at the end of the text or at a line break.
pub proof fn lemma_line_end(s: Seq<char>, i: int)
    requires
        0 <= i <= s.len(),
    ensures
        i <= line_end(s, i) <= s.len(),
        forall|k: int| i <= k < line_end(s, i) ==> s[k] != '\n',
        line_end(s, i) == s.len() || s[line_end(s, i)] == '\n',
    decreases s.len() - i,
{
    if i < s.len() && s[i] != '\n' {
        lemma_line_end(s, i + 1);
    }
}

/// The version declared by the first `ruby ` line at or after position
/// `i`, scanning the remaining lines in order; `None` when no remaining
/// line declares one.
pub open spec fn spec_scan_tool_lines(s: Seq<char>, i: int, loc: Seq<char>) -> Option<VersionView>
    decreases s.len() - i,
    via spec_scan_tool_lines_decreases
{
    if 0 <= i < s.len() {
        let e = line_end(s, i);
        match spec_parse_tool_line(s.subrange(i, e), loc) {
            Some(v) => Some(v),
            None => if e + 1 <= s.len() {
                spec_scan_tool_lines(s, e + 1, loc)
            } else {
                None
            },
        }
    } else {
        None
    }
}

#[via_fn]
proof fn spec_scan_tool_lines_decreases(s: Seq<char>, i: int, loc: Seq<char>) {
    if 0 <= i < s.len() {
        lemma_line_end(s, i);
    }
}

/// The version declared by a whole `.tool-versions` content: that of its
/// first `ruby ` line, lines taken in file order.
pub open spec fn spec_parse_tool_versions(s: Seq<char>, loc: Seq<char>) -> Option<VersionView> {
    spec_scan_tool_lines(s, 0, loc)
}

/// Scans for the next line break at or after `from`.
fn find_line_end(s: &str, n: usize, from: usize) -> (e: usize)
    requires
        n == s@.len(),
        from <= n,
    ensures
        from <= e <= n,
        e == line_end(s@, from as int),
{
    let mut i = from;
    loop
        invariant
            n == s@.len(),
            from <= i <= n,
            line_end(s@, from as int) == line_end(s@, i as int),
        decreases n - i,
    {
        if i == n {
            return i;
        }
        let c = s.get_char(i);
        if c == '\n' {
            return i;
        }
        i = i + 1;
    }
}

/// Extracts the version record, if any, from the content of a
/// `.tool-versions` file: the record of the first line that declares a
/// `ruby` version, lines scanned in file order. Content without such a
/// line contributes nothing.
pub fn parse_tool_versions(content: &str, found_in_file: &str) -> (r: Option<RubyVersion>)
    ensures
        r.deep_view() == spec_parse_tool_versions(content@, found_in_file@),
{
    let n = content.unicode_len();
    let mut i: usize = 0;
    while i < n
        invariant
            n == content@.len(),
            spec_scan_tool_lines(content@, 0, found_in_file@) == spec_scan_tool_lines(
                content@,
                i as int,
                found_in_file@,
            ),
        decreases n - i,
    {
        let e = find_line_end(content, n, i);
        let line = content.substring_char(i, e);
        match parse_tool_versions_line(line, found_in_file) {
            Some(version) => {
                return Some(version);
            },
            None => {
                if e == n {
                    return None;
                }
                i = e + 1;
            },
        }
    }
    None
}

} // verus!
