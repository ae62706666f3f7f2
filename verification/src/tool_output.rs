//! The line-oriented protocol over the extraction tool's textual output.
//!
//! Three shapes are recognized, each searched for at the leftmost position
//! where it fits: a `[download]` tag followed by a percentage, an `[info]`
//! tag followed by a title and a `Downloading` marker, and the two literal
//! markers that signal the post-download conversion phase. Anything else is
//! ignored, because the tool's output is not a versioned contract.

use vstd::prelude::*;
use crate::text::{
    contains_pattern, digit_val, digits_value, find_pattern_from, is_digit, matches_at,
    pattern_at, scan_digits, scan_spaces, skip_digits, skip_spaces,
};

verus! {

/// Progress is reported in hundredths of a percent and capped at full.
pub open spec fn capped_hundredths(v: int) -> int {
    if v > 10000 {
        10000
    } else {
        v
    }
}

/// A percentage report starts at `i`: the `[download]` tag, whitespace, a
/// digit run, an optional fraction, and a percent sign.
pub open spec fn progress_match_at(s: Seq<char>, i: int) -> bool {
    let tag = "[download]"@;
    matches_at(s, i, tag) && {
        let a = i + tag.len();
        let b = skip_spaces(s, a);
        let d = skip_digits(s, b);
        &&& b > a
        &&& d > b
        &&& d < s.len()
        &&& (s[d] == '%' || (s[d] == '.' && {
            let e = skip_digits(s, d + 1);
            e < s.len() && s[e] == '%'
        }))
    }
}

/// The first two fractional digits of the run `s[f..e]`, scaled to
/// hundredths; further digits are ignored.
pub open spec fn frac_hundredths(s: Seq<char>, f: int, e: int) -> int {
    if e <= f {
        0
    } else if e == f + 1 {
        digit_val(s[f]) * 10
    } else {
        digit_val(s[f]) * 10 + digit_val(s[f + 1])
    }
}

/// The value, in hundredths of a percent and not yet capped, of the
/// percentage report starting at `i`.
pub open spec fn progress_hundredths_at(s: Seq<char>, i: int) -> int {
    let tag = "[download]"@;
    let a = i + tag.len();
    let b = skip_spaces(s, a);
    let d = skip_digits(s, b);
    let whole = digits_value(s, b, d) * 100;
    if s[d] == '%' {
        whole
    } else {
        whole + frac_hundredths(s, d + 1, skip_digits(s, d + 1))
    }
}

/// The first position at or after `from` where a percentage report starts,
/// or the end of the line.
pub open spec fn find_progress_from(s: Seq<char>, from: int) -> int
    decreases s.len() - from,
{
    if 0 <= from < s.len() && !progress_match_at(s, from) {
        find_progress_from(s, from + 1)
    } else {
        from
    }
}

/// What a line reports as progress: the leftmost percentage report, capped
/// at one hundred percent, or nothing.
pub open spec fn line_progress(s: Seq<char>) -> Option<int> {
    let i = find_progress_from(s, 0);
    if i < s.len() && progress_match_at(s, i) {
        Some(capped_hundredths(progress_hundredths_at(s, i)))
    } else {
        None
    }
}

/// After a title of `k` characters starting at `b` come a colon, whitespace
/// and the `Downloading` marker.
pub open spec fn title_end_ok(s: Seq<char>, b: int, k: int) -> bool {
    b + k < s.len() && s[b + k] == ':' && {
        let c = skip_spaces(s, b + k + 1);
        c > b + k + 1 && matches_at(s, c, "Downloading"@)
    }
}

/// A title report starts at `i`: the `[info]` tag, whitespace, then some
/// title closed off by a colon and the `Downloading` marker.
pub open spec fn title_match_at(s: Seq<char>, i: int) -> bool {
    let tag = "[info]"@;
    matches_at(s, i, tag) && {
        let a = i + tag.len();
        let b = skip_spaces(s, a);
        b > a && exists|k: int| 1 <= k && title_end_ok(s, b, k)
    }
}

/// The length of the shortest title acceptable from `b`, scanning from `k`
/// upward.
pub open spec fn title_len_from(s: Seq<char>, b: int, k: int) -> int
    decreases s.len() - b - k,
{
    if b + k < s.len() && 0 <= k && !title_end_ok(s, b, k) {
        title_len_from(s, b, k + 1)
    } else {
        k
    }
}

/// The first position at or after `from` where a title report starts, or
/// the end of the line.
pub open spec fn find_title_from(s: Seq<char>, from: int) -> int
    decreases s.len() - from,
{
    if 0 <= from < s.len() && !title_match_at(s, from) {
        find_title_from(s, from + 1)
    } else {
        from
    }
}

/// The title a line reports: the shortest title of the leftmost title
/// report, or nothing.
pub open spec fn line_title(s: Seq<char>) -> Option<Seq<char>> {
    let i = find_title_from(s, 0);
    if i < s.len() && title_match_at(s, i) {
        let b = skip_spaces(s, i + "[info]"@.len());
        let k = title_len_from(s, b, 1);
        Some(s.subrange(b, b + k))
    } else {
        None
    }
}

/// A line signals the conversion phase when it carries either literal
/// marker.
pub open spec fn line_signals_conversion(s: Seq<char>) -> bool {
    contains_pattern(s, "[ExtractAudio]"@) || contains_pattern(s, "Merging formats"@)
}

/// Whether the line signals that post-download conversion has begun.
pub fn signals_conversion(line: &str) -> (r: bool)
    ensures
        r == line_signals_conversion(line@),
{
    let extract = find_pattern_from(line, 0, "[ExtractAudio]");
    if extract.is_some() {
        return true;
    }
    let merge = find_pattern_from(line, 0, "Merging formats");
    merge.is_some()
}

fn digit_of(c: char) -> (r: u32)
    requires
        crate::text::is_digit_char(c),
    ensures
        r == digit_val(c),
        r <= 9,
{
    c as u32 - '0' as u32
}

/// The value of the digit run `s[b..d]`, reported exactly up to one
/// hundred; anything larger is reported as one hundred and one.
fn digits_value_capped(s: &str, b: usize, d: usize) -> (r: u32)
    requires
        b <= d <= s@.len(),
        forall|k: int| b <= k < d ==> crate::text::is_digit_char(s@[k]),
    ensures
        digits_value(s@, b as int, d as int) <= 100 ==> r == digits_value(
            s@,
            b as int,
            d as int,
        ),
        digits_value(s@, b as int, d as int) > 100 ==> r == 101,
{
    let mut acc: u32 = 0;
    let mut j: usize = b;
    while j < d
        invariant
            b <= j <= d <= s@.len(),
            forall|k: int| b <= k < d ==> crate::text::is_digit_char(s@[k]),
            digits_value(s@, b as int, j as int) <= 100 ==> acc == digits_value(
                s@,
                b as int,
                j as int,
            ),
            digits_value(s@, b as int, j as int) > 100 ==> acc == 101,
            acc <= 101,
        decreases d - j,
    {
        proof {
            crate::text::lemma_digits_value_bounds(s@, b as int, j as int);
        }
        let dg = digit_of(s.get_char(j));
        if acc <= 100 {
            let next = acc * 10 + dg;
            if next <= 100 {
                acc = next;
            } else {
                acc = 101;
            }
        }
        j += 1;
    }
    acc
}

/// Extracts the progress a line reports, in hundredths of a percent,
/// capped at ten thousand.
pub fn parse_progress(line: &str) -> (r: Option<u32>)
    ensures
        match r {
            Some(v) => line_progress(line@) == Some(v as int) && v <= 10000,
            None => line_progress(line@) is None,
        },
{
    let n = line.unicode_len();
    let tag_len = "[download]".unicode_len();
    let mut i: usize = 0;
    while i < n
        invariant
            n == line@.len(),
            tag_len == "[download]"@.len(),
            find_progress_from(line@, 0) == find_progress_from(line@, i as int),
            i <= n,
        decreases n - i,
    {
        if pattern_at(line, i, "[download]") {
            let a = i + tag_len;
            let b = scan_spaces(line, a);
            proof {
                crate::text::lemma_skip_spaces(line@, a as int);
            }
            if b > a {
                let d = scan_digits(line, b);
                proof {
                    crate::text::lemma_skip_digits(line@, b as int);
                }
                if d > b && d < n {
                    let cd = line.get_char(d);
                    if cd == '%' {
                        let whole = digits_value_capped(line, b, d);
                        if whole <= 100 {
                            return Some(whole * 100);
                        } else {
                            proof {
                                assert(progress_hundredths_at(line@, i as int) > 10000);
                            }
                            return Some(10000);
                        }
                    } else if cd == '.' {
                        let e = scan_digits(line, d + 1);
                        proof {
                            crate::text::lemma_skip_digits(line@, d + 1);
                        }
                        if e < n && line.get_char(e) == '%' {
                            let whole = digits_value_capped(line, b, d);
                            let flen = e - (d + 1);
                            let f0 = if flen >= 1 {
                                digit_of(line.get_char(d + 1)) * 10
                            } else {
                                0
                            };
                            let f1 = if flen >= 2 {
                                digit_of(line.get_char(d + 2))
                            } else {
                                0
                            };
                            let frac = f0 + f1;
                            proof {
                                assert(frac == frac_hundredths(line@, d + 1, e as int));
                            }
                            if whole <= 100 {
                                let total = whole * 100 + frac;
                                if total > 10000 {
                                    return Some(10000);
                                } else {
                                    return Some(total);
                                }
                            } else {
                                proof {
                                    assert(progress_hundredths_at(line@, i as int) > 10000);
                                }
                                return Some(10000);
                            }
                        }
                    }
                }
            }
            proof {
                assert(!progress_match_at(line@, i as int));
            }
        }
        i += 1;
    }
    proof {
        assert(find_progress_from(line@, i as int) == i);
    }
    None
}

proof fn lemma_title_len_found(s: Seq<char>, b: int, lo: int, k: int)
    requires
        0 <= lo <= k,
        forall|k2: int| lo <= k2 < k ==> !title_end_ok(s, b, k2),
        title_end_ok(s, b, k),
    ensures
        title_len_from(s, b, lo) == k,
    decreases k - lo,
{
    if lo < k {
        lemma_title_len_found(s, b, lo + 1, k);
    }
}

/// Extracts the title a line reports, if any.
pub fn parse_title(line: &str) -> (r: Option<String>)
    ensures
        match r {
            Some(t) => line_title(line@) == Some(t@),
            None => line_title(line@) is None,
        },
{
    let n = line.unicode_len();
    let tag_len = "[info]".unicode_len();
    let mut i: usize = 0;
    while i < n
        invariant
            n == line@.len(),
            tag_len == "[info]"@.len(),
            find_title_from(line@, 0) == find_title_from(line@, i as int),
            i <= n,
        decreases n - i,
    {
        if pattern_at(line, i, "[info]") {
            let a = i + tag_len;
            let b = scan_spaces(line, a);
            proof {
                crate::text::lemma_skip_spaces(line@, a as int);
            }
            if b > a {
                let mut k: usize = 1;
                while k < n - b
                    invariant
                        n == line@.len(),
                        i < n,
                        matches_at(line@, i as int, "[info]"@),
                        a == i + "[info]"@.len(),
                        b == skip_spaces(line@, a as int),
                        a < b <= n,
                        1 <= k,
                        find_title_from(line@, 0) == find_title_from(line@, i as int),
                        forall|k2: int| 1 <= k2 < k ==> !title_end_ok(line@, b as int, k2),
                    decreases n - b - k,
                {
                    let mut ok = false;
                    if line.get_char(b + k) == ':' {
                        let c = scan_spaces(line, b + k + 1);
                        proof {
                            crate::text::lemma_skip_spaces(line@, b + k + 1);
                        }
                        if c > b + k + 1 && pattern_at(line, c, "Downloading") {
                            ok = true;
                        }
                    }
                    if ok {
                        proof {
                            assert(title_end_ok(line@, b as int, k as int));
                            lemma_title_len_found(line@, b as int, 1, k as int);
                            assert(title_match_at(line@, i as int));
                            assert(find_title_from(line@, i as int) == i);
                        }
                        let t = line.substring_char(b, b + k);
                        return Some(String::from_str(t));
                    }
                    k += 1;
                }
                proof {
                    assert forall|k2: int| 1 <= k2 implies !title_end_ok(line@, b as int, k2) by {
                        if k2 >= n - b {
                            assert(b + k2 >= n);
                        }
                    }
                    assert(!title_match_at(line@, i as int));
                }
            } else {
                proof {
                    assert(!title_match_at(line@, i as int));
                }
            }
        }
        i += 1;
    }
    proof {
        assert(find_title_from(line@, i as int) == i);
    }
    None
}

} // verus!
