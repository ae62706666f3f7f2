//! Character-level text helpers shared by the URL validator and the parser
//! for the extraction tool's output: literal pattern search, whitespace and
//! digit runs, decimal values, trimming, line splitting and joining.

use vstd::prelude::*;

verus! {

/// ASCII whitespace, the characters the tool's output uses between tokens.
pub open spec fn is_space_char(c: char) -> bool {
    c == ' ' || c == '\t' || c == '\r' || c == '\n' || c == '\x0b' || c == '\x0c'
}

/// ASCII decimal digit.
pub open spec fn is_digit_char(c: char) -> bool {
    ('0' as u32) <= (c as u32) && (c as u32) <= ('9' as u32)
}

/// ASCII letter, digit, underscore or hyphen: the characters a video
/// identifier is made of.
pub open spec fn is_word_char(c: char) -> bool {
    ||| ('a' as u32) <= (c as u32) && (c as u32) <= ('z' as u32)
    ||| ('A' as u32) <= (c as u32) && (c as u32) <= ('Z' as u32)
    ||| is_digit_char(c)
    ||| c == '_'
    ||| c == '-'
}

pub open spec fn digit_val(c: char) -> int {
    c as u32 - '0' as u32
}

/// The pattern occurs in `s` starting exactly at position `i`.
pub open spec fn matches_at(s: Seq<char>, i: int, pat: Seq<char>) -> bool {
    0 <= i && i + pat.len() <= s.len() && s.subrange(i, i + pat.len() as int) == pat
}

pub open spec fn contains_pattern(s: Seq<char>, pat: Seq<char>) -> bool {
    exists|i: int| matches_at(s, i, pat)
}

/// Whether `pat` occurs in `s` at position `i`.
pub fn pattern_at(s: &str, i: usize, pat: &str) -> (r: bool)
    ensures
        r == matches_at(s@, i as int, pat@),
{
    let n = s.unicode_len();
    let m = pat.unicode_len();
    if i > n || m > n - i {
        return false;
    }
    let mut k: usize = 0;
    while k < m
        invariant
            k <= m,
            i + m <= n,
            n == s@.len(),
            m == pat@.len(),
            forall|j: int| 0 <= j < k ==> s@[i + j] == pat@[j],
        decreases m - k,
    {
        if s.get_char(i + k) != pat.get_char(k) {
            proof {
                assert(s@.subrange(i as int, i + m as int) != pat@) by {
                    assert(s@.subrange(i as int, i + m as int)[k as int] == s@[i + k]);
                }
            }
            return false;
        }
        k += 1;
    }
    proof {
        assert(s@.subrange(i as int, i + m as int) =~= pat@);
    }
    true
}

/// The position of the first occurrence of `pat` in `s` at or after `from`.
pub fn find_pattern_from(s: &str, from: usize, pat: &str) -> (r: Option<usize>)
    ensures
        match r {
            Some(i) => {
                &&& from <= i
                &&& matches_at(s@, i as int, pat@)
                &&& forall|j: int| from <= j < i ==> !matches_at(s@, j, pat@)
            },
            None => forall|j: int| from <= j ==> !matches_at(s@, j, pat@),
        },
{
    let n = s.unicode_len();
    let m = pat.unicode_len();
    if m == 0 {
        if from <= n {
            proof {
                assert(s@.subrange(from as int, from as int) =~= pat@);
            }
            return Some(from);
        } else {
            return None;
        }
    }
    let mut i: usize = from;
    while i < n
        invariant
            n == s@.len(),
            from <= i,
            forall|j: int| from <= j < i ==> !matches_at(s@, j, pat@),
        decreases n - i,
    {
        if pattern_at(s, i, pat) {
            return Some(i);
        }
        i += 1;
    }
    proof {
        assert forall|j: int| from <= j implies !matches_at(s@, j, pat@) by {
            if j >= i {
                assert(j + pat@.len() > s@.len());
            }
        }
    }
    None
}

/// Whether two pieces of text hold the same characters.
pub fn str_eq(a: &str, b: &str) -> (r: bool)
    ensures
        r == (a@ == b@),
{
    let la = a.unicode_len();
    let lb = b.unicode_len();
    if la != lb {
        return false;
    }
    let r = pattern_at(a, 0, b);
    proof {
        if r {
            assert(a@.subrange(0, lb as int) =~= a@);
        } else {
            assert(a@.subrange(0, la as int) =~= a@);
        }
    }
    r
}

/// The first position at or after `i` whose character is not whitespace, or
/// the end of the text.
pub open spec fn skip_spaces(s: Seq<char>, i: int) -> int
    decreases s.len() - i,
{
    if 0 <= i < s.len() && is_space_char(s[i]) {
        skip_spaces(s, i + 1)
    } else {
        i
    }
}

pub proof fn lemma_skip_spaces(s: Seq<char>, i: int)
    requires
        0 <= i <= s.len(),
    ensures
        i <= skip_spaces(s, i) <= s.len(),
        forall|j: int| i <= j < skip_spaces(s, i) ==> is_space_char(s[j]),
        skip_spaces(s, i) < s.len() ==> !is_space_char(s[skip_spaces(s, i)]),
    decreases s.len() - i,
{
    if i < s.len() && is_space_char(s[i]) {
        lemma_skip_spaces(s, i + 1);
    }
}

/// The first position at or after `i` whose character is not a digit, or the
/// end of the text.
pub open spec fn skip_digits(s: Seq<char>, i: int) -> int
    decreases s.len() - i,
{
    if 0 <= i < s.len() && is_digit_char(s[i]) {
        skip_digits(s, i + 1)
    } else {
        i
    }
}

pub proof fn lemma_skip_digits(s: Seq<char>, i: int)
    requires
        0 <= i <= s.len(),
    ensures
        i <= skip_digits(s, i) <= s.len(),
        forall|j: int| i <= j < skip_digits(s, i) ==> is_digit_char(s[j]),
        skip_digits(s, i) < s.len() ==> !is_digit_char(s[skip_digits(s, i)]),
    decreases s.len() - i,
{
    if i < s.len() && is_digit_char(s[i]) {
        lemma_skip_digits(s, i + 1);
    }
}

pub fn scan_spaces(s: &str, i: usize) -> (r: usize)
    requires
        i <= s@.len(),
    ensures
        r == skip_spaces(s@, i as int),
        i <= r <= s@.len(),
{
    let n = s.unicode_len();
    let mut cur: usize = i;
    while cur < n && is_space(s.get_char(cur))
        invariant
            i <= cur <= n,
            n == s@.len(),
            skip_spaces(s@, i as int) == skip_spaces(s@, cur as int),
        decreases n - cur,
    {
        cur += 1;
    }
    cur
}

pub fn scan_digits(s: &str, i: usize) -> (r: usize)
    requires
        i <= s@.len(),
    ensures
        r == skip_digits(s@, i as int),
        i <= r <= s@.len(),
{
    let n = s.unicode_len();
    let mut cur: usize = i;
    while cur < n && is_digit(s.get_char(cur))
        invariant
            i <= cur <= n,
            n == s@.len(),
            skip_digits(s@, i as int) == skip_digits(s@, cur as int),
        decreases n - cur,
    {
        cur += 1;
    }
    cur
}

pub fn is_space(c: char) -> (r: bool)
    ensures
        r == is_space_char(c),
{
    c == ' ' || c == '\t' || c == '\r' || c == '\n' || c == '\x0b' || c == '\x0c'
}

pub fn is_digit(c: char) -> (r: bool)
    ensures
        r == is_digit_char(c),
{
    let u = c as u32;
    ('0' as u32) <= u && u <= ('9' as u32)
}

pub fn is_word(c: char) -> (r: bool)
    ensures
        r == is_word_char(c),
{
    let u = c as u32;
    (('a' as u32) <= u && u <= ('z' as u32)) || (('A' as u32) <= u && u <= ('Z' as u32))
        || (('0' as u32) <= u && u <= ('9' as u32)) || c == '_' || c == '-'
}

/// The decimal value of the digit run `s[i..j]`, read left to right.
pub open spec fn digits_value(s: Seq<char>, i: int, j: int) -> int
    decreases j - i,
{
    if i < j {
        digits_value(s, i, j - 1) * 10 + digit_val(s[j - 1])
    } else {
        0
    }
}

pub proof fn lemma_digits_value_bounds(s: Seq<char>, i: int, j: int)
    requires
        0 <= i <= j <= s.len(),
        forall|k: int| i <= k < j ==> is_digit_char(s[k]),
    ensures
        digits_value(s, i, j) >= 0,
        j > i ==> digits_value(s, i, j) >= digit_val(s[j - 1]),
    decreases j - i,
{
    if i < j {
        lemma_digits_value_bounds(s, i, j - 1);
    }
}

/// The decimal rendering of a non-negative number, most significant digit
/// first, without leading zeros.
pub open spec fn dec_digit_char(d: int) -> char {
    if d == 0 {
        '0'
    } else if d == 1 {
        '1'
    } else if d == 2 {
        '2'
    } else if d == 3 {
        '3'
    } else if d == 4 {
        '4'
    } else if d == 5 {
        '5'
    } else if d == 6 {
        '6'
    } else if d == 7 {
        '7'
    } else if d == 8 {
        '8'
    } else {
        '9'
    }
}

pub open spec fn dec_rep(n: int) -> Seq<char>
    decreases n,
{
    if n <= 9 {
        seq![dec_digit_char(n)]
    } else {
        dec_rep(n / 10).push(dec_digit_char(n % 10))
    }
}

fn digit_str(d: u64) -> (r: &'static str)
    requires
        d < 10,
    ensures
        r@ == seq![dec_digit_char(d as int)],
{
    proof {
        reveal_strlit("0");
        reveal_strlit("1");
        reveal_strlit("2");
        reveal_strlit("3");
        reveal_strlit("4");
        reveal_strlit("5");
        reveal_strlit("6");
        reveal_strlit("7");
        reveal_strlit("8");
        reveal_strlit("9");
    }
    match d {
        0 => "0",
        1 => "1",
        2 => "2",
        3 => "3",
        4 => "4",
        5 => "5",
        6 => "6",
        7 => "7",
        8 => "8",
        _ => "9",
    }
}

/// Renders a number in decimal.
pub fn u64_to_string(n: u64) -> (r: String)
    ensures
        r@ == dec_rep(n as int),
    decreases n,
{
    if n < 10 {
        String::from_str(digit_str(n))
    } else {
        let s = u64_to_string(n / 10);
        let r = s.concat(digit_str(n % 10));
        proof {
            assert(r@ =~= dec_rep(n as int / 10).push(dec_digit_char(n as int % 10)));
        }
        r
    }
}

pub proof fn lemma_dec_rep_len(n: int)
    ensures
        dec_rep(n).len() >= 1,
        n > 9 ==> dec_rep(n).len() >= 2,
    decreases n,
{
    if n > 9 {
        lemma_dec_rep_len(n / 10);
    }
}

/// Distinct numbers render as distinct digit strings.
pub proof fn lemma_dec_rep_injective(a: int, b: int)
    requires
        0 <= a,
        0 <= b,
        dec_rep(a) == dec_rep(b),
    ensures
        a == b,
    decreases a,
{
    lemma_dec_rep_len(a);
    lemma_dec_rep_len(b);
    if a <= 9 && b <= 9 {
        assert(dec_rep(a)[0] == dec_digit_char(a));
        assert(dec_rep(b)[0] == dec_digit_char(b));
    } else if a <= 9 || b <= 9 {
        // one side renders as a single digit, the other as at least two
    } else {
        assert(dec_rep(a).last() == dec_digit_char(a % 10));
        assert(dec_rep(b).last() == dec_digit_char(b % 10));
        assert(a % 10 == b % 10);
        assert(dec_rep(a).drop_last() == dec_rep(a / 10));
        assert(dec_rep(b).drop_last() == dec_rep(b / 10));
        lemma_dec_rep_injective(a / 10, b / 10);
    }
}

/// The first position from `j` downward whose preceding character is not
/// whitespace.
pub open spec fn rskip_spaces(s: Seq<char>, j: int) -> int
    decreases j,
{
    if 0 < j <= s.len() && is_space_char(s[j - 1]) {
        rskip_spaces(s, j - 1)
    } else {
        j
    }
}

pub proof fn lemma_rskip_spaces(s: Seq<char>, j: int)
    requires
        0 <= j <= s.len(),
    ensures
        0 <= rskip_spaces(s, j) <= j,
        forall|k: int| rskip_spaces(s, j) <= k < j ==> is_space_char(s[k]),
        rskip_spaces(s, j) > 0 ==> !is_space_char(s[rskip_spaces(s, j) - 1]),
    decreases j,
{
    if 0 < j && is_space_char(s[j - 1]) {
        lemma_rskip_spaces(s, j - 1);
    }
}

/// The text with leading and trailing whitespace removed.
pub open spec fn spec_trimmed(s: Seq<char>) -> Seq<char> {
    if skip_spaces(s, 0) == s.len() {
        Seq::empty()
    } else {
        s.subrange(skip_spaces(s, 0), rskip_spaces(s, s.len() as int))
    }
}

pub fn trim_str(s: &str) -> (r: String)
    ensures
        r@ == spec_trimmed(s@),
{
    let n = s.unicode_len();
    let b = scan_spaces(s, 0);
    if b == n {
        return String::new();
    }
    proof {
        lemma_skip_spaces(s@, 0);
    }
    let mut e: usize = n;
    while e > 0 && is_space(s.get_char(e - 1))
        invariant
            0 <= e <= n,
            n == s@.len(),
            rskip_spaces(s@, n as int) == rskip_spaces(s@, e as int),
        decreases e,
    {
        e -= 1;
    }
    proof {
        lemma_rskip_spaces(s@, n as int);
        // the non-space character at b bounds the right scan from below
        assert(rskip_spaces(s@, n as int) > b);
    }
    String::from_str(s.substring_char(b, e))
}

/// The first position at or after `from` holding a newline, or the end.
pub open spec fn find_newline(s: Seq<char>, from: int) -> int
    decreases s.len() - from,
{
    if 0 <= from < s.len() && s[from] != '\n' {
        find_newline(s, from + 1)
    } else {
        from
    }
}

pub proof fn lemma_find_newline(s: Seq<char>, from: int)
    requires
        0 <= from <= s.len(),
    ensures
        from <= find_newline(s, from) <= s.len(),
        forall|j: int| from <= j < find_newline(s, from) ==> s[j] != '\n',
        find_newline(s, from) < s.len() ==> s[find_newline(s, from)] == '\n',
    decreases s.len() - from,
{
    if from < s.len() && s[from] != '\n' {
        lemma_find_newline(s, from + 1);
    }
}

/// The text cut at each newline; the separators themselves are dropped.
pub open spec fn split_newlines(s: Seq<char>) -> Seq<Seq<char>>
    decreases s.len(),
{
    let i = find_newline(s, 0);
    if i < 0 || i >= s.len() {
        seq![s]
    } else {
        seq![s.subrange(0, i)] + split_newlines(s.subrange(i + 1, s.len() as int))
    }
}

/// Cuts the text at each newline.
pub fn split_lines(text: &str) -> (r: Vec<String>)
    ensures
        r.deep_view() == split_newlines(text@),
{
    let n = text.unicode_len();
    let mut out: Vec<String> = Vec::new();
    let mut pos: usize = 0;
    let mut finished = false;
    proof {
        assert(text@.subrange(0, n as int) =~= text@);
        assert(out.deep_view() + split_newlines(text@) =~= split_newlines(text@));
    }
    while !finished
        invariant
            n == text@.len(),
            pos <= n,
            !finished ==> split_newlines(text@) == out.deep_view() + split_newlines(
                text@.subrange(pos as int, n as int),
            ),
            finished ==> out.deep_view() == split_newlines(text@),
        decreases n - pos, (if finished { 0int } else { 1int }),
    {
        let mut j: usize = pos;
        while j < n && text.get_char(j) != '\n'
            invariant
                n == text@.len(),
                pos <= j <= n,
                forall|m: int| pos <= m < j ==> text@[m] != '\n',
            decreases n - j,
        {
            j += 1;
        }
        let ghost suffix = text@.subrange(pos as int, n as int);
        proof {
            lemma_find_newline(suffix, 0);
            let f = find_newline(suffix, 0);
            assert forall|m: int| 0 <= m < j - pos implies suffix[m] != '\n' by {
                assert(suffix[m] == text@[pos + m]);
            }
            if j < n {
                assert(suffix[j - pos] == text@[j as int]);
            }
            assert(f == j - pos) by {
                if f < j - pos {
                    assert(suffix[f] == '\n');
                } else if f > j - pos {
                    assert(suffix[j - pos] == '\n');
                }
            }
        }
        let seg = String::from_str(text.substring_char(pos, j));
        let ghost pre = out.deep_view();
        out.push(seg);
        proof {
            assert(out.deep_view() =~= pre.push(text@.subrange(pos as int, j as int)));
            assert(text@.subrange(pos as int, j as int) =~= suffix.subrange(0, j - pos));
        }
        if j == n {
            proof {
                assert(split_newlines(suffix) == seq![suffix]);
                assert(suffix.subrange(0, j - pos) =~= suffix);
                assert(out.deep_view() =~= pre + seq![suffix]);
            }
            finished = true;
        } else {
            proof {
                assert(split_newlines(suffix) == seq![suffix.subrange(0, j - pos)]
                    + split_newlines(suffix.subrange(j - pos + 1, suffix.len() as int)));
                assert(suffix.subrange(j - pos + 1, suffix.len() as int) =~= text@.subrange(
                    j + 1,
                    n as int,
                ));
                assert(out.deep_view() + split_newlines(text@.subrange(j + 1, n as int)) =~= pre
                    + split_newlines(suffix));
            }
            pos = j + 1;
        }
    }
    out
}

/// The parts glued back together with a newline between each two.
pub open spec fn join_newlines(parts: Seq<Seq<char>>) -> Seq<char>
    decreases parts.len(),
{
    if parts.len() == 0 {
        Seq::empty()
    } else if parts.len() == 1 {
        parts[0]
    } else {
        join_newlines(parts.drop_last()) + seq!['\n'] + parts.last()
    }
}

/// Joins the given parts with newlines.
pub fn join_lines(parts: &Vec<String>) -> (r: String)
    ensures
        r@ == join_newlines(parts.deep_view()),
{
    let mut out = String::new();
    let mut i: usize = 0;
    proof {
        assert(parts.deep_view().subrange(0, 0) =~= Seq::<Seq<char>>::empty());
    }
    while i < parts.len()
        invariant
            i <= parts@.len(),
            parts.deep_view().len() == parts@.len(),
            forall|k: int| 0 <= k < parts@.len() ==> parts.deep_view()[k] == parts@[k]@,
            out@ == join_newlines(parts.deep_view().subrange(0, i as int)),
        decreases parts@.len() - i,
    {
        if i > 0 {
            out.append("\n");
            proof {
                reveal_strlit("\n");
            }
        }
        out.append(parts[i].as_str());
        proof {
            let pre = parts.deep_view().subrange(0, i as int);
            let post = parts.deep_view().subrange(0, i + 1);
            assert(post.drop_last() =~= pre);
            assert(post.last() == parts@[i as int]@);
            if i > 0 {
                assert(out@ =~= join_newlines(post));
            } else {
                assert(out@ =~= join_newlines(post));
            }
        }
        i += 1;
    }
    proof {
        assert(parts.deep_view().subrange(0, parts@.len() as int) =~= parts.deep_view());
    }
    out
}

} // verus!
