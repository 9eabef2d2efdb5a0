//! The grammar of a header line:
//! `DATE TIME <ws>+ SEVERITY <ws>+ LOGGER <ws>+ - <ws>+ MESSAGE`, where DATE,
//! TIME and LOGGER are runs of non-whitespace characters, DATE and TIME are
//! separated by exactly one space, SEVERITY is a run of `A`..`Z`, and the
//! message is the rest of the line after the whitespace that follows `-`.

use vstd::prelude::*;

verus! {

/// Unicode `White_Space`, the characters that `char::is_whitespace` accepts.
pub open spec fn is_ws(c: char) -> bool {
    let u = c as u32;
    ||| 9 <= u <= 13
    ||| u == 32
    ||| u == 0x85
    ||| u == 0xA0
    ||| u == 0x1680
    ||| 0x2000 <= u <= 0x200A
    ||| u == 0x2028
    ||| u == 0x2029
    ||| u == 0x202F
    ||| u == 0x205F
    ||| u == 0x3000
}

pub fn is_whitespace(c: char) -> (r: bool)
    ensures
        r == is_ws(c),
{
    let u = c as u32;
    (9 <= u && u <= 13) || u == 32 || u == 0x85 || u == 0xA0 || u == 0x1680 || (0x2000 <= u
        && u <= 0x200A) || u == 0x2028 || u == 0x2029 || u == 0x202F || u == 0x205F || u
        == 0x3000
}

/// The classes of characters that the fields of a header line are made of.
#[derive(Clone, Copy, Debug, PartialEq, Eq, Structural)]
pub enum CharClass {
    Space,
    NonSpace,
    Upper,
}

pub open spec fn in_class(c: char, k: CharClass) -> bool {
    match k {
        CharClass::Space => is_ws(c),
        CharClass::NonSpace => !is_ws(c),
        CharClass::Upper => 'A' <= c && c <= 'Z',
    }
}

/// The end of the longest run of characters of class `k` that starts at `i`.
pub open spec fn run_end(s: Seq<char>, i: int, k: CharClass) -> int
    decreases s.len() - i,
{
    if 0 <= i < s.len() && in_class(s[i], k) {
        run_end(s, i + 1, k)
    } else {
        i
    }
}

/// The four fields of a header line, as text.
pub struct HeaderView {
    pub timestamp: Seq<char>,
    pub severity: Seq<char>,
    pub logger: Seq<char>,
    pub message: Seq<char>,
}

/// The fields of `s` if `s` is a header line, `None` if it is not.
pub open spec fn header_of(s: Seq<char>) -> Option<HeaderView> {
    let a = run_end(s, 0, CharClass::NonSpace);
    let b = run_end(s, a + 1, CharClass::NonSpace);
    let c = run_end(s, b, CharClass::Space);
    let d = run_end(s, c, CharClass::Upper);
    let e = run_end(s, d, CharClass::Space);
    let f = run_end(s, e, CharClass::NonSpace);
    let g = run_end(s, f, CharClass::Space);
    let h = run_end(s, g + 1, CharClass::Space);
    if 0 < a < s.len() && s[a] == ' ' && a + 1 < b && b < c && c < d && d < e && e < f && f < g
        && g < s.len() && s[g] == '-' && g + 1 < h {
        Some(
            HeaderView {
                timestamp: s.subrange(0, b),
                severity: s.subrange(c, d),
                logger: s.subrange(e, f),
                message: s.subrange(h, s.len() as int),
            },
        )
    } else {
        None
    }
}

/// The fields of a header line.
#[derive(Debug, PartialEq, Eq)]
pub struct HeaderFields {
    pub timestamp: String,
    pub severity: String,
    pub logger: String,
    pub message: String,
}

impl View for HeaderFields {
    type V = HeaderView;

    open spec fn view(&self) -> HeaderView {
        HeaderView {
            timestamp: self.timestamp@,
            severity: self.severity@,
            logger: self.logger@,
            message: self.message@,
        }
    }
}

/// The characters of `s`, one element each.
pub fn chars_of(s: &str) -> (r: Vec<char>)
    ensures
        r@ == s@,
{
    let n = s.unicode_len();
    let mut r: Vec<char> = Vec::new();
    let mut i: usize = 0;
    while i < n
        invariant
            n == s@.len(),
            i <= n,
            r@ =~= s@.subrange(0, i as int),
        decreases n - i,
    {
        r.push(s.get_char(i));
        i = i + 1;
    }
    r
}

pub fn char_in_class(c: char, k: CharClass) -> (r: bool)
    ensures
        r == in_class(c, k),
{
    match k {
        CharClass::Space => is_whitespace(c),
        CharClass::NonSpace => !is_whitespace(c),
        CharClass::Upper => 'A' <= c && c <= 'Z',
    }
}

/// The end of the longest run of characters of class `k` that starts at `i`.
pub fn skip_run(s: &Vec<char>, i: usize, k: CharClass) -> (r: usize)
    requires
        i <= s@.len(),
    ensures
        r as int == run_end(s@, i as int, k),
        i <= r <= s@.len(),
{
    let mut j = i;
    while j < s.len() && char_in_class(s[j], k)
        invariant
            i <= j <= s@.len(),
            run_end(s@, j as int, k) == run_end(s@, i as int, k),
        decreases s@.len() - j,
    {
        j = j + 1;
    }
    j
}

/// Splits a header line into its fields; `None` where the line is not one.
pub fn header_fields(line: &str) -> (r: Option<HeaderFields>)
    ensures
        r matches Some(h) ==> header_of(line@) == Some(h@),
        r is None <==> header_of(line@) is None,
{
    let s = chars_of(line);
    let n = s.len();
    let a = skip_run(&s, 0, CharClass::NonSpace);
    if a == 0 || a >= n || s[a] != ' ' {
        return None;
    }
    let b = skip_run(&s, a + 1, CharClass::NonSpace);
    if b == a + 1 {
        return None;
    }
    let c = skip_run(&s, b, CharClass::Space);
    if c == b {
        return None;
    }
    let d = skip_run(&s, c, CharClass::Upper);
    if d == c {
        return None;
    }
    let e = skip_run(&s, d, CharClass::Space);
    if e == d {
        return None;
    }
    let f = skip_run(&s, e, CharClass::NonSpace);
    if f == e {
        return None;
    }
    let g = skip_run(&s, f, CharClass::Space);
    if g == f || g >= n || s[g] != '-' {
        return None;
    }
    let h = skip_run(&s, g + 1, CharClass::Space);
    if h == g + 1 {
        return None;
    }
    Some(
        HeaderFields {
            timestamp: String::from_str(line.substring_char(0, b)),
            severity: String::from_str(line.substring_char(c, d)),
            logger: String::from_str(line.substring_char(e, f)),
            message: String::from_str(line.substring_char(h, n)),
        },
    )
}

} // verus!
