//! Normalisation of the textual timestamps found in header lines.

use vstd::prelude::*;

verus! {

/// An absolute instant: whole seconds since the Unix epoch (UTC), and the
/// milliseconds that follow the last whole second.
#[derive(Clone, Copy, Debug, PartialEq, Eq, Structural)]
pub struct Timestamp {
    pub secs: i64,
    pub millis: u32,
}

/// The timestamp text does not follow `YYYY-MM-DD HH:MM:SS` with a fraction.
#[derive(Clone, Copy, Debug, PartialEq, Eq, Structural)]
pub enum TimestampError {
    MalformedTimestamp,
}

/// The format, in chrono's notation, that a timestamp is read with once its
/// fractional separator has been turned into a period.
pub const TIMESTAMP_FORMAT: &'static str = "%Y-%m-%d %H:%M:%S%.f";

/// What chrono's `NaiveDateTime::parse_from_str(text, format)` yields, taken
/// as UTC: `None` on a parse error, otherwise the Unix seconds and the
/// milliseconds past the last whole second.
pub uninterp spec fn naive_utc_parse(text: Seq<char>, format: Seq<char>) -> Option<(i64, u32)>;

/// Relies on chrono's `NaiveDateTime::parse_from_str`, then on
/// `and_utc().timestamp()` and `and_utc().timestamp_subsec_millis()` of the
/// parsed value; the outcome depends on the two strings alone.
#[verifier::external_body]
fn chrono_parse(text: &str, format: &str) -> (r: Option<(i64, u32)>)
    ensures
        r == naive_utc_parse(text@, format@),
{
    match chrono::NaiveDateTime::parse_from_str(text, format) {
        Ok(d) => Some((d.and_utc().timestamp(), d.and_utc().timestamp_subsec_millis())),
        Err(_) => None,
    }
}

/// Relies on std's `SystemTime::now()`, turned into a UTC date and time by
/// chrono's `From<SystemTime> for DateTime<Utc>` (which also takes instants
/// before 1970), and read as Unix seconds and milliseconds past the last whole
/// second. Nothing is known of the value it returns.
#[verifier::external_body]
pub(crate) fn now_timestamp() -> (r: Timestamp) {
    let t = chrono::DateTime::<chrono::Utc>::from(std::time::SystemTime::now());
    Timestamp { secs: t.timestamp(), millis: t.timestamp_subsec_millis() }
}

/// The separator of the fractional seconds may be a comma or a period: every
/// comma is read as a period.
pub open spec fn comma_to_period(c: char) -> char {
    if c == ',' {
        '.'
    } else {
        c
    }
}

pub open spec fn dotted(s: Seq<char>) -> Seq<char> {
    s.map_values(|c: char| comma_to_period(c))
}

pub open spec fn is_digit(c: char) -> bool {
    '0' <= c && c <= '9'
}

/// What the character at position `i` of a timestamp text may be, in the
/// layout `DDDD-DD-DD DD:DD:DD` followed by a comma or a period and the
/// fraction's digits.
pub open spec fn fits_layout_at(i: int, c: char) -> bool {
    if i == 4 || i == 7 {
        c == '-'
    } else if i == 10 {
        c == ' '
    } else if i == 13 || i == 16 {
        c == ':'
    } else if i == 19 {
        c == ',' || c == '.'
    } else {
        is_digit(c)
    }
}

/// `s` is laid out as `YYYY-MM-DD HH:MM:SS` followed by a comma or a period
/// and one to three digits: every field has its fixed width and is made of
/// digits.
pub open spec fn well_laid_out(s: Seq<char>) -> bool {
    &&& 21 <= s.len() <= 23
    &&& forall|i: int| 0 <= i < s.len() ==> #[trigger] fits_layout_at(i, s[i])
}

/// The instant that a timestamp text denotes, if it is well formed.
pub open spec fn timestamp_of(text: Seq<char>) -> Option<Timestamp> {
    if !well_laid_out(text) {
        None
    } else {
        match naive_utc_parse(dotted(text), TIMESTAMP_FORMAT@) {
            Some((secs, millis)) => Some(Timestamp { secs, millis }),
            None => None,
        }
    }
}

/// Whether `s` is laid out as a timestamp text.
pub fn check_layout(s: &Vec<char>) -> (r: bool)
    ensures
        r == well_laid_out(s@),
{
    let n = s.len();
    if n < 21 || n > 23 {
        return false;
    }
    let mut i: usize = 0;
    while i < n
        invariant
            n == s@.len(),
            i <= n,
            forall|k: int| 0 <= k < i ==> #[trigger] fits_layout_at(k, s@[k]),
        decreases n - i,
    {
        let c = s[i];
        let ok = if i == 4 || i == 7 {
            c == '-'
        } else if i == 10 {
            c == ' '
        } else if i == 13 || i == 16 {
            c == ':'
        } else if i == 19 {
            c == ',' || c == '.'
        } else {
            '0' <= c && c <= '9'
        };
        if !ok {
            assert(!fits_layout_at(i as int, s@[i as int]));
            return false;
        }
        i = i + 1;
    }
    true
}

/// The text with each comma replaced by a period.
pub fn replace_commas(text: &str) -> (r: String)
    ensures
        r@ == dotted(text@),
{
    let n = text.unicode_len();
    let mut out = String::new();
    let mut start: usize = 0;
    let mut i: usize = 0;
    while i < n
        invariant
            n == text@.len(),
            start <= i <= n,
            out@ =~= dotted(text@.subrange(0, start as int)),
            forall|k: int| start <= k < i ==> text@[k] != ',',
        decreases n - i,
    {
        if text.get_char(i) == ',' {
            let piece = text.substring_char(start, i);
            let ghost before = out@;
            out.append(piece);
            out.append(".");
            proof {
                reveal_strlit(".");
            }
            assert(out@ =~= before + piece@ + seq!['.']);
            assert forall|k: int| 0 <= k < i + 1 implies out@[k] == comma_to_period(text@[k]) by {
                if k < start {
                    assert(before[k] == dotted(text@.subrange(0, start as int))[k]);
                } else if k < i {
                    assert(out@[k] == piece@[k - start]);
                }
            }
            assert(out@ =~= dotted(text@.subrange(0, i + 1)));
            start = i + 1;
        }
        i = i + 1;
    }
    let rest = text.substring_char(start, n);
    out.append(rest);
    assert(text@.subrange(0, n as int) =~= text@);
    assert(out@ =~= dotted(text@));
    out
}

/// Reads a timestamp such as `2022-03-16 01:25:11,194` (comma or period
/// before the fraction) as an instant in UTC. A text that is not laid out as
/// `YYYY-MM-DD HH:MM:SS` with a one- to three-digit fraction is malformed;
/// one that is, but names no valid date and time, is malformed too.
pub fn parse_timestamp(text: &str) -> (r: Result<Timestamp, TimestampError>)
    ensures
        r matches Ok(t) ==> timestamp_of(text@) == Some(t),
        r is Err <==> timestamp_of(text@) is None,
        !well_laid_out(text@) ==> r is Err,
{
    let chars = crate::header::chars_of(text);
    if !check_layout(&chars) {
        return Err(TimestampError::MalformedTimestamp);
    }
    let normalized = replace_commas(text);
    match chrono_parse(normalized.as_str(), TIMESTAMP_FORMAT) {
        Some((secs, millis)) => Ok(Timestamp { secs, millis }),
        None => Err(TimestampError::MalformedTimestamp),
    }
}

} // verus!
