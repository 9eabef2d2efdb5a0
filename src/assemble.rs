//! Log records, the classification of physical lines, and the assembly of
//! records from an ordered sequence of lines.

use vstd::prelude::*;
use crate::header::{header_fields, header_of, HeaderView};
use crate::timestamp::{now_timestamp, parse_timestamp, timestamp_of, Timestamp, TimestampError};

verus! {

/// A log record as values.
pub struct EntryView {
    pub timestamp: Timestamp,
    pub severity: Seq<char>,
    pub logger: Seq<char>,
    pub message: Seq<char>,
}

/// One logical log record.
#[derive(Debug, PartialEq, Eq)]
pub struct LogEntry {
    pub timestamp: Timestamp,
    pub severity: String,
    pub logger: String,
    pub message: String,
}

impl View for LogEntry {
    type V = EntryView;

    open spec fn view(&self) -> EntryView {
        EntryView {
            timestamp: self.timestamp,
            severity: self.severity@,
            logger: self.logger@,
            message: self.message@,
        }
    }
}

/// What a physical line is, as values.
pub enum LineView {
    Header { entry: EntryView, timestamp_ok: bool },
    Continuation { text: Seq<char> },
}

/// What a physical line is: a header line, with the record that it opens and
/// whether its timestamp was well formed, or a continuation line with its text.
#[derive(Debug, PartialEq, Eq)]
pub enum ParsedLine {
    Header { entry: LogEntry, timestamp_ok: bool },
    Continuation { text: String },
}

impl View for ParsedLine {
    type V = LineView;

    open spec fn view(&self) -> LineView {
        match self {
            ParsedLine::Header { entry, timestamp_ok } => LineView::Header {
                entry: entry@,
                timestamp_ok: *timestamp_ok,
            },
            ParsedLine::Continuation { text } => LineView::Continuation { text: text@ },
        }
    }
}

/// The record that the fields of a header line open, where `now` stands in
/// for a timestamp that is not well formed.
pub open spec fn entry_of(h: HeaderView, now: Timestamp) -> EntryView {
    EntryView {
        timestamp: match timestamp_of(h.timestamp) {
            Some(t) => t,
            None => now,
        },
        severity: h.severity,
        logger: h.logger,
        message: h.message,
    }
}

/// The classification of line `s`, read at the instant `now`.
pub open spec fn line_view(s: Seq<char>, now: Timestamp) -> LineView {
    match header_of(s) {
        Some(h) => LineView::Header {
            entry: entry_of(h, now),
            timestamp_ok: timestamp_of(h.timestamp) is Some,
        },
        None => LineView::Continuation { text: s },
    }
}

/// The record that line `s` opens, read at the instant `now`.
pub open spec fn header_entry(s: Seq<char>, now: Timestamp) -> Option<EntryView> {
    match header_of(s) {
        Some(h) => Some(entry_of(h, now)),
        None => None,
    }
}

pub open spec fn entry_view_opt(r: Option<LogEntry>) -> Option<EntryView> {
    match r {
        Some(e) => Some(e@),
        None => None,
    }
}

/// Classifies `line`, with `now` as the timestamp of a header line whose own
/// timestamp is not well formed.
pub fn classify_line_at(line: &str, now: Timestamp) -> (r: ParsedLine)
    ensures
        r@ == line_view(line@, now),
{
    match header_fields(line) {
        Some(h) => {
            let (timestamp, timestamp_ok) = match parse_timestamp(h.timestamp.as_str()) {
                Ok(t) => (t, true),
                Err(_) => (now, false),
            };
            ParsedLine::Header {
                entry: LogEntry {
                    timestamp,
                    severity: h.severity,
                    logger: h.logger,
                    message: h.message,
                },
                timestamp_ok,
            }
        },
        None => ParsedLine::Continuation { text: String::from_str(line) },
    }
}

/// Classifies `line`; a header line whose timestamp is not well formed gets
/// the current time.
pub fn classify_line(line: &str) -> (r: ParsedLine)
    ensures
        exists|now: Timestamp| r@ == #[trigger] line_view(line@, now),
{
    let now = now_timestamp();
    classify_line_at(line, now)
}

/// The record of a parsed entry, as values.
pub open spec fn parsed_entry_view(r: Option<(LogEntry, Option<TimestampError>)>) -> Option<
    EntryView,
> {
    match r {
        Some((e, _)) => Some(e@),
        None => None,
    }
}

impl LogEntry {
    /// The record that `line` opens, if it is a header line, with the error of
    /// its timestamp where that timestamp is not well formed: the record then
    /// carries the current time instead.
    pub fn parse_log_entry(line: &str) -> (r: Option<(LogEntry, Option<TimestampError>)>)
        ensures
            r is Some <==> header_of(line@) is Some,
            exists|now: Timestamp| parsed_entry_view(r) == #[trigger] header_entry(line@, now),
            r matches Some((_, err)) ==> (err is None <==> timestamp_of(
                header_of(line@)->0.timestamp,
            ) is Some),
    {
        let now = now_timestamp();
        let r = match classify_line_at(line, now) {
            ParsedLine::Header { entry, timestamp_ok } => {
                let err = if timestamp_ok {
                    None
                } else {
                    Some(TimestampError::MalformedTimestamp)
                };
                Some((entry, err))
            },
            ParsedLine::Continuation { .. } => None,
        };
        assert(parsed_entry_view(r) == header_entry(line@, now));
        r
    }
}

/// Reads the record of a header line; `Err(())` where the line is not one. A
/// timestamp that is not well formed is replaced by the current time, and
/// nothing in the result tells so: `LogEntry::parse_log_entry` reports it.
impl std::str::FromStr for LogEntry {
    type Err = ();

    fn from_str(s: &str) -> (r: Result<LogEntry, ()>)
        ensures
            r is Ok <==> header_of(s@) is Some,
            exists|now: Timestamp|
                (match r {
                    Ok(e) => Some(e@),
                    Err(_) => None::<EntryView>,
                }) == #[trigger] header_entry(s@, now),
    {
        match LogEntry::parse_log_entry(s) {
            Some((e, _)) => Ok(e),
            None => Err(()),
        }
    }
}

/// What is reported while lines are assembled; `line` is the line's index,
/// counting from zero.
#[derive(Clone, Copy, Debug, PartialEq, Eq, Structural)]
pub enum LogEvent {
    /// A header line whose timestamp is not well formed: its record carries
    /// the time at which the line was read instead.
    MalformedTimestamp { line: usize },
    /// A continuation line with no open record: it is dropped.
    UnattachableContinuation { line: usize },
}

/// The state of an assembly, as values: the records closed so far, the open
/// record, the events so far, and how many lines were fed.
pub struct AssemblerView {
    pub closed: Seq<EntryView>,
    pub open: Option<EntryView>,
    pub events: Seq<LogEvent>,
    pub consumed: nat,
}

pub open spec fn initial_view() -> AssemblerView {
    AssemblerView { closed: Seq::empty(), open: None, events: Seq::empty(), consumed: 0 }
}

/// The effect of one line on an assembly.
pub open spec fn step(st: AssemblerView, l: LineView) -> AssemblerView {
    match l {
        LineView::Header { entry, timestamp_ok } => AssemblerView {
            closed: match st.open {
                Some(o) => st.closed.push(o),
                None => st.closed,
            },
            open: Some(entry),
            events: if timestamp_ok {
                st.events
            } else {
                st.events.push(LogEvent::MalformedTimestamp { line: st.consumed as usize })
            },
            consumed: st.consumed + 1,
        },
        LineView::Continuation { text } => match st.open {
            Some(o) => AssemblerView {
                open: Some(EntryView { message: o.message + text, ..o }),
                consumed: st.consumed + 1,
                ..st
            },
            None => AssemblerView {
                events: st.events.push(
                    LogEvent::UnattachableContinuation { line: st.consumed as usize },
                ),
                consumed: st.consumed + 1,
                ..st
            },
        },
    }
}

/// The state after the lines `ls`, fed in order from the initial state.
pub open spec fn run(ls: Seq<LineView>) -> AssemblerView
    decreases ls.len(),
{
    if ls.len() == 0 {
        initial_view()
    } else {
        step(run(ls.drop_last()), ls.last())
    }
}

/// The records of an assembly once the input has ended: the open record, if
/// any, is closed.
pub open spec fn records_of(st: AssemblerView) -> Seq<EntryView> {
    match st.open {
        Some(o) => st.closed.push(o),
        None => st.closed,
    }
}

/// The records and events that the lines `ls` give.
pub open spec fn assembled(ls: Seq<LineView>) -> (Seq<EntryView>, Seq<LogEvent>) {
    (records_of(run(ls)), run(ls).events)
}

/// The classification of each line of `lines`, the line at index `i` read at
/// the instant `nows[i]`.
pub open spec fn line_views(lines: Seq<Seq<char>>, nows: Seq<Timestamp>) -> Seq<LineView> {
    Seq::new(lines.len(), |i: int| line_view(lines[i], nows[i]))
}

/// The text of each line.
pub open spec fn texts_of(lines: Seq<String>) -> Seq<Seq<char>> {
    lines.map_values(|l: String| l@)
}

pub open spec fn entry_views(v: Seq<LogEntry>) -> Seq<EntryView> {
    v.map_values(|e: LogEntry| e@)
}

/// Folds an ordered sequence of classified lines into records; it holds at
/// most one open record, to which continuation lines are appended.
pub struct Assembler {
    closed: Vec<LogEntry>,
    open: Option<LogEntry>,
    events: Vec<LogEvent>,
    consumed: usize,
}

impl View for Assembler {
    type V = AssemblerView;

    closed spec fn view(&self) -> AssemblerView {
        AssemblerView {
            closed: entry_views(self.closed@),
            open: entry_view_opt(self.open),
            events: self.events@,
            consumed: self.consumed as nat,
        }
    }
}

/// The records of an assembly, in order of first appearance, and the events
/// reported on the way.
#[derive(Debug, PartialEq, Eq)]
pub struct Assembled {
    pub records: Vec<LogEntry>,
    pub events: Vec<LogEvent>,
}

impl View for Assembled {
    type V = (Seq<EntryView>, Seq<LogEvent>);

    open spec fn view(&self) -> (Seq<EntryView>, Seq<LogEvent>) {
        (entry_views(self.records@), self.events@)
    }
}

impl Assembler {
    pub fn new() -> (r: Assembler)
        ensures
            r@ == initial_view(),
    {
        let r = Assembler { closed: Vec::new(), open: None, events: Vec::new(), consumed: 0 };
        assert(r@.closed =~= Seq::<EntryView>::empty());
        r
    }

    /// How many lines were fed.
    pub fn consumed(&self) -> (r: usize)
        ensures
            r == self@.consumed,
    {
        self.consumed
    }

    /// Feeds the next line.
    pub fn push_line(&mut self, line: ParsedLine)
        requires
            old(self)@.consumed < usize::MAX,
        ensures
            final(self)@ == step(old(self)@, line@),
    {
        let index = self.consumed;
        match line {
            ParsedLine::Header { entry, timestamp_ok } => {
                let ghost before = self.closed@;
                match self.open.take() {
                    Some(o) => {
                        self.closed.push(o);
                        assert(entry_views(self.closed@) =~= entry_views(before).push(o@));
                    },
                    None => {},
                }
                self.open = Some(entry);
                if !timestamp_ok {
                    self.events.push(LogEvent::MalformedTimestamp { line: index });
                }
            },
            ParsedLine::Continuation { text } => {
                match self.open.take() {
                    Some(o) => {
                        let mut o = o;
                        o.message.append(text.as_str());
                        self.open = Some(o);
                    },
                    None => {
                        self.events.push(LogEvent::UnattachableContinuation { line: index });
                    },
                }
            },
        }
        self.consumed = index + 1;
    }

    /// Ends the input: the open record, if any, is closed.
    pub fn finish(self) -> (r: Assembled)
        ensures
            r@ == (records_of(self@), self@.events),
    {
        let mut closed = self.closed;
        let ghost before = closed@;
        match self.open {
            Some(o) => {
                closed.push(o);
                assert(entry_views(closed@) =~= entry_views(before).push(o@));
            },
            None => {},
        }
        Assembled { records: closed, events: self.events }
    }
}

/// Assembles the records of `lines`, in order. A header line whose timestamp
/// is not well formed gets the time at which it was read.
pub fn assemble(lines: &Vec<String>) -> (r: Assembled)
    ensures
        exists|nows: Seq<Timestamp>|
            nows.len() == lines@.len() && r@ == assembled(
                #[trigger] line_views(texts_of(lines@), nows),
            ),
{
    let ghost texts = texts_of(lines@);
    let ghost nows: Seq<Timestamp> = Seq::empty();
    let mut state = Assembler::new();
    let mut i: usize = 0;
    assert(line_views(texts.subrange(0, 0), nows) =~= Seq::<LineView>::empty());
    while i < lines.len()
        invariant
            i <= lines@.len(),
            texts == texts_of(lines@),
            nows.len() == i,
            state@ == run(line_views(texts.subrange(0, i as int), nows)),
            state@.consumed == i,
        decreases lines@.len() - i,
    {
        let parsed = classify_line(lines[i].as_str());
        let ghost now = choose|now: Timestamp| parsed@ == line_view(lines@[i as int]@, now);
        let ghost prev = line_views(texts.subrange(0, i as int), nows);
        proof {
            nows = nows.push(now);
        }
        let ghost next = line_views(texts.subrange(0, i + 1), nows);
        assert(next.drop_last() =~= prev);
        assert(next.last() == parsed@);
        state.push_line(parsed);
        i = i + 1;
    }
    assert(texts.subrange(0, i as int) =~= texts);
    state.finish()
}

} // verus!
