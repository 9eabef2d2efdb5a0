//! Properties of line classification and record assembly.

use vstd::prelude::*;
use crate::assemble::{
    entry_of, line_view, line_views, records_of, run, step, AssemblerView, EntryView,
    LineView, LogEvent,
};
use crate::header::header_of;
use crate::timestamp::{timestamp_of, Timestamp};

verus! {

/// The lines of `ts` joined in order, with nothing in between.
pub open spec fn joined(ts: Seq<Seq<char>>) -> Seq<char>
    decreases ts.len(),
{
    if ts.len() == 0 {
        Seq::empty()
    } else {
        joined(ts.drop_last()) + ts.last()
    }
}

/// How many events of `evs` report a malformed timestamp.
pub open spec fn count_malformed(evs: Seq<LogEvent>) -> nat
    decreases evs.len(),
{
    if evs.len() == 0 {
        0
    } else {
        count_malformed(evs.drop_last()) + if evs.last() is MalformedTimestamp {
            1nat
        } else {
            0nat
        }
    }
}

/// How many events of `evs` report a continuation line with no open record.
pub open spec fn count_unattachable(evs: Seq<LogEvent>) -> nat
    decreases evs.len(),
{
    if evs.len() == 0 {
        0
    } else {
        count_unattachable(evs.drop_last()) + if evs.last() is UnattachableContinuation {
            1nat
        } else {
            0nat
        }
    }
}

proof fn lemma_line_views_drop_last(lines: Seq<Seq<char>>, nows: Seq<Timestamp>)
    requires
        lines.len() > 0,
        nows.len() == lines.len(),
    ensures
        line_views(lines, nows).drop_last() == line_views(lines.drop_last(), nows.drop_last()),
        line_views(lines, nows).last() == line_view(lines.last(), nows.last()),
{
    assert(line_views(lines, nows).drop_last() =~= line_views(
        lines.drop_last(),
        nows.drop_last(),
    ));
}

/// Header lines alone give one record each, in input order, each the record
/// that its line opens from its own fields.
pub proof fn lemma_header_lines_give_their_records(lines: Seq<Seq<char>>, nows: Seq<Timestamp>)
    requires
        nows.len() == lines.len(),
        forall|i: int| 0 <= i < lines.len() ==> (#[trigger] header_of(lines[i])) is Some,
    ensures
        records_of(run(line_views(lines, nows))).len() == lines.len(),
        forall|i: int|
            0 <= i < lines.len() ==> records_of(run(line_views(lines, nows)))[i] == entry_of(
                (#[trigger] header_of(lines[i]))->0,
                nows[i],
            ),
    decreases lines.len(),
{
    if lines.len() > 0 {
        let pl = lines.drop_last();
        let pn = nows.drop_last();
        assert forall|i: int| 0 <= i < pl.len() implies (#[trigger] header_of(pl[i])) is Some by {
            assert(pl[i] == lines[i]);
        }
        lemma_header_lines_give_their_records(pl, pn);
        lemma_line_views_drop_last(lines, nows);
        let n = lines.len() - 1;
        assert(header_of(lines[n]) is Some);
        assert forall|i: int| 0 <= i < lines.len() implies records_of(
            run(line_views(lines, nows)),
        )[i] == entry_of((#[trigger] header_of(lines[i]))->0, nows[i]) by {
            if i < n {
                assert(pl[i] == lines[i]);
                assert(header_of(pl[i]) is Some);
            }
        }
    }
}

/// A header line followed by lines that are not header lines gives one record,
/// whose message is the header's message followed by the full text of each of
/// those lines, in order, with no separator.
pub proof fn lemma_continuations_extend_message(lines: Seq<Seq<char>>, nows: Seq<Timestamp>)
    requires
        lines.len() >= 1,
        nows.len() == lines.len(),
        header_of(lines[0]) is Some,
        forall|i: int| 1 <= i < lines.len() ==> (#[trigger] header_of(lines[i])) is None,
    ensures
        records_of(run(line_views(lines, nows))) == seq![
            EntryView {
                message: header_of(lines[0])->0.message + joined(lines.drop_first()),
                ..entry_of(header_of(lines[0])->0, nows[0])
            },
        ],
        run(line_views(lines, nows)).closed.len() == 0,
    decreases lines.len(),
{
    let h = header_of(lines[0])->0;
    let e = entry_of(h, nows[0]);
    if lines.len() == 1 {
        lemma_line_views_drop_last(lines, nows);
        assert(lines.drop_first() =~= Seq::<Seq<char>>::empty());
        assert(run(line_views(lines, nows).drop_last()) == run(Seq::<LineView>::empty()));
        assert(e.message + joined(lines.drop_first()) =~= e.message);
        assert(records_of(run(line_views(lines, nows))) =~= seq![e]);
    } else {
        let pl = lines.drop_last();
        let pn = nows.drop_last();
        assert forall|i: int| 1 <= i < pl.len() implies (#[trigger] header_of(pl[i])) is None by {
            assert(pl[i] == lines[i]);
        }
        assert(pl[0] == lines[0]);
        lemma_continuations_extend_message(pl, pn);
        lemma_line_views_drop_last(lines, nows);
        let last = lines.last();
        assert(header_of(lines[lines.len() - 1]) is None);
        assert(lines.drop_first().drop_last() =~= pl.drop_first());
        assert(lines.drop_first().last() == last);
        let prev = run(line_views(pl, pn));
        assert(records_of(prev).len() == 1);
        assert(prev.open is Some);
        assert(records_of(prev)[0] == prev.open->0);
        assert(prev.open == Some(
            EntryView { message: h.message + joined(pl.drop_first()), ..e },
        ));
        assert(h.message + joined(lines.drop_first()) =~= h.message + joined(pl.drop_first())
            + last);
        assert(records_of(run(line_views(lines, nows))) =~= seq![
            EntryView { message: h.message + joined(lines.drop_first()), ..e },
        ]);
    }
}

/// Classifying a line depends on the line alone: read at any two instants, it
/// is of the same kind, with the same severity, logger and message and the same
/// verdict on its timestamp, and, where that timestamp is well formed, the same
/// timestamp.
pub proof fn lemma_classification_is_deterministic(s: Seq<char>, now1: Timestamp, now2: Timestamp)
    ensures
        line_view(s, now1) is Header <==> line_view(s, now2) is Header,
        line_view(s, now1) is Continuation ==> line_view(s, now1) == line_view(s, now2),
        line_view(s, now1) matches LineView::Header { entry: e1, timestamp_ok: ok1 } ==> (
        line_view(s, now2) matches LineView::Header { entry: e2, timestamp_ok: ok2 } && ok1
            == ok2 && e1.severity == e2.severity && e1.logger == e2.logger && e1.message
            == e2.message && (ok1 ==> e1 == e2)),
{
}

/// From any state of an assembly, a header line whose timestamp is not well
/// formed still opens exactly one record, which carries the instant at which
/// the line was read; it adds one malformed-timestamp event and no other.
pub proof fn lemma_malformed_timestamp_falls_back(
    st: AssemblerView,
    s: Seq<char>,
    now: Timestamp,
)
    requires
        header_of(s) is Some,
        timestamp_of(header_of(s)->0.timestamp) is None,
    ensures
        records_of(step(st, line_view(s, now))).len() == records_of(st).len() + 1,
        records_of(step(st, line_view(s, now))).drop_last() == records_of(st),
        records_of(step(st, line_view(s, now))).last().timestamp == now,
        count_malformed(step(st, line_view(s, now)).events) == count_malformed(st.events) + 1,
        count_unattachable(step(st, line_view(s, now)).events) == count_unattachable(st.events),
{
    let st2 = step(st, line_view(s, now));
    assert(st2.events.drop_last() =~= st.events);
    assert(records_of(st2).drop_last() =~= records_of(st));
}

/// Lines that are not header lines, before any header line, give no record;
/// each is reported, with its index, as a continuation with no open record.
pub proof fn lemma_orphan_continuations(lines: Seq<Seq<char>>, nows: Seq<Timestamp>)
    requires
        nows.len() == lines.len(),
        forall|i: int| 0 <= i < lines.len() ==> (#[trigger] header_of(lines[i])) is None,
    ensures
        records_of(run(line_views(lines, nows))).len() == 0,
        (run(line_views(lines, nows)).open is None),
        run(line_views(lines, nows)).events.len() == lines.len(),
        count_unattachable(run(line_views(lines, nows)).events) == lines.len(),
        count_malformed(run(line_views(lines, nows)).events) == 0,
        forall|i: int|
            0 <= i < lines.len() ==> #[trigger] run(line_views(lines, nows)).events[i]
                == (LogEvent::UnattachableContinuation { line: i as usize }),
        run(line_views(lines, nows)).consumed == lines.len(),
    decreases lines.len(),
{
    if lines.len() > 0 {
        let pl = lines.drop_last();
        let pn = nows.drop_last();
        assert forall|i: int| 0 <= i < pl.len() implies (#[trigger] header_of(pl[i])) is None by {
            assert(pl[i] == lines[i]);
        }
        lemma_orphan_continuations(pl, pn);
        lemma_line_views_drop_last(lines, nows);
        assert(header_of(lines[lines.len() - 1]) is None);
        let evs = run(line_views(lines, nows)).events;
        assert(evs.drop_last() =~= run(line_views(pl, pn)).events);
    }
}

} // verus!
