//! Runs of a session over a sequence of forwarded chunks, and what holds of
//! every run.

use vstd::prelude::*;
use crate::session::{buffer_size_ok, lemma_double_single_bit, lemma_halve_single_bit, Mode, Session};
use crate::units::{MAX_BUF_SIZE, MIN_BUF_SIZE, NANOS_PER_SEC};

verus! {

/// The session after each chunk of `steps` was forwarded in turn, each with
/// the clock reading taken after it.
pub open spec fn run(s: Session, steps: Seq<(Seq<u8>, u64)>) -> Session
    decreases steps.len(),
{
    if steps.len() == 0 {
        s
    } else {
        run(s, steps.drop_last()).after(steps.last().0, steps.last().1)
    }
}

/// The clock readings at which a run emitted a progress line, in order.
pub open spec fn report_times(s: Session, steps: Seq<(Seq<u8>, u64)>) -> Seq<u64>
    decreases steps.len(),
{
    if steps.len() == 0 {
        Seq::empty()
    } else {
        let before = run(s, steps.drop_last());
        report_times(s, steps.drop_last()) + if before.reports_at(steps.last().1) {
            seq![steps.last().1]
        } else {
            Seq::empty()
        }
    }
}

/// The chunks of a run laid end to end.
pub open spec fn stream(steps: Seq<(Seq<u8>, u64)>) -> Seq<u8>
    decreases steps.len(),
{
    if steps.len() == 0 {
        Seq::empty()
    } else {
        stream(steps.drop_last()) + steps.last().0
    }
}

/// One step keeps the buffer size among those its mode allows; when
/// adaptive, the size stays, doubles or halves exactly.
pub proof fn lemma_buffer_step(s: Session, chunk: Seq<u8>, nanos: u64)
    requires
        buffer_size_ok(s.mode, s.buffer_size),
    ensures
        buffer_size_ok(s.mode, s.after(chunk, nanos).buffer_size),
        ({
            let b = s.after(chunk, nanos).buffer_size;
            b == s.buffer_size || b == 2 * s.buffer_size || 2 * b == s.buffer_size
        }),
{
    let b = s.after(chunk, nanos).buffer_size;
    if s.mode == Mode::Adaptive && b != s.buffer_size {
        if b < s.buffer_size {
            lemma_halve_single_bit(s.buffer_size as u64);
        } else {
            lemma_double_single_bit(s.buffer_size as u64);
        }
    }
}

/// Splitting a run: running `a` then `b` is running `a + b`.
pub proof fn lemma_run_concat(s: Session, a: Seq<(Seq<u8>, u64)>, b: Seq<(Seq<u8>, u64)>)
    ensures
        run(s, a + b) == run(run(s, a), b),
        stream(a + b) == stream(a) + stream(b),
    decreases b.len(),
{
    if b.len() == 0 {
        assert(a + b =~= a);
        assert(stream(a) + stream(b) =~= stream(a));
    } else {
        assert((a + b).drop_last() =~= a + b.drop_last());
        assert((a + b).last() == b.last());
        lemma_run_concat(s, a, b.drop_last());
        assert(stream(a) + stream(b) =~= stream(a) + stream(b.drop_last()) + b.last().0);
    }
}

/// Fidelity and accounting: the session's record of the stream is every
/// forwarded chunk, unchanged and in order, whatever the buffer sizes were,
/// and the byte total is the sum of the chunk sizes.
pub proof fn lemma_forwarded_in_order(s: Session, steps: Seq<(Seq<u8>, u64)>)
    requires
        s.wf(),
        s.bytes_written + stream(steps).len() <= u64::MAX,
    ensures
        run(s, steps).transferred@ == s.transferred@ + stream(steps),
        run(s, steps).bytes_written == s.bytes_written + stream(steps).len(),
        run(s, steps).wf(),
    decreases steps.len(),
{
    if steps.len() == 0 {
        assert(s.transferred@ + stream(steps) =~= s.transferred@);
    } else {
        let prev = steps.drop_last();
        lemma_forwarded_in_order(s, prev);
        lemma_buffer_step(run(s, prev), steps.last().0, steps.last().1);
        assert(s.transferred@ + stream(steps) =~= s.transferred@ + stream(prev) + steps.last().0);
    }
}

/// The byte total never decreases: after more chunks it is at least what it
/// was, and it grows by exactly their sizes.
pub proof fn lemma_bytes_never_decrease(
    s: Session,
    a: Seq<(Seq<u8>, u64)>,
    b: Seq<(Seq<u8>, u64)>,
)
    requires
        s.wf(),
        s.bytes_written + stream(a + b).len() <= u64::MAX,
    ensures
        run(s, a).bytes_written <= run(s, a + b).bytes_written,
        run(s, a + b).bytes_written == run(s, a).bytes_written + stream(b).len(),
{
    lemma_run_concat(s, a, b);
    lemma_forwarded_in_order(s, a);
    lemma_forwarded_in_order(run(s, a), b);
}

/// In adaptive mode the buffer size stays a power of two within
/// `[MIN_BUF_SIZE, MAX_BUF_SIZE]`, and each step keeps, doubles or halves it.
pub proof fn lemma_adaptive_buffer_bounds(s: Session, steps: Seq<(Seq<u8>, u64)>)
    requires
        s.mode == Mode::Adaptive,
        buffer_size_ok(s.mode, s.buffer_size),
    ensures
        run(s, steps).mode == Mode::Adaptive,
        MIN_BUF_SIZE <= run(s, steps).buffer_size <= MAX_BUF_SIZE,
        buffer_size_ok(Mode::Adaptive, run(s, steps).buffer_size),
        steps.len() > 0 ==> ({
            let a = run(s, steps.drop_last()).buffer_size;
            let b = run(s, steps).buffer_size;
            b == a || b == 2 * a || 2 * b == a
        }),
    decreases steps.len(),
{
    if steps.len() > 0 {
        lemma_adaptive_buffer_bounds(s, steps.drop_last());
        lemma_buffer_step(run(s, steps.drop_last()), steps.last().0, steps.last().1);
    }
}

/// Outside adaptive mode the buffer keeps its size for the whole run.
pub proof fn lemma_fixed_buffer(s: Session, steps: Seq<(Seq<u8>, u64)>)
    requires
        s.mode != Mode::Adaptive,
    ensures
        run(s, steps).mode == s.mode,
        run(s, steps).buffer_size == s.buffer_size,
    decreases steps.len(),
{
    if steps.len() > 0 {
        lemma_fixed_buffer(s, steps.drop_last());
    }
}

/// Progress lines are rate-limited: each comes at least a second after the
/// previous one (and after the session's last report before the run), and
/// the session remembers the latest.
pub proof fn lemma_reports_spaced(s: Session, steps: Seq<(Seq<u8>, u64)>)
    ensures
        forall|i: int, j: int|
            0 <= i < j < report_times(s, steps).len() ==> #[trigger] report_times(s, steps)[i] + NANOS_PER_SEC
                <= #[trigger] report_times(s, steps)[j],
        forall|i: int|
            0 <= i < report_times(s, steps).len() ==> s.last_report_ns + NANOS_PER_SEC
                <= #[trigger] report_times(s, steps)[i] <= run(s, steps).last_report_ns,
        report_times(s, steps).len() > 0 ==> report_times(s, steps).last() == run(
            s,
            steps,
        ).last_report_ns,
        s.last_report_ns <= run(s, steps).last_report_ns,
    decreases steps.len(),
{
    if steps.len() > 0 {
        let prev = steps.drop_last();
        lemma_reports_spaced(s, prev);
        let before = run(s, prev);
        let t = steps.last().1;
        let old_times = report_times(s, prev);
        let times = report_times(s, steps);
        if before.reports_at(t) {
            assert(times =~= old_times.push(t));
            assert forall|i: int, j: int| 0 <= i < j < times.len() implies #[trigger] times[i] + NANOS_PER_SEC
                <= #[trigger] times[j] by {
                if j == times.len() - 1 {
                    assert(times[i] == old_times[i]);
                } else {
                    assert(times[i] == old_times[i]);
                    assert(times[j] == old_times[j]);
                }
            }
            assert forall|i: int| 0 <= i < times.len() implies s.last_report_ns + NANOS_PER_SEC
                <= #[trigger] times[i] <= run(s, steps).last_report_ns by {
                if i < old_times.len() {
                    assert(times[i] == old_times[i]);
                }
            }
        } else {
            assert(times =~= old_times);
        }
    }
}

/// A totals-only run emits no progress line; the final summary is its only
/// line.
pub proof fn lemma_totals_only_silent(s: Session, steps: Seq<(Seq<u8>, u64)>)
    requires
        s.mode == Mode::TotalsOnly,
    ensures
        run(s, steps).mode == Mode::TotalsOnly,
        report_times(s, steps).len() == 0,
    decreases steps.len(),
{
    if steps.len() > 0 {
        lemma_totals_only_silent(s, steps.drop_last());
    }
}

} // verus!
