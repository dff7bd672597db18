//! The transfer session: the running byte total, the report clock and the
//! adaptive transfer-buffer size, advanced once for each chunk forwarded.

use vstd::prelude::*;
use crate::scale::{bytes_text, format_bytes, format_flow, rate_text};
use crate::text::{decimal, padded, push_decimal, push_padded};
use crate::units::{KB_SIZE, MAX_BUF_SIZE, MB_SIZE, MIN_BUF_SIZE, NANOS_PER_SEC};

verus! {

/// How a session meters the stream.
#[derive(Clone, Copy, Debug, PartialEq, Eq, Structural)]
pub enum Mode {
    /// Live progress, with the buffer resized to the read pattern.
    Adaptive,
    /// Live progress, with a fixed buffer.
    Static,
    /// Only the final summary, with a fixed buffer.
    TotalsOnly,
}

/// The buffer size a session starts with.
pub open spec fn initial_buffer_size(mode: Mode) -> usize {
    match mode {
        Mode::Static => KB_SIZE as usize,
        _ => MB_SIZE as usize,
    }
}

/// `n` is a power of two.
pub open spec fn single_bit(n: u64) -> bool {
    n != 0 && n & ((n - 1) as u64) == 0
}

/// The buffer sizes a session of `mode` can have: a power of two within the
/// bounds when adaptive, the initial size otherwise.
pub open spec fn buffer_size_ok(mode: Mode, size: usize) -> bool {
    match mode {
        Mode::Adaptive => MIN_BUF_SIZE <= size <= MAX_BUF_SIZE && single_bit(size as u64),
        _ => size == initial_buffer_size(mode),
    }
}

/// The progress line for `bytes` forwarded after `nanos` nanoseconds; it ends
/// in a carriage return so that the next line overwrites it.
pub open spec fn progress_text(bytes: nat, nanos: nat) -> Seq<char> {
    bytes_text(bytes) + ", "@ + rate_text(bytes, nanos) + "   \r"@
}

/// Elapsed time in seconds with three decimals (truncated): `12.345 s`.
pub open spec fn duration_text(nanos: nat) -> Seq<char> {
    decimal(nanos / NANOS_PER_SEC as nat) + "."@ + padded((nanos % NANOS_PER_SEC as nat) / 1000000, 3)
        + " s"@
}

/// The final summary: the total, the elapsed time and, once at least one
/// second has passed, the rate; a shorter session shows no rate.
pub open spec fn summary_text(bytes: nat, nanos: nat) -> Seq<char> {
    bytes_text(bytes) + " in "@ + duration_text(nanos) + ", "@ + if nanos >= NANOS_PER_SEC {
        rate_text(bytes, nanos)
    } else {
        "rate n/a"@
    }
}

/// The state of one run.
pub struct Session {
    pub mode: Mode,
    /// Bytes forwarded so far.
    pub bytes_written: u64,
    /// When the last progress line was due, in nanoseconds since the start.
    pub last_report_ns: u64,
    /// How many bytes the next read asks for.
    pub buffer_size: usize,
    /// Everything forwarded so far, in order.
    pub transferred: Ghost<Seq<u8>>,
}

impl Session {
    pub open spec fn wf(self) -> bool {
        &&& self.bytes_written == self.transferred@.len()
        &&& buffer_size_ok(self.mode, self.buffer_size)
    }

    /// Nanoseconds since the last report; a clock reading before it counts
    /// as none.
    pub open spec fn since_last(self, nanos: u64) -> nat {
        if nanos >= self.last_report_ns {
            (nanos - self.last_report_ns) as nat
        } else {
            0
        }
    }

    /// A progress line is due: live progress is on and a second has passed
    /// since the last one.
    pub open spec fn reports_at(self, nanos: u64) -> bool {
        self.mode != Mode::TotalsOnly && self.since_last(nanos) >= NANOS_PER_SEC
    }

    /// The buffer size after a chunk of `len` bytes seen at `nanos`: halved
    /// when a report is due, the chunk filled the buffer, the buffer can be
    /// halved and over two seconds passed; doubled when no report is due,
    /// under a quarter second passed and the buffer can be doubled.
    pub open spec fn next_buffer_size(self, len: nat, nanos: u64) -> usize {
        let size = self.buffer_size;
        let since = self.since_last(nanos);
        if self.mode != Mode::Adaptive {
            size
        } else if self.reports_at(nanos) {
            if len == size && size >= 2 * MIN_BUF_SIZE && since > 2 * NANOS_PER_SEC {
                (size / 2) as usize
            } else {
                size
            }
        } else if size <= MAX_BUF_SIZE / 2 && since < NANOS_PER_SEC / 4 {
            (size * 2) as usize
        } else {
            size
        }
    }

    /// The session after `chunk` was forwarded at `nanos`.
    pub open spec fn after(self, chunk: Seq<u8>, nanos: u64) -> Session {
        Session {
            mode: self.mode,
            bytes_written: (self.bytes_written + chunk.len()) as u64,
            last_report_ns: if self.reports_at(nanos) {
                nanos
            } else {
                self.last_report_ns
            },
            buffer_size: self.next_buffer_size(chunk.len(), nanos),
            transferred: Ghost(self.transferred@ + chunk),
        }
    }

    /// A fresh session: nothing forwarded, the report clock at zero.
    pub fn new(mode: Mode) -> (s: Session)
        ensures
            s.mode == mode,
            s.bytes_written == 0,
            s.last_report_ns == 0,
            s.buffer_size == initial_buffer_size(mode),
            s.transferred@ == Seq::<u8>::empty(),
            s.wf(),
    {
        let buffer_size: usize = match mode {
            Mode::Static => KB_SIZE as usize,
            _ => MB_SIZE as usize,
        };
        assert(single_bit(1048576u64)) by (bit_vector);
        Session {
            mode,
            bytes_written: 0,
            last_report_ns: 0,
            buffer_size,
            transferred: Ghost(Seq::empty()),
        }
    }

    /// Accounts for `chunk`, just forwarded, `nanos` nanoseconds after the
    /// start; returns the progress line when one is due.
    pub fn record(&mut self, chunk: &[u8], nanos: u64) -> (line: Option<String>)
        requires
            old(self).wf(),
            old(self).bytes_written + chunk@.len() <= u64::MAX,
        ensures
            *final(self) == old(self).after(chunk@, nanos),
            final(self).wf(),
            line is Some <==> old(self).reports_at(nanos),
            line matches Some(l) ==> l@ == progress_text(final(self).bytes_written as nat, nanos as nat),
    {
        let len = chunk.len();
        self.bytes_written = self.bytes_written + len as u64;
        self.transferred = Ghost(self.transferred@ + chunk@);
        if self.mode == Mode::TotalsOnly {
            return None;
        }
        let since: u64 = if nanos >= self.last_report_ns {
            nanos - self.last_report_ns
        } else {
            0
        };
        if since >= NANOS_PER_SEC {
            if self.mode == Mode::Adaptive && len == self.buffer_size && self.buffer_size >= 2
                * MIN_BUF_SIZE && since > 2 * NANOS_PER_SEC {
                proof { lemma_halve_single_bit(self.buffer_size as u64); }
                self.buffer_size = self.buffer_size / 2;
            }
            self.last_report_ns = nanos;
            let mut out = format_bytes(self.bytes_written);
            out.append(", ");
            let rate = format_flow(self.bytes_written, nanos);
            out.append(rate.as_str());
            out.append("   \r");
            assert(out@ =~= progress_text(self.bytes_written as nat, nanos as nat));
            Some(out)
        } else {
            if self.mode == Mode::Adaptive && self.buffer_size <= MAX_BUF_SIZE / 2 && since
                < NANOS_PER_SEC / 4 {
                proof { lemma_double_single_bit(self.buffer_size as u64); }
                self.buffer_size = self.buffer_size * 2;
            }
            None
        }
    }

    /// The final summary, `nanos` nanoseconds after the start; it ends the
    /// session.
    pub fn finish(self, nanos: u64) -> (r: String)
        ensures
            r@ == summary_text(self.bytes_written as nat, nanos as nat),
    {
        let mut out = format_bytes(self.bytes_written);
        out.append(" in ");
        push_decimal(&mut out, nanos / NANOS_PER_SEC);
        out.append(".");
        push_padded(&mut out, (nanos % NANOS_PER_SEC) / 1000000, 3);
        out.append(" s, ");
        if nanos >= NANOS_PER_SEC {
            let rate = format_flow(self.bytes_written, nanos);
            out.append(rate.as_str());
        } else {
            out.append("rate n/a");
        }
        proof {
            reveal_strlit(" s, ");
            reveal_strlit(" s");
            reveal_strlit(", ");
        }
        assert(out@ =~= summary_text(self.bytes_written as nat, nanos as nat));
        out
    }
}

pub proof fn lemma_halve_single_bit(b: u64)
    by (bit_vector)
    requires
        b & ((b - 1) as u64) == 0,
        b >= 512,
    ensures
        b % 2 == 0,
        (b / 2) & (((b / 2) - 1) as u64) == 0,
{
}

pub proof fn lemma_double_single_bit(b: u64)
    by (bit_vector)
    requires
        b & ((b - 1) as u64) == 0,
        1 <= b <= 16777216,
    ensures
        ((b * 2) as u64) & (((b * 2) - 1) as u64) == 0,
{
}

} // verus!
