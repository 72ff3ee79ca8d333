//! Progress reporting: the derived figures of a snapshot, the text of a
//! progress line, and when a periodic line is due.
use vstd::prelude::*;
use vstd::string::StringExecFns;

use crate::blocks::Stats;

verus! {

/// Milliseconds between two periodic progress lines.
pub const REPORT_INTERVAL_MS: u64 = 30000;

/// Bytes in one mebibyte.
pub const MIB: u64 = 1048576;

/// The decimal digit `d` as a character.
pub open spec fn digit_char(d: nat) -> char {
    (d + 48) as char
}

/// `n` written in decimal, without leading zeros.
pub open spec fn decimal(n: nat) -> Seq<char>
    decreases n,
{
    if n < 10 {
        seq![digit_char(n)]
    } else {
        decimal(n / 10) + seq![digit_char(n % 10)]
    }
}

/// `n` written in decimal with at least two digits.
pub open spec fn two_digits(n: nat) -> Seq<char> {
    if n < 10 {
        "0"@ + decimal(n)
    } else {
        decimal(n)
    }
}

/// Tenths of a percent, written with one decimal and right-aligned in five
/// columns (any value up to `100.0` fits).
pub open spec fn percent_text(tenths: nat) -> Seq<char> {
    let pad = if tenths < 100 {
        "  "@
    } else if tenths < 1000 {
        " "@
    } else {
        ""@
    };
    pad + decimal(tenths / 10) + "."@ + decimal(tenths % 10)
}

/// Hundredths, written with two decimals; a rate that cannot be measured
/// yet reads as zero.
pub open spec fn rate_text(hundredths: Option<u128>) -> Seq<char> {
    match hundredths {
        Some(h) => decimal(h as nat / 100) + "."@ + two_digits(h as nat % 100),
        None => "0.00"@,
    }
}

/// `n / d` rounded to the nearest integer, halves rounded up.
pub open spec fn rounded_div(n: nat, d: nat) -> nat
    recommends
        d > 0,
{
    (2 * n + d) / (2 * d)
}

/// Completion in tenths of a percent; a source without blocks is complete.
pub open spec fn percent_tenths_of(stats: Stats) -> nat {
    if stats.total == 0 {
        1000
    } else {
        rounded_div(1000 * stats.processed(), stats.total as nat)
    }
}

/// Throughput in hundredths of a MiB per second over `elapsed_ms`
/// milliseconds; none while no time has passed.
pub open spec fn throughput_of(stats: Stats, elapsed_ms: nat) -> Option<nat> {
    if elapsed_ms == 0 {
        None
    } else {
        Some(
            rounded_div(
                stats.processed() * (stats.blocksize as nat) * 100000,
                MIB as nat * elapsed_ms,
            ),
        )
    }
}

/// Elapsed whole seconds as `HH:MM:SS`; hours are not bounded.
pub open spec fn clock_text(secs: nat) -> Seq<char> {
    two_digits(secs / 3600) + ":"@ + two_digits(secs / 60 % 60) + ":"@ + two_digits(secs % 60)
}

/// The throughput of `throughput_of`, in the width of the executable type.
pub open spec fn rate_of(stats: Stats, elapsed_ms: nat) -> Option<u128> {
    match throughput_of(stats, elapsed_ms) {
        Some(h) => Some(h as u128),
        None => None,
    }
}

/// The progress line for `stats` after `elapsed_ms` milliseconds: elapsed
/// time as hours, minutes and seconds, completion, the ok, bad and remaining
/// block counts, and the throughput.
pub open spec fn progress_text(stats: Stats, elapsed_ms: nat) -> Seq<char> {
    "["@ + clock_text(elapsed_ms / 1000) + " | "@ + percent_text(percent_tenths_of(stats)) + "%] "@
        + decimal(stats.count_ok as nat) + " ok, "@ + decimal(stats.count_bad as nat) + " bad, "@
        + decimal((stats.total - stats.processed()) as nat) + " remaining ("@ + rate_text(
        rate_of(stats, elapsed_ms),
    ) + " MiB/s)"@
}

/// The text of one decimal digit.
fn digit_str(d: u128) -> (r: &'static str)
    requires
        d < 10,
    ensures
        r@ == seq![digit_char(d as nat)],
{
    proof {
        reveal_strlit("0");
        reveal_strlit("1");
        reveal_strlit("2");
        reveal_strlit("3");
        reveal_strlit("4");
        reveal_strlit("5");
        reveal_strlit("6");
        reveal_strlit("7");
        reveal_strlit("8");
        reveal_strlit("9");
    }
    if d == 0 {
        "0"
    } else if d == 1 {
        "1"
    } else if d == 2 {
        "2"
    } else if d == 3 {
        "3"
    } else if d == 4 {
        "4"
    } else if d == 5 {
        "5"
    } else if d == 6 {
        "6"
    } else if d == 7 {
        "7"
    } else if d == 8 {
        "8"
    } else {
        "9"
    }
}

/// Appends `n` in decimal to `out`.
fn push_decimal(out: &mut String, n: u128)
    ensures
        final(out)@ == old(out)@ + decimal(n as nat),
    decreases n,
{
    if n < 10 {
        out.append(digit_str(n));
    } else {
        push_decimal(out, n / 10);
        out.append(digit_str(n % 10));
        proof {
            assert(final(out)@ =~= old(out)@ + decimal(n as nat));
        }
    }
}

/// Appends `n` in decimal, with at least two digits, to `out`.
fn push_two_digits(out: &mut String, n: u128)
    ensures
        final(out)@ == old(out)@ + two_digits(n as nat),
{
    if n < 10 {
        out.append("0");
    }
    push_decimal(out, n);
    proof {
        assert(final(out)@ =~= old(out)@ + two_digits(n as nat));
    }
}


impl Stats {
    /// Blocks processed so far.
    pub fn done(&self) -> (r: u64)
        requires
            self.wf(),
        ensures
            r == self.processed(),
    {
        self.count_ok + self.count_bad
    }

    /// Blocks still to process.
    pub fn remaining(&self) -> (r: u64)
        requires
            self.wf(),
        ensures
            r == self.total - self.processed(),
    {
        self.total - (self.count_ok + self.count_bad)
    }

    /// Completion in tenths of a percent, rounded to the nearest tenth.
    pub fn percent_tenths(&self) -> (r: u64)
        requires
            self.wf(),
        ensures
            r == percent_tenths_of(*self),
            r <= 1000,
    {
        if self.total == 0 {
            return 1000;
        }
        let done = (self.count_ok + self.count_bad) as u128;
        let total = self.total as u128;
        proof {
            assert(2 * (1000 * done) + total <= 2001 * total) by (nonlinear_arith)
                requires
                    done <= total,
            ;
            assert((2 * (1000 * done) + total) / (2 * total) <= 1000) by (nonlinear_arith)
                requires
                    2 * (1000 * done) + total <= 2001 * total,
                    total > 0,
            ;
        }
        ((2 * (1000 * done) + total) / (2 * total)) as u64
    }

    /// Throughput in hundredths of a MiB per second after `elapsed_ms`
    /// milliseconds, rounded to the nearest hundredth; `None` while no time
    /// has passed, as no rate can be measured then.
    pub fn throughput_centi_mibs(&self, elapsed_ms: u64) -> (r: Option<u128>)
        requires
            self.wf(),
        ensures
            r matches Some(h) ==> throughput_of(*self, elapsed_ms as nat) == Some(h as nat),
            r is None ==> throughput_of(*self, elapsed_ms as nat) is None,
    {
        if elapsed_ms == 0 {
            return None;
        }
        let done = (self.count_ok + self.count_bad) as u128;
        let bs = self.blocksize as u128;
        let ms = elapsed_ms as u128;
        proof {
            assert(done * bs <= 0xffff_ffff_ffff_ffff * 0xffff_ffff) by (nonlinear_arith)
                requires
                    done <= 0xffff_ffff_ffff_ffff,
                    bs <= 0xffff_ffff,
            ;
            assert(MIB * ms <= 0x10_0000 * 0xffff_ffff_ffff_ffff) by (nonlinear_arith)
                requires
                    ms <= 0xffff_ffff_ffff_ffff,
            ;
            assert(MIB * ms > 0) by (nonlinear_arith)
                requires
                    ms > 0,
            ;
        }
        let num = done * bs * 100000;
        let den = (MIB as u128) * ms;
        Some((2 * num + den) / (2 * den))
    }
}

/// Appends the elapsed time as `HH:MM:SS` to `out`.
fn push_clock(out: &mut String, secs: u64)
    ensures
        final(out)@ == old(out)@ + clock_text(secs as nat),
{
    push_two_digits(out, (secs / 3600) as u128);
    out.append(":");
    push_two_digits(out, (secs / 60 % 60) as u128);
    out.append(":");
    push_two_digits(out, (secs % 60) as u128);
    proof {
        assert(final(out)@ =~= old(out)@ + clock_text(secs as nat));
    }
}

/// Appends a completion in tenths of a percent to `out`.
fn push_percent(out: &mut String, tenths: u64)
    ensures
        final(out)@ == old(out)@ + percent_text(tenths as nat),
{
    if tenths < 100 {
        out.append("  ");
    } else if tenths < 1000 {
        out.append(" ");
    } else {
        out.append("");
    }
    push_decimal(out, (tenths / 10) as u128);
    out.append(".");
    push_decimal(out, (tenths % 10) as u128);
    proof {
        assert(final(out)@ =~= old(out)@ + percent_text(tenths as nat));
    }
}

/// Appends a throughput in hundredths to `out`.
fn push_rate(out: &mut String, hundredths: Option<u128>)
    ensures
        final(out)@ == old(out)@ + rate_text(hundredths),
{
    match hundredths {
        Some(h) => {
            push_decimal(out, h / 100);
            out.append(".");
            push_two_digits(out, h % 100);
        },
        None => {
            out.append("0.00");
        },
    }
    proof {
        assert(final(out)@ =~= old(out)@ + rate_text(hundredths));
    }
}

/// The progress line for `stats` after `elapsed_ms` milliseconds since the
/// start of the run.
pub fn output_progress(elapsed_ms: u64, stats: Stats) -> (r: String)
    requires
        stats.wf(),
    ensures
        r@ == progress_text(stats, elapsed_ms as nat),
{
    let mut line = String::new();
    line.append("[");
    push_clock(&mut line, elapsed_ms / 1000);
    line.append(" | ");
    push_percent(&mut line, stats.percent_tenths());
    line.append("%] ");
    push_decimal(&mut line, stats.count_ok as u128);
    line.append(" ok, ");
    push_decimal(&mut line, stats.count_bad as u128);
    line.append(" bad, ");
    push_decimal(&mut line, stats.remaining() as u128);
    line.append(" remaining (");
    let rate = stats.throughput_centi_mibs(elapsed_ms);
    proof {
        assert(rate == rate_of(stats, elapsed_ms as nat));
    }
    push_rate(&mut line, rate);
    line.append(" MiB/s)");
    proof {
        assert(line@ =~= progress_text(stats, elapsed_ms as nat));
    }
    line
}

/// When the next periodic progress line is due.
#[derive(Clone, Copy, Debug, PartialEq, Eq, Structural)]
pub struct ProgressTimer {
    /// Milliseconds since the start of the run at which the next line is due.
    pub next_due_ms: u64,
}

impl ProgressTimer {
    /// A timer whose first line is due one interval after the start.
    pub fn new() -> (r: ProgressTimer)
        ensures
            r.next_due_ms == REPORT_INTERVAL_MS,
    {
        ProgressTimer { next_due_ms: REPORT_INTERVAL_MS }
    }

    /// Whether a line is due after `elapsed_ms` milliseconds. When it is,
    /// the next one is due one interval later than this one (never past
    /// `u64::MAX`); boundaries that were overslept are not made up for.
    pub fn due(&mut self, elapsed_ms: u64) -> (r: bool)
        ensures
            r == (elapsed_ms >= old(self).next_due_ms),
            r ==> final(self).next_due_ms == if old(self).next_due_ms + REPORT_INTERVAL_MS
                <= u64::MAX {
                old(self).next_due_ms + REPORT_INTERVAL_MS
            } else {
                u64::MAX as int
            },
            !r ==> *final(self) == *old(self),
    {
        if elapsed_ms >= self.next_due_ms {
            self.next_due_ms = self.next_due_ms.saturating_add(REPORT_INTERVAL_MS);
            true
        } else {
            false
        }
    }
}

} // verus!
