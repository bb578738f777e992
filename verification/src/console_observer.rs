//! The live/console rendering of a drained metrics window.
//!
//! Raw quantile values are converted to milliseconds with the fixed divisor
//! pair `round(raw / 10000) / 100` — the samples are recorded in
//! hundred-nanosecond units, so this yields milliseconds with two decimal
//! places — and the whole window is rendered as one status line
//! `"success: S, errors: E, p50: X ms, p95: Y ms, p99: Z ms"`.

use vstd::prelude::*;
use vstd::string::*;
use vstd::arithmetic::div_mod::lemma_div_is_ordered;
use crate::sink::{DrainSnapshot, Sink};
use crate::text::{dec_spec, u64_to_string};

verus! {

/// A raw quantile value scaled to hundredths of a millisecond:
/// `round(raw / 10000)`, rounding halves up.
pub open spec fn ms_hundredths(raw: nat) -> nat {
    (raw + 5000) / 10000
}

/// Scales a raw quantile value to hundredths of a millisecond.
pub fn millis_hundredths(raw: u64) -> (r: u64)
    ensures
        r == ms_hundredths(raw as nat),
{
    let wide: u128 = ((raw as u128) + 5000) / 10000;
    proof {
        lemma_div_is_ordered(raw as int + 5000, 0xffffffffffffffffi128 as int + 5000, 10000);
    }
    wide as u64
}

/// The decimal rendering of a hundredths-of-a-millisecond value: the whole
/// part, then the fraction with trailing zeroes trimmed (and nothing at all
/// for a whole number of milliseconds).
pub open spec fn ms_chars(h: nat) -> Seq<char> {
    if h % 100 == 0 {
        dec_spec(h / 100)
    } else if (h % 100) % 10 == 0 {
        dec_spec(h / 100) + "."@ + dec_spec((h % 100) / 10)
    } else if h % 100 < 10 {
        dec_spec(h / 100) + ".0"@ + dec_spec(h % 100)
    } else {
        dec_spec(h / 100) + "."@ + dec_spec(h % 100)
    }
}

/// Renders a raw quantile value as milliseconds, per `ms_chars`.
pub fn ms_display(raw: u64) -> (r: String)
    ensures
        r@ == ms_chars(ms_hundredths(raw as nat)),
{
    let h = millis_hundredths(raw);
    let frac = h % 100;
    let mut s = u64_to_string(h / 100);
    if frac == 0 {
    } else if frac % 10 == 0 {
        s.append(".");
        let d = u64_to_string(frac / 10);
        s.append(d.as_str());
    } else if frac < 10 {
        s.append(".0");
        let d = u64_to_string(frac);
        s.append(d.as_str());
    } else {
        s.append(".");
        let d = u64_to_string(frac);
        s.append(d.as_str());
    }
    s
}

/// The console line for one drained window.
pub open spec fn console_line_spec(
    successes: nat,
    errors: nat,
    p50h: nat,
    p95h: nat,
    p99h: nat,
) -> Seq<char> {
    "success: "@ + dec_spec(successes) + ", errors: "@ + dec_spec(errors) + ", p50: "@ + ms_chars(
        p50h,
    ) + " ms, p95: "@ + ms_chars(p95h) + " ms, p99: "@ + ms_chars(p99h) + " ms"@
}

/// Renders a drained window as the live console status line.
pub fn render_console_line(snap: &DrainSnapshot) -> (r: String)
    ensures
        r@ == console_line_spec(
            snap.successes as nat,
            snap.failures as nat,
            ms_hundredths(snap.p50 as nat),
            ms_hundredths(snap.p95 as nat),
            ms_hundredths(snap.p99 as nat),
        ),
{
    let mut s = String::from_str("success: ");
    let succ = u64_to_string(snap.successes);
    s.append(succ.as_str());
    s.append(", errors: ");
    let fail = u64_to_string(snap.failures);
    s.append(fail.as_str());
    s.append(", p50: ");
    let p50 = ms_display(snap.p50);
    s.append(p50.as_str());
    s.append(" ms, p95: ");
    let p95 = ms_display(snap.p95);
    s.append(p95.as_str());
    s.append(" ms, p99: ");
    let p99 = ms_display(snap.p99);
    s.append(p99.as_str());
    s.append(" ms");
    s
}

/// Drains the sink and renders the window it held as the console line.
/// Like every drain this is destructive: the sink is left reset.
pub fn drain_to_console(sink: &mut Sink) -> (r: String)
    requires
        old(sink).wf(),
    ensures
        final(sink).wf(),
        final(sink).is_reset(),
        r@ == console_line_spec(
            old(sink).drain_spec().successes as nat,
            old(sink).drain_spec().failures as nat,
            ms_hundredths(old(sink).drain_spec().p50 as nat),
            ms_hundredths(old(sink).drain_spec().p95 as nat),
            ms_hundredths(old(sink).drain_spec().p99 as nat),
        ),
{
    let snap = sink.drain();
    render_console_line(&snap)
}

} // verus!
