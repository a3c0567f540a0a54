//! Rendering the status line: one display fragment per metric, joined with a
//! fixed separator in a fixed order (CPU, battery, time).
//!
//! Output policy: the CPU fragment is omitted when its source is
//! unreadable, malformed, or reads below zero; the battery
//! fragment is always shown, with the sentinels `NA` for an unreadable state
//! and `-1.00` for an uncomputable percentage; the time fragment is always
//! shown. A failure in one metric never blocks the others.

use vstd::prelude::*;

use crate::metrics::{percent_spec, status_spec, RawMetrics};
use crate::metrics::{get_bat_percent, get_bat_status, get_cpu_temperature};
use crate::numbers::{dec_of, digit_of, digit_to_str, round_nearest_even, u128_to_dec};
use crate::numbers::div_round_nearest_even;
use crate::reading::num_spec;

verus! {

/// The display text of a percentage given in hundredths of a percent: the
/// whole part, a point, and exactly two fractional digits.
pub open spec fn percent_text(h: nat) -> Seq<char> {
    dec_of(h / 100) + "."@ + seq![digit_of((h % 100) / 10), digit_of((h % 100) % 10)]
}

/// The CPU fragment: the temperature in whole degrees (the millidegree
/// reading divided by exactly 1000, rounded to the nearest degree), or
/// nothing when the reading failed or is below zero.
pub open spec fn cpu_fragment(raw: Option<Seq<char>>) -> Option<Seq<char>> {
    match num_spec(raw) {
        Err(_) => None,
        Ok(v) => {
            if v < 0 {
                None
            } else {
                Some("CPU: "@ + dec_of(round_nearest_even(v as nat, 1000)) + "C"@)
            }
        },
    }
}

/// The battery fragment: the state abbreviation and the percentage with two
/// fractional digits, each falling back to its sentinel on failure.
pub open spec fn bat_fragment(m: RawMetrics) -> Seq<char> {
    let st = match status_spec(m.status.deep_view()) {
        Ok(t) => t,
        Err(_) => "NA"@,
    };
    let pc = match percent_spec(m) {
        Ok(h) => percent_text(h as nat),
        Err(_) => "-1.00"@,
    };
    st + ": "@ + pc + "%"@
}

/// The whole status line for a given time text: the present fragments in
/// fixed order, joined with `" | "`.
pub open spec fn bar_spec(m: RawMetrics, time: Seq<char>) -> Seq<char> {
    match cpu_fragment(m.temp_input.deep_view()) {
        Some(c) => c + " | "@ + bat_fragment(m) + " | "@ + time,
        None => bat_fragment(m) + " | "@ + time,
    }
}

/// Renders hundredths of a percent as percentage text with two fractional
/// digits.
fn percent_to_string(h: u128) -> (r: String)
    ensures
        r@ == percent_text(h as nat),
{
    let mut s = u128_to_dec(h / 100);
    s.append(".");
    let frac = h % 100;
    s.append(digit_to_str(frac / 10));
    s.append(digit_to_str(frac % 10));
    proof {
        assert(s@ =~= percent_text(h as nat));
    }
    s
}

/// Builds the CPU display fragment from the raw temperature reading.
pub fn fmt_cpu(m: &RawMetrics) -> (r: Option<String>)
    ensures
        r.deep_view() == cpu_fragment(m.temp_input.deep_view()),
{
    match get_cpu_temperature(&m.temp_input) {
        Err(_) => None,
        Ok(t) => {
            if t < 0 {
                None
            } else {
                let mut s = String::from_str("CPU: ");
                let c = div_round_nearest_even(t as u128, 1000);
                let d = u128_to_dec(c);
                s.append(d.as_str());
                s.append("C");
                proof {
                    assert(s@ =~= cpu_fragment(m.temp_input.deep_view()).unwrap());
                }
                Some(s)
            }
        },
    }
}

/// Builds the battery display fragment; it is always present, with sentinels
/// standing in for unreadable parts.
pub fn fmt_bat(m: &RawMetrics) -> (r: Option<String>)
    ensures
        r.deep_view() == Some(bat_fragment(*m)),
{
    let st = match get_bat_status(&m.status) {
        Ok(s) => s,
        Err(_) => String::from_str("NA"),
    };
    let pc = match get_bat_percent(m) {
        Ok(h) => percent_to_string(h),
        Err(_) => String::from_str("-1.00"),
    };
    let mut s = st;
    s.append(": ");
    s.append(pc.as_str());
    s.append("%");
    proof {
        assert(s@ =~= bat_fragment(*m));
    }
    Some(s)
}

/// Relies on chrono's `Local::now` and its strftime-style formatting: the
/// local wall-clock time rendered as `YYYY-MM-DD HH:MM:SS ±ZZZZ`. Nothing is
/// promised of the result; the clock and the machine's time zone decide it.
#[verifier::external_body]
fn fmt_time() -> String {
    chrono::Local::now().format("%Y-%m-%d %H:%M:%S %z").to_string()
}

/// Renders the status line for a given time text: every other fragment is
/// pinned down exactly by the raw metric contents.
pub fn render_with_time(m: &RawMetrics, time: &str) -> (r: String)
    ensures
        r@ == bar_spec(*m, time@),
{
    let bat = fmt_bat(m).unwrap();
    match fmt_cpu(m) {
        Some(c) => {
            let mut s = c;
            s.append(" | ");
            s.append(bat.as_str());
            s.append(" | ");
            s.append(time);
            proof {
                assert(s@ =~= bar_spec(*m, time@));
            }
            s
        },
        None => {
            let mut s = bat;
            s.append(" | ");
            s.append(time);
            proof {
                assert(s@ =~= bar_spec(*m, time@));
            }
            s
        },
    }
}

/// Renders the status line with the current local time as the last
/// fragment: the line is exactly a rendering for some time text.
pub fn fmt_bar(m: &RawMetrics) -> (r: String)
    ensures
        exists|t: Seq<char>| r@ == bar_spec(*m, t),
{
    let time = fmt_time();
    let r = render_with_time(m, time.as_str());
    proof {
        let t = time@;
        assert(r@ == bar_spec(*m, t));
    }
    r
}

} // verus!
