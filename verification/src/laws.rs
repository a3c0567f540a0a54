//! The library-wide laws: properties that relate several of the operations,
//! stated over the same specification functions that the operations' own
//! contracts use.

use vstd::prelude::*;

use crate::metrics::{bat_max_spec, bat_now_spec, energy_pair_ok, percent_spec, RawMetrics};
use crate::numbers::{
    dec_of, is_digit, lemma_dec_of_digits, lemma_dec_of_len, lemma_dec_of_val,
    lemma_pow10_values, round_nearest_even,
};
use crate::reading::{num_spec, stripped, StatusBarError};
use crate::render::{bar_spec, bat_fragment, cpu_fragment};

verus! {

/// The decimal text of an integer: an optional minus sign and the digits.
pub open spec fn int_text(n: int) -> Seq<char> {
    if n < 0 {
        "-"@ + dec_of((-n) as nat)
    } else {
        dec_of(n as nat)
    }
}

/// Law: a numeric metric read of integer text followed by a newline yields
/// exactly that integer, the newline stripped before parsing.
pub proof fn lemma_numeric_round_trip(n: int)
    requires
        -1_000_000_000_000_000_000 < n < 1_000_000_000_000_000_000,
    ensures
        num_spec(Some(int_text(n) + "\n"@)) == Ok::<int, StatusBarError>(n),
{
    reveal_strlit("\n");
    reveal_strlit("-");
    lemma_pow10_values();
    let t = int_text(n);
    assert(stripped(t + "\n"@) =~= t);
    if n < 0 {
        lemma_dec_of_digits((-n) as nat);
        lemma_dec_of_val((-n) as nat);
        lemma_dec_of_len((-n) as nat, 18);
        assert(t[0] == '-');
        assert(t.skip(1) =~= dec_of((-n) as nat));
    } else {
        lemma_dec_of_digits(n as nat);
        lemma_dec_of_val(n as nat);
        lemma_dec_of_len(n as nat, 18);
        assert(is_digit(t[0]));
        assert(t[0] != '-');
    }
}

/// Law: the battery percentage prefers the whole `energy_*` pair; when
/// either `energy_*` file is missing or malformed it falls back to the whole
/// `charge_*` pair, never mixing the two unit systems; and when neither pair
/// is whole the percentage fails.
pub proof fn lemma_battery_fallback(m: RawMetrics)
    ensures
        energy_pair_ok(m) ==> bat_max_spec(m) == num_spec(m.energy_full.deep_view())
            && bat_now_spec(m) == num_spec(m.energy_now.deep_view()),
        !energy_pair_ok(m) ==> bat_max_spec(m) == num_spec(m.charge_full.deep_view())
            && bat_now_spec(m) == num_spec(m.charge_now.deep_view()),
        bat_max_spec(m) is Ok && bat_now_spec(m) is Ok && bat_max_spec(m)->Ok_0 >= 1
            && bat_now_spec(m)->Ok_0 >= 0 ==> percent_spec(m) == Ok::<int, StatusBarError>(
            round_nearest_even(
                (bat_now_spec(m)->Ok_0 * 10000) as nat,
                bat_max_spec(m)->Ok_0 as nat,
            ) as int,
        ),
        bat_max_spec(m) is Err || bat_now_spec(m) is Err ==> percent_spec(m) is Err,
        m.energy_full is None && m.energy_now is None && m.charge_full is None && m.charge_now
            is None ==> percent_spec(m) == Err::<int, StatusBarError>(StatusBarError::IoError),
{
}

/// Law: a millidegree reading that is a whole number of degrees is displayed
/// as exactly the reading divided by one thousand.
pub proof fn lemma_cpu_scale(v: nat)
    requires
        v % 1000 == 0,
    ensures
        round_nearest_even(v, 1000) == v / 1000,
{
}

/// The part of the status line before the time fragment.
pub open spec fn bar_prefix(m: RawMetrics) -> Seq<char> {
    match cpu_fragment(m.temp_input.deep_view()) {
        Some(c) => c + " | "@ + bat_fragment(m) + " | "@,
        None => bat_fragment(m) + " | "@,
    }
}

/// Law: with unchanged metric contents, two renderings of the status line
/// agree on everything before the time text; only the trailing time fragment
/// can differ between invocations.
pub proof fn lemma_render_stable(m: RawMetrics, t1: Seq<char>, t2: Seq<char>)
    ensures
        bar_spec(m, t1) == bar_prefix(m) + t1,
        bar_spec(m, t2) == bar_prefix(m) + t2,
        bar_spec(m, t1).take(bar_prefix(m).len() as int) == bar_spec(m, t2).take(
            bar_prefix(m).len() as int,
        ),
{
    assert(bar_spec(m, t1) =~= bar_prefix(m) + t1);
    assert(bar_spec(m, t2) =~= bar_prefix(m) + t2);
    assert((bar_prefix(m) + t1).take(bar_prefix(m).len() as int) =~= bar_prefix(m));
    assert((bar_prefix(m) + t2).take(bar_prefix(m).len() as int) =~= bar_prefix(m));
}

} // verus!
