//! The three metrics: CPU temperature, battery charge percentage and battery
//! state. Each function takes the raw contents of the kernel files it needs
//! (`None` where a file was unreadable) and computes the metric value.

use vstd::prelude::*;

use crate::numbers::round_nearest_even;
use crate::reading::{num_spec, read_file_content, read_file_to_num, stripped, StatusBarError};

verus! {

/// The raw contents of the kernel metric files, one field per fixed path,
/// `None` where the file could not be read.
pub struct RawMetrics {
    /// Contents of the hardware monitor's temperature input file
    /// (integer millidegrees Celsius).
    pub temp_input: Option<String>,
    /// Contents of the battery's `energy_full` file (primary pair).
    pub energy_full: Option<String>,
    /// Contents of the battery's `energy_now` file (primary pair).
    pub energy_now: Option<String>,
    /// Contents of the battery's `charge_full` file (fallback pair).
    pub charge_full: Option<String>,
    /// Contents of the battery's `charge_now` file (fallback pair).
    pub charge_now: Option<String>,
    /// Contents of the battery's `status` file.
    pub status: Option<String>,
}

/// The abbreviation displayed for a battery state: exactly `"Discharging"`
/// maps to `"BAT"`, exactly `"Charging"` to `"CHR"`, and every other text,
/// `"Full"` and `"Unknown"` included, to `"PWR"`.
pub open spec fn status_abbrev(t: Seq<char>) -> Seq<char> {
    if t == "Discharging"@ {
        "BAT"@
    } else if t == "Charging"@ {
        "CHR"@
    } else {
        "PWR"@
    }
}

/// What a battery status read yields: the three-way abbreviation of the
/// file's text once the trailing newline is stripped. Classification is
/// total, so the only error is an unreadable source.
pub open spec fn status_spec(raw: Option<Seq<char>>) -> Result<Seq<char>, StatusBarError> {
    match raw {
        None => Err(StatusBarError::IoError),
        Some(c) => Ok(status_abbrev(stripped(c))),
    }
}

/// Classifies the battery status file's contents as a display abbreviation.
pub fn get_bat_status(raw: &Option<String>) -> (r: Result<String, StatusBarError>)
    ensures
        match status_spec(raw.deep_view()) {
            Ok(t) => r matches Ok(s) && s@ == t,
            Err(e) => r == Err::<String, StatusBarError>(e),
        },
{
    match read_file_content(raw) {
        Err(e) => Err(e),
        Ok(cont) => {
            if cont == String::from_str("Discharging") {
                Ok(String::from_str("BAT"))
            } else if cont == String::from_str("Charging") {
                Ok(String::from_str("CHR"))
            } else {
                Ok(String::from_str("PWR"))
            }
        },
    }
}

/// Whether the primary `energy_*` pair is usable: both of its files were
/// readable and hold numeric text. The two unit systems are never mixed, so
/// anything less selects the whole `charge_*` pair instead.
pub open spec fn energy_pair_ok(m: RawMetrics) -> bool {
    num_spec(m.energy_full.deep_view()) is Ok && num_spec(m.energy_now.deep_view()) is Ok
}

/// The battery's full capacity: from `energy_full` when the whole `energy_*`
/// pair is usable, else from `charge_full`, with that file's error.
pub open spec fn bat_max_spec(m: RawMetrics) -> Result<int, StatusBarError> {
    if energy_pair_ok(m) {
        num_spec(m.energy_full.deep_view())
    } else {
        num_spec(m.charge_full.deep_view())
    }
}

/// The battery's current charge: from `energy_now` when the whole `energy_*`
/// pair is usable, else from `charge_now`, with that file's error.
pub open spec fn bat_now_spec(m: RawMetrics) -> Result<int, StatusBarError> {
    if energy_pair_ok(m) {
        num_spec(m.energy_now.deep_view())
    } else {
        num_spec(m.charge_now.deep_view())
    }
}

/// What the battery percentage computation yields, in hundredths of a
/// percent: the current charge over the full capacity, scaled to a
/// percentage and rounded to the nearest hundredth. Both readings come from
/// the same pair: the `energy_*` pair when it is whole, else the `charge_*`
/// pair. The full capacity is resolved (with its errors) before the current
/// charge is; a capacity below one or a negative charge cannot make a
/// percentage and is treated as a conversion error.
pub open spec fn percent_spec(m: RawMetrics) -> Result<int, StatusBarError> {
    match bat_max_spec(m) {
        Err(e) => Err(e),
        Ok(mx) => {
            if mx < 1 {
                Err(StatusBarError::TypeConvertError)
            } else {
                match bat_now_spec(m) {
                    Err(e) => Err(e),
                    Ok(nw) => {
                        if nw < 0 {
                            Err(StatusBarError::TypeConvertError)
                        } else {
                            Ok(round_nearest_even((nw * 10000) as nat, mx as nat) as int)
                        }
                    },
                }
            }
        },
    }
}

/// Computes the battery charge as hundredths of a percent, preferring the
/// `energy_*` pair and falling back to the whole `charge_*` pair when either
/// `energy_*` file is unusable.
pub fn get_bat_percent(m: &RawMetrics) -> (r: Result<u128, StatusBarError>)
    ensures
        match percent_spec(*m) {
            Ok(h) => r matches Ok(x) && x == h,
            Err(e) => r == Err::<u128, StatusBarError>(e),
        },
{
    let energy_full = read_file_to_num(&m.energy_full);
    let energy_now = read_file_to_num(&m.energy_now);
    let (max_read, now_read) = if energy_full.is_ok() && energy_now.is_ok() {
        (energy_full, energy_now)
    } else {
        (read_file_to_num(&m.charge_full), read_file_to_num(&m.charge_now))
    };
    let bat_max = match max_read {
        Ok(v) => v,
        Err(e) => {
            return Err(e);
        },
    };
    if bat_max < 1 {
        return Err(StatusBarError::TypeConvertError);
    }
    let bat_now = match now_read {
        Ok(v) => v,
        Err(e) => {
            return Err(e);
        },
    };
    if bat_now < 0 {
        return Err(StatusBarError::TypeConvertError);
    }
    Ok(crate::numbers::div_round_nearest_even((bat_now as u128) * 10000, bat_max as u128))
}

/// Reads the CPU temperature in the kernel's unit, millidegrees Celsius:
/// one unit is a thousandth of a degree, and rendering divides by exactly
/// one thousand.
pub fn get_cpu_temperature(raw: &Option<String>) -> (r: Result<i64, StatusBarError>)
    ensures
        match num_spec(raw.deep_view()) {
            Ok(v) => r matches Ok(x) && x == v,
            Err(e) => r == Err::<i64, StatusBarError>(e),
        },
{
    read_file_to_num(raw)
}

} // verus!
