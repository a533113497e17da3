//! The checks and conversions the CLI performs between reading the device's
//! status and sending a `set`.
use vstd::prelude::*;
use crate::command::Command;
use crate::error::Error as ProtoError;
use crate::event::Event;
use crate::filter::FilterSpec;
use crate::host::cli::{is_set_command, opt_map_band, set_command, FormatArg, ModeArg, RadioArg, WifiBandArg, WifiTypeArg};
use crate::host::io_util::{band_refusal, chip_from_status, reject_illegal_band, status_chip};
use crate::host::oui::{entries_view, merge_filters, merge_result, OuiEntry};
use crate::host::Error;
use crate::text::radix16_u16;
use crate::types::{hopmask_digits, parse_hopmask, WifiBand};

verus! {

pub open spec fn opt_len(v: Option<Vec<u8>>) -> nat {
    match v {
        Some(l) => l@.len(),
        None => 0,
    }
}

/// After the filter options were merged into `f`: a merge error is the
/// result; otherwise a hop mask that does not parse is one; otherwise the
/// result is the `set` command for the options, the parsed mask and the
/// merged filter.
pub open spec fn set_after_merge(
    f: Result<Option<FilterSpec>, Error>,
    hopmask: Option<String>,
    radio: Option<RadioArg>,
    mode: Option<ModeArg>,
    format: Option<FormatArg>,
    wifi_band: Option<WifiBandArg>,
    dwell_ms: Option<u16>,
    channels_5ghz: Option<Vec<u8>>,
    ble_interval_ms: Option<u16>,
    ble_window_ms: Option<u16>,
    ble_active: Option<bool>,
    wifi_types: Option<Vec<WifiTypeArg>>,
    r: Result<Command, Error>,
) -> bool {
    match f {
        Err(e) => r == Err::<Command, Error>(e),
        Ok(filters) => match hopmask {
            Some(s) => match radix16_u16(hopmask_digits(s@)) {
                None => r matches Err(Error::Proto(ProtoError::Hopmask(m))) && m@ == s@,
                Some(v) => r matches Ok(c) && is_set_command(c, radio, mode, format, wifi_band, dwell_ms, Some(v),
                    channels_5ghz, ble_interval_ms, ble_window_ms, ble_active, wifi_types, filters),
            },
            None => r matches Ok(c) && is_set_command(c, radio, mode, format, wifi_band, dwell_ms, None, channels_5ghz,
                ble_interval_ms, ble_window_ms, ble_active, wifi_types, filters),
        },
    }
}

/// Builds the `set` command from the device's status reply and the options:
/// the chip must be known and must support the band options; then the filter
/// options are merged (with the manufacturer lookup) and the hop mask text is
/// parsed.
pub fn prepare_set(
    status: &Event,
    radio: Option<RadioArg>,
    mode: Option<ModeArg>,
    format: Option<FormatArg>,
    wifi_band: Option<WifiBandArg>,
    dwell_ms: Option<u16>,
    hopmask: Option<String>,
    channels_5ghz: Option<Vec<u8>>,
    ble_interval_ms: Option<u16>,
    ble_window_ms: Option<u16>,
    ble_active: Option<bool>,
    wifi_types: Option<Vec<WifiTypeArg>>,
    oui: Option<Vec<String>>,
    mac: Option<Vec<String>>,
    name_regex: Option<String>,
    ssid_regex: Option<String>,
    manufacturer_regex: Option<&str>,
    company_id: Option<Vec<u16>>,
    db: &[OuiEntry],
) -> (r: Result<Command, Error>)
    ensures
        match status_chip(status@) {
            Err(m) => r matches Err(Error::Msg(x)) && x@ == m,
            Ok(chip) => match band_refusal(chip, opt_map_band(wifi_band), opt_len(channels_5ghz)) {
                Some(m) => r matches Err(Error::Msg(x)) && x@ == m,
                None => exists|f: Result<Option<FilterSpec>, Error>|
                    #[trigger] merge_result(oui, mac, name_regex, ssid_regex, company_id, manufacturer_regex, entries_view(db@), f)
                    && set_after_merge(f, hopmask, radio, mode, format, wifi_band, dwell_ms, channels_5ghz,
                    ble_interval_ms, ble_window_ms, ble_active, wifi_types, r),
            },
        },
{
    let chip = match chip_from_status(status) {
        Ok(c) => c,
        Err(e) => return Err(e),
    };
    let band: Option<WifiBand> = match wifi_band {
        Some(b) => Some(WifiBand::from(b)),
        None => None,
    };
    let checked = match &channels_5ghz {
        Some(v) => reject_illegal_band(chip, band, v.as_slice()),
        None => reject_illegal_band(chip, band, &[]),
    };
    match checked {
        Ok(()) => {},
        Err(e) => return Err(e),
    }
    let merged = merge_filters(oui, mac, name_regex, ssid_regex, company_id, manufacturer_regex, db);
    let ghost f = merged;
    assert(merge_result(oui, mac, name_regex, ssid_regex, company_id, manufacturer_regex, entries_view(db@), f));
    let filters = match merged {
        Ok(fs) => fs,
        Err(e) => return Err(e),
    };
    let mask: Option<u16> = match &hopmask {
        Some(s) => match parse_hopmask(s.as_str()) {
            Ok(v) => Some(v),
            Err(e) => return Err(Error::Proto(e)),
        },
        None => None,
    };
    Ok(set_command(
        radio,
        mode,
        format,
        wifi_band,
        dwell_ms,
        mask,
        channels_5ghz,
        ble_interval_ms,
        ble_window_ms,
        ble_active,
        wifi_types,
        filters,
    ))
}

} // verus!
