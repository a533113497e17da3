//! The device configuration and how `set` commands change it.
use vstd::prelude::*;
use crate::error::Error;
use crate::filter::{FilterEngine, FilterSpec, FilterSpecView, FilterView, engine_of, spec_error, view_is_open};
use crate::text::{decimal, owned, push_decimal};
use crate::types::{
    Chip, Mode, OutputFormat, Radio, WifiBand, WifiType, DEFAULT_DWELL_MS, DEFAULT_HOPMASK,
    MAX_DWELL_MS, MIN_DWELL_MS, channels_from_hopmask, format_hopmask, hopmask_text, mask_is_valid,
};

verus! {

#[derive(Debug, Clone, PartialEq, Eq, Structural)]
pub struct DropCounters {
    pub ring_overflow: u32,
    pub cdc_backpressure: u32,
    pub truncated: u32,
}

impl Default for DropCounters {
    fn default() -> (d: Self)
        ensures
            d == (DropCounters { ring_overflow: 0, cdc_backpressure: 0, truncated: 0 }),
    {
        DropCounters { ring_overflow: 0, cdc_backpressure: 0, truncated: 0 }
    }
}

#[derive(Debug, Clone)]
pub struct DeviceConfig {
    pub radio: Radio,
    pub mode: Mode,
    pub format: OutputFormat,
    pub wifi_band: WifiBand,
    pub dwell_ms: u16,
    pub hopmask: u16,
    pub channels_5ghz: Vec<u8>,
    pub ble_interval_ms: u16,
    pub ble_window_ms: u16,
    pub ble_active: bool,
    pub wifi_types: Vec<WifiType>,
    pub filters: FilterEngine,
    pub running: bool,
}

/// A configuration as plain values.
pub struct ConfigView {
    pub radio: Radio,
    pub mode: Mode,
    pub format: OutputFormat,
    pub wifi_band: WifiBand,
    pub dwell_ms: u16,
    pub hopmask: u16,
    pub channels_5ghz: Seq<u8>,
    pub ble_interval_ms: u16,
    pub ble_window_ms: u16,
    pub ble_active: bool,
    pub wifi_types: Seq<WifiType>,
    pub filters: FilterView,
    pub running: bool,
}

impl DeviceConfig {
    pub open spec fn spec_view(self) -> ConfigView {
        ConfigView {
            radio: self.radio,
            mode: self.mode,
            format: self.format,
            wifi_band: self.wifi_band,
            dwell_ms: self.dwell_ms,
            hopmask: self.hopmask,
            channels_5ghz: self.channels_5ghz@,
            ble_interval_ms: self.ble_interval_ms,
            ble_window_ms: self.ble_window_ms,
            ble_active: self.ble_active,
            wifi_types: self.wifi_types@,
            filters: self.filters.spec_view(),
            running: self.running,
        }
    }
}

/// The factory configuration: radio off, JSON discovery on 2.4 GHz channels
/// 1/6/11 at 300 ms, BLE passive 100/30 ms, management and data frames, no filters.
pub open spec fn default_view(v: ConfigView) -> bool {
    &&& v.radio == Radio::Off
    &&& v.mode == Mode::Discovery
    &&& v.format == OutputFormat::Json
    &&& v.wifi_band == WifiBand::TwoG
    &&& v.dwell_ms == DEFAULT_DWELL_MS
    &&& v.hopmask == DEFAULT_HOPMASK
    &&& v.channels_5ghz.len() == 0
    &&& v.ble_interval_ms == 100
    &&& v.ble_window_ms == 30
    &&& !v.ble_active
    &&& v.wifi_types == seq![WifiType::Mgmt, WifiType::Data]
    &&& view_is_open(v.filters)
    &&& !v.running
}

impl Default for DeviceConfig {
    fn default() -> (c: Self)
        ensures
            default_view(c.spec_view()),
    {
        let mut wifi_types: Vec<WifiType> = Vec::new();
        wifi_types.push(WifiType::Mgmt);
        wifi_types.push(WifiType::Data);
        let c = DeviceConfig {
            radio: Radio::Off,
            mode: Mode::Discovery,
            format: OutputFormat::Json,
            wifi_band: WifiBand::TwoG,
            dwell_ms: DEFAULT_DWELL_MS,
            hopmask: DEFAULT_HOPMASK,
            channels_5ghz: Vec::new(),
            ble_interval_ms: 100,
            ble_window_ms: 30,
            ble_active: false,
            wifi_types,
            filters: FilterEngine::default(),
            running: false,
        };
        assert(c.spec_view().wifi_types =~= seq![WifiType::Mgmt, WifiType::Data]);
        c
    }
}

/// Why a `set` is refused.
pub enum SetFailure {
    Dwell,
    Hopmask(u16),
    Channel(u8),
    EmptyTypes,
    Filters,
}

/// A 5 GHz channel number must lie in 32..=177.
pub open spec fn valid_5ghz_channel(ch: u8) -> bool {
    32 <= ch <= 177
}

/// Index of the first channel outside 32..=177.
pub open spec fn first_bad_channel(chs: Seq<u8>) -> Option<int>
    decreases chs.len(),
{
    if chs.len() == 0 {
        None
    } else {
        match first_bad_channel(chs.drop_last()) {
            Some(i) => Some(i),
            None => if !valid_5ghz_channel(chs.last()) { Some(chs.len() - 1) } else { None },
        }
    }
}

pub open spec fn opt_seq<T>(o: Option<Vec<T>>) -> Option<Seq<T>> {
    match o {
        Some(v) => Some(v@),
        None => None,
    }
}

pub open spec fn opt_spec(o: Option<FilterSpec>) -> Option<FilterSpecView> {
    match o {
        Some(s) => Some(s.spec_view()),
        None => None,
    }
}

/// Writing the dwell time: it must lie in 100..=2000 ms.
pub open spec fn dwell_step(v: ConfigView, dwell_ms: Option<u16>) -> (ConfigView, Option<SetFailure>) {
    match dwell_ms {
        None => (v, None),
        Some(d) => if MIN_DWELL_MS <= d <= MAX_DWELL_MS {
            (ConfigView { dwell_ms: d, ..v }, None)
        } else {
            (v, Some(SetFailure::Dwell))
        },
    }
}

/// Writing the hop mask: only bits for channels 1..=14 may be set.
pub open spec fn hopmask_step(v: ConfigView, hopmask: Option<u16>) -> (ConfigView, Option<SetFailure>) {
    match hopmask {
        None => (v, None),
        Some(m) => if mask_is_valid(m) {
            (ConfigView { hopmask: m, ..v }, None)
        } else {
            (v, Some(SetFailure::Hopmask(m)))
        },
    }
}

/// Writing the 5 GHz channel list: every channel must lie in 32..=177; the
/// first that does not is reported.
pub open spec fn channels_step(v: ConfigView, chs: Option<Seq<u8>>) -> (ConfigView, Option<SetFailure>) {
    match chs {
        None => (v, None),
        Some(c) => match first_bad_channel(c) {
            None => (ConfigView { channels_5ghz: c, ..v }, None),
            Some(i) => (v, Some(SetFailure::Channel(c[i]))),
        },
    }
}

/// Writing the WiFi frame types: the list must not be empty.
pub open spec fn types_step(v: ConfigView, types: Option<Seq<WifiType>>) -> (ConfigView, Option<SetFailure>) {
    match types {
        None => (v, None),
        Some(t) => if t.len() > 0 {
            (ConfigView { wifi_types: t, ..v }, None)
        } else {
            (v, Some(SetFailure::EmptyTypes))
        },
    }
}

/// Writing the filters: the specification must compile.
pub open spec fn filters_step(v: ConfigView, filters: Option<FilterSpecView>) -> (ConfigView, Option<SetFailure>) {
    match filters {
        None => (v, None),
        Some(fs) => match engine_of(fs) {
            Some(e) => (ConfigView { filters: e, ..v }, None),
            None => (v, Some(SetFailure::Filters)),
        },
    }
}

/// The fields that need no check.
pub open spec fn plain_step(
    v: ConfigView,
    radio: Option<Radio>,
    mode: Option<Mode>,
    format: Option<OutputFormat>,
    wifi_band: Option<WifiBand>,
    ble_interval_ms: Option<u16>,
    ble_window_ms: Option<u16>,
    ble_active: Option<bool>,
) -> ConfigView {
    ConfigView {
        radio: match radio { Some(x) => x, None => v.radio },
        mode: match mode { Some(x) => x, None => v.mode },
        format: match format { Some(x) => x, None => v.format },
        wifi_band: match wifi_band { Some(x) => x, None => v.wifi_band },
        ble_interval_ms: match ble_interval_ms { Some(x) => x, None => v.ble_interval_ms },
        ble_window_ms: match ble_window_ms { Some(x) => x, None => v.ble_window_ms },
        ble_active: match ble_active { Some(x) => x, None => v.ble_active },
        ..v
    }
}

/// What a `set` does: the fields are checked and written in the order dwell,
/// hop mask, 5 GHz channels, WiFi frame types, filters; the first invalid one
/// stops the command, leaving the fields written before it changed. When all
/// are valid, radio, mode, format, band and BLE timing are written too.
pub open spec fn set_outcome(
    v: ConfigView,
    radio: Option<Radio>,
    mode: Option<Mode>,
    format: Option<OutputFormat>,
    wifi_band: Option<WifiBand>,
    dwell_ms: Option<u16>,
    hopmask: Option<u16>,
    channels_5ghz: Option<Seq<u8>>,
    ble_interval_ms: Option<u16>,
    ble_window_ms: Option<u16>,
    ble_active: Option<bool>,
    wifi_types: Option<Seq<WifiType>>,
    filters: Option<FilterSpecView>,
) -> (ConfigView, Option<SetFailure>) {
    let a = dwell_step(v, dwell_ms);
    if a.1 is Some {
        a
    } else {
        let b = hopmask_step(a.0, hopmask);
        if b.1 is Some {
            b
        } else {
            let c = channels_step(b.0, channels_5ghz);
            if c.1 is Some {
                c
            } else {
                let d = types_step(c.0, wifi_types);
                if d.1 is Some {
                    d
                } else {
                    let e = filters_step(d.0, filters);
                    if e.1 is Some {
                        e
                    } else {
                        (plain_step(e.0, radio, mode, format, wifi_band, ble_interval_ms, ble_window_ms, ble_active), None)
                    }
                }
            }
        }
    }
}

/// Whether a step's result matches what it reports.
pub open spec fn step_result(step: (ConfigView, Option<SetFailure>), filters: Option<FilterSpecView>, r: Result<(), Error>) -> bool {
    &&& step.1 is None ==> r is Ok
    &&& step.1 matches Some(f) ==> (r matches Err(e) && failure_error(f, filters, e))
}

/// The error a refused `set` reports.
pub open spec fn failure_error(f: SetFailure, filters: Option<FilterSpecView>, e: Error) -> bool {
    match f {
        SetFailure::Dwell => e matches Error::Config(m) && m@ == "dwell_ms must be 100-2000"@,
        SetFailure::Hopmask(mask) => e matches Error::Hopmask(m) && m@ == hopmask_text(mask),
        SetFailure::Channel(ch) => e matches Error::Config(m) && m@ == "invalid 5 GHz channel "@ + decimal(ch as nat),
        SetFailure::EmptyTypes => e matches Error::Config(m) && m@ == "wifi_types must not be empty"@,
        SetFailure::Filters => spec_error(filters.unwrap(), e),
    }
}

/// The promiscuous-mode filter bits: management 1, control 2, data 4.
pub open spec fn type_mask(types: Seq<WifiType>) -> int {
    (if types.contains(WifiType::Mgmt) { 1u32 } else { 0u32 }) + (if types.contains(WifiType::Ctrl) {
        2u32
    } else {
        0u32
    }) + (if types.contains(WifiType::Data) { 4u32 } else { 0u32 })
}

/// Why a chip refuses a band and 5 GHz channel list, if it does.
pub open spec fn chip_rejection(chip: Chip, band: WifiBand, channels_5ghz_len: nat) -> Option<Seq<char>> {
    if chip.spec_supports_5ghz() {
        None
    } else if band.spec_uses_5g() {
        Some("ESP32-S3 supports 2.4 GHz WiFi only"@)
    } else if channels_5ghz_len > 0 {
        Some("ESP32-S3 rejects channels_5ghz"@)
    } else {
        None
    }
}

/// The fields of a `status` reply: the chip, the configuration (the hop mask
/// as `0x` and four hex digits) and the drop counters.
#[derive(Debug, Clone)]
pub struct StatusReport {
    pub chip: Chip,
    pub radio: Radio,
    pub mode: Mode,
    pub format: OutputFormat,
    pub wifi_band: WifiBand,
    pub dwell_ms: u16,
    pub hopmask: String,
    pub channels_5ghz: Vec<u8>,
    pub ble_interval_ms: u16,
    pub ble_window_ms: u16,
    pub ble_active: bool,
    pub wifi_types: Vec<WifiType>,
    pub running: bool,
    pub drops: DropCounters,
}

/// `r` reports configuration `v` on `chip` with counters `drops`.
pub open spec fn reports(r: StatusReport, v: ConfigView, chip: Chip, drops: DropCounters) -> bool {
    &&& r.chip == chip
    &&& r.radio == v.radio
    &&& r.mode == v.mode
    &&& r.format == v.format
    &&& r.wifi_band == v.wifi_band
    &&& r.dwell_ms == v.dwell_ms
    &&& r.hopmask@ == hopmask_text(v.hopmask)
    &&& r.channels_5ghz@ == v.channels_5ghz
    &&& r.ble_interval_ms == v.ble_interval_ms
    &&& r.ble_window_ms == v.ble_window_ms
    &&& r.ble_active == v.ble_active
    &&& r.wifi_types@ == v.wifi_types
    &&& r.running == v.running
    &&& r.drops == drops
}

impl DeviceConfig {
    /// Applies the fields of a `set` command (see `set_outcome`).
    pub fn apply_set(
        &mut self,
        radio: Option<Radio>,
        mode: Option<Mode>,
        format: Option<OutputFormat>,
        wifi_band: Option<WifiBand>,
        dwell_ms: Option<u16>,
        hopmask: Option<u16>,
        channels_5ghz: Option<Vec<u8>>,
        ble_interval_ms: Option<u16>,
        ble_window_ms: Option<u16>,
        ble_active: Option<bool>,
        wifi_types: Option<Vec<WifiType>>,
        filters: Option<FilterSpec>,
    ) -> (r: Result<(), Error>)
        ensures
            ({
                let out = set_outcome(old(self).spec_view(), radio, mode, format, wifi_band, dwell_ms, hopmask,
                    opt_seq(channels_5ghz), ble_interval_ms, ble_window_ms, ble_active, opt_seq(wifi_types),
                    opt_spec(filters));
                &&& final(self).spec_view() == out.0
                &&& step_result(out, opt_spec(filters), r)
            }),
    {
        let ghost fs = opt_spec(filters);
        let ghost v0 = self.spec_view();
        let r = self.set_dwell(dwell_ms);
        assert(step_result(dwell_step(v0, dwell_ms), fs, r));
        if r.is_err() {
            return r;
        }
        let ghost v1 = self.spec_view();
        let r = self.set_hopmask(hopmask);
        assert(step_result(hopmask_step(v1, hopmask), fs, r));
        if r.is_err() {
            return r;
        }
        let ghost v2 = self.spec_view();
        let ghost chs = opt_seq(channels_5ghz);
        let r = self.set_channels(channels_5ghz);
        assert(step_result(channels_step(v2, chs), fs, r));
        if r.is_err() {
            return r;
        }
        let ghost v3 = self.spec_view();
        let ghost ts = opt_seq(wifi_types);
        let r = self.set_types(wifi_types);
        assert(step_result(types_step(v3, ts), fs, r));
        if r.is_err() {
            return r;
        }
        let r = self.set_filters(filters);
        if r.is_err() {
            return r;
        }
        self.set_plain(radio, mode, format, wifi_band, ble_interval_ms, ble_window_ms, ble_active);
        Ok(())
    }

    fn set_plain(
        &mut self,
        radio: Option<Radio>,
        mode: Option<Mode>,
        format: Option<OutputFormat>,
        wifi_band: Option<WifiBand>,
        ble_interval_ms: Option<u16>,
        ble_window_ms: Option<u16>,
        ble_active: Option<bool>,
    )
        ensures
            final(self).spec_view() == plain_step(old(self).spec_view(), radio, mode, format, wifi_band,
                ble_interval_ms, ble_window_ms, ble_active),
    {
        if let Some(v) = radio {
            self.radio = v;
        }
        if let Some(v) = mode {
            self.mode = v;
        }
        if let Some(v) = format {
            self.format = v;
        }
        if let Some(v) = wifi_band {
            self.wifi_band = v;
        }
        if let Some(v) = ble_interval_ms {
            self.ble_interval_ms = v;
        }
        if let Some(v) = ble_window_ms {
            self.ble_window_ms = v;
        }
        if let Some(v) = ble_active {
            self.ble_active = v;
        }
    }

    fn set_dwell(&mut self, dwell_ms: Option<u16>) -> (r: Result<(), Error>)
        ensures
            final(self).spec_view() == dwell_step(old(self).spec_view(), dwell_ms).0,
            forall|fs: Option<FilterSpecView>| step_result(dwell_step(old(self).spec_view(), dwell_ms), fs, r),
    {
        if let Some(d) = dwell_ms {
            if !(MIN_DWELL_MS <= d && d <= MAX_DWELL_MS) {
                return Err(Error::config("dwell_ms must be 100-2000"));
            }
            self.dwell_ms = d;
        }
        Ok(())
    }

    fn set_hopmask(&mut self, hopmask: Option<u16>) -> (r: Result<(), Error>)
        ensures
            final(self).spec_view() == hopmask_step(old(self).spec_view(), hopmask).0,
            forall|fs: Option<FilterSpecView>| step_result(hopmask_step(old(self).spec_view(), hopmask), fs, r),
    {
        if let Some(mask) = hopmask {
            match channels_from_hopmask(mask) {
                Ok(_) => {},
                Err(e) => return Err(e),
            }
            self.hopmask = mask;
        }
        Ok(())
    }

    fn set_channels(&mut self, channels_5ghz: Option<Vec<u8>>) -> (r: Result<(), Error>)
        ensures
            final(self).spec_view() == channels_step(old(self).spec_view(), opt_seq(channels_5ghz)).0,
            forall|fs: Option<FilterSpecView>| step_result(channels_step(old(self).spec_view(), opt_seq(channels_5ghz)), fs, r),
    {
        if let Some(chs) = channels_5ghz {
            match check_channels(&chs) {
                Ok(()) => {},
                Err(e) => return Err(e),
            }
            self.channels_5ghz = chs;
        }
        Ok(())
    }

    fn set_types(&mut self, wifi_types: Option<Vec<WifiType>>) -> (r: Result<(), Error>)
        ensures
            final(self).spec_view() == types_step(old(self).spec_view(), opt_seq(wifi_types)).0,
            forall|fs: Option<FilterSpecView>| step_result(types_step(old(self).spec_view(), opt_seq(wifi_types)), fs, r),
    {
        if let Some(types) = wifi_types {
            if types.len() == 0 {
                return Err(Error::config("wifi_types must not be empty"));
            }
            self.wifi_types = types;
        }
        Ok(())
    }

    fn set_filters(&mut self, filters: Option<FilterSpec>) -> (r: Result<(), Error>)
        ensures
            final(self).spec_view() == filters_step(old(self).spec_view(), opt_spec(filters)).0,
            step_result(filters_step(old(self).spec_view(), opt_spec(filters)), opt_spec(filters), r),
    {
        if let Some(spec) = filters {
            match FilterEngine::from_spec(&spec) {
                Ok(e) => {
                    self.filters = e;
                },
                Err(e) => return Err(e),
            }
        }
        Ok(())
    }

    /// The ESP32-S3 has no 5 GHz radio: a band using 5 GHz, or any 5 GHz
    /// channel, is refused on it (see `chip_rejection`).
    pub fn validate_for_chip(&self, chip: Chip) -> (r: Result<(), Error>)
        ensures
            chip_rejection(chip, self.wifi_band, self.channels_5ghz@.len()) is None ==> r is Ok,
            chip_rejection(chip, self.wifi_band, self.channels_5ghz@.len()) matches Some(msg) ==> (r matches Err(
                Error::Config(m),
            ) && m@ == msg),
    {
        if !chip.supports_5ghz() {
            if self.wifi_band.uses_5g() {
                return Err(Error::config("ESP32-S3 supports 2.4 GHz WiFi only"));
            }
            if self.channels_5ghz.len() != 0 {
                return Err(Error::config("ESP32-S3 rejects channels_5ghz"));
            }
        }
        Ok(())
    }

    /// The `status` reply for this configuration.
    pub fn status(&self, chip: Chip, drops: &DropCounters) -> (r: StatusReport)
        ensures
            reports(r, self.spec_view(), chip, *drops),
    {
        let mut channels_5ghz: Vec<u8> = Vec::new();
        let mut i: usize = 0;
        while i < self.channels_5ghz.len()
            invariant
                i <= self.channels_5ghz@.len(),
                channels_5ghz@ == self.channels_5ghz@.take(i as int),
            decreases self.channels_5ghz@.len() - i,
        {
            channels_5ghz.push(self.channels_5ghz[i]);
            i += 1;
            assert(channels_5ghz@ == self.channels_5ghz@.take(i as int));
        }
        assert(self.channels_5ghz@.take(i as int) == self.channels_5ghz@);
        let mut wifi_types: Vec<WifiType> = Vec::new();
        let mut j: usize = 0;
        while j < self.wifi_types.len()
            invariant
                j <= self.wifi_types@.len(),
                wifi_types@ == self.wifi_types@.take(j as int),
            decreases self.wifi_types@.len() - j,
        {
            wifi_types.push(self.wifi_types[j]);
            j += 1;
            assert(wifi_types@ == self.wifi_types@.take(j as int));
        }
        assert(self.wifi_types@.take(j as int) == self.wifi_types@);
        StatusReport {
            chip,
            radio: self.radio,
            mode: self.mode,
            format: self.format,
            wifi_band: self.wifi_band,
            dwell_ms: self.dwell_ms,
            hopmask: format_hopmask(self.hopmask),
            channels_5ghz,
            ble_interval_ms: self.ble_interval_ms,
            ble_window_ms: self.ble_window_ms,
            ble_active: self.ble_active,
            wifi_types,
            running: self.running,
            drops: DropCounters {
                ring_overflow: drops.ring_overflow,
                cdc_backpressure: drops.cdc_backpressure,
                truncated: drops.truncated,
            },
        }
    }

    /// The promiscuous filter mask for the selected WiFi frame types.
    pub fn promiscuous_filter_mask(&self) -> (mask: u32)
        ensures
            mask == type_mask(self.wifi_types@),
    {
        let mut mgmt = false;
        let mut ctrl = false;
        let mut data = false;
        let mut i: usize = 0;
        while i < self.wifi_types.len()
            invariant
                i <= self.wifi_types@.len(),
                mgmt == self.wifi_types@.take(i as int).contains(WifiType::Mgmt),
                ctrl == self.wifi_types@.take(i as int).contains(WifiType::Ctrl),
                data == self.wifi_types@.take(i as int).contains(WifiType::Data),
            decreases self.wifi_types@.len() - i,
        {
            let t = self.wifi_types[i];
            let ghost pre = self.wifi_types@.take(i as int);
            let ghost nxt = self.wifi_types@.take(i + 1);
            assert(nxt == pre.push(t));
            match t {
                WifiType::Mgmt => mgmt = true,
                WifiType::Ctrl => ctrl = true,
                WifiType::Data => data = true,
            }
            assert(nxt[i as int] == t);
            assert(nxt.contains(t));
            assert forall|x: WifiType| x != t implies nxt.contains(x) == pre.contains(x) by {
                if nxt.contains(x) {
                    let k = choose|k: int| 0 <= k < nxt.len() && nxt[k] == x;
                    assert(pre[k] == x);
                }
                if pre.contains(x) {
                    let k = choose|k: int| 0 <= k < pre.len() && pre[k] == x;
                    assert(nxt[k] == x);
                }
            }
            i += 1;
        }
        assert(self.wifi_types@.take(self.wifi_types@.len() as int) == self.wifi_types@);
        (if mgmt { 1u32 } else { 0u32 }) + (if ctrl { 2u32 } else { 0u32 }) + (if data { 4u32 } else { 0u32 })
    }
}

/// Checks a 5 GHz channel list, reporting the first channel outside 32..=177.
fn check_channels(chs: &Vec<u8>) -> (r: Result<(), Error>)
    ensures
        first_bad_channel(chs@) is None ==> r is Ok,
        first_bad_channel(chs@) matches Some(i) ==> (r matches Err(Error::Config(m)) && m@
            == "invalid 5 GHz channel "@ + decimal(chs@[i] as nat)),
{
    let mut i: usize = 0;
    while i < chs.len()
        invariant
            i <= chs@.len(),
            first_bad_channel(chs@.take(i as int)) is None,
        decreases chs@.len() - i,
    {
        assert(chs@.take(i + 1).drop_last() == chs@.take(i as int));
        let ch = chs[i];
        if !(32 <= ch && ch <= 177) {
            proof {
                lemma_first_bad_channel_prefix(chs@, i as int);
            }
            let mut msg = owned("invalid 5 GHz channel ");
            push_decimal(&mut msg, ch as u64);
            return Err(Error::Config(msg));
        }
        i += 1;
    }
    assert(chs@.take(chs@.len() as int) == chs@);
    Ok(())
}

/// A `set` changes no field it leaves out: each omitted field keeps its
/// value, and `running` never changes.
pub proof fn lemma_omitted_fields_unchanged(
    v: ConfigView,
    radio: Option<Radio>,
    mode: Option<Mode>,
    format: Option<OutputFormat>,
    wifi_band: Option<WifiBand>,
    dwell_ms: Option<u16>,
    hopmask: Option<u16>,
    channels_5ghz: Option<Seq<u8>>,
    ble_interval_ms: Option<u16>,
    ble_window_ms: Option<u16>,
    ble_active: Option<bool>,
    wifi_types: Option<Seq<WifiType>>,
    filters: Option<FilterSpecView>,
)
    ensures
        ({
            let o = set_outcome(v, radio, mode, format, wifi_band, dwell_ms, hopmask, channels_5ghz,
                ble_interval_ms, ble_window_ms, ble_active, wifi_types, filters).0;
            &&& radio is None ==> o.radio == v.radio
            &&& mode is None ==> o.mode == v.mode
            &&& format is None ==> o.format == v.format
            &&& wifi_band is None ==> o.wifi_band == v.wifi_band
            &&& dwell_ms is None ==> o.dwell_ms == v.dwell_ms
            &&& hopmask is None ==> o.hopmask == v.hopmask
            &&& channels_5ghz is None ==> o.channels_5ghz == v.channels_5ghz
            &&& ble_interval_ms is None ==> o.ble_interval_ms == v.ble_interval_ms
            &&& ble_window_ms is None ==> o.ble_window_ms == v.ble_window_ms
            &&& ble_active is None ==> o.ble_active == v.ble_active
            &&& wifi_types is None ==> o.wifi_types == v.wifi_types
            &&& filters is None ==> o.filters == v.filters
            &&& o.running == v.running
        }),
{
}

/// A `set` whose fields are all valid writes every field it carries.
pub proof fn lemma_valid_set_writes_fields(
    v: ConfigView,
    radio: Option<Radio>,
    mode: Option<Mode>,
    format: Option<OutputFormat>,
    wifi_band: Option<WifiBand>,
    dwell_ms: Option<u16>,
    hopmask: Option<u16>,
    channels_5ghz: Option<Seq<u8>>,
    ble_interval_ms: Option<u16>,
    ble_window_ms: Option<u16>,
    ble_active: Option<bool>,
    wifi_types: Option<Seq<WifiType>>,
    filters: Option<FilterSpecView>,
)
    requires
        set_outcome(v, radio, mode, format, wifi_band, dwell_ms, hopmask, channels_5ghz, ble_interval_ms,
            ble_window_ms, ble_active, wifi_types, filters).1 is None,
    ensures
        ({
            let o = set_outcome(v, radio, mode, format, wifi_band, dwell_ms, hopmask, channels_5ghz,
                ble_interval_ms, ble_window_ms, ble_active, wifi_types, filters).0;
            &&& radio matches Some(x) ==> o.radio == x
            &&& mode matches Some(x) ==> o.mode == x
            &&& format matches Some(x) ==> o.format == x
            &&& wifi_band matches Some(x) ==> o.wifi_band == x
            &&& dwell_ms matches Some(x) ==> o.dwell_ms == x
            &&& hopmask matches Some(x) ==> o.hopmask == x
            &&& channels_5ghz matches Some(x) ==> o.channels_5ghz == x
            &&& ble_interval_ms matches Some(x) ==> o.ble_interval_ms == x
            &&& ble_window_ms matches Some(x) ==> o.ble_window_ms == x
            &&& ble_active matches Some(x) ==> o.ble_active == x
            &&& wifi_types matches Some(x) ==> o.wifi_types == x
            &&& filters matches Some(x) ==> o.filters == engine_of(x).unwrap()
        }),
{
}

/// The promiscuous mask has bit 0 for management, bit 1 for control and
/// bit 2 for data frames, each set exactly when that type is selected.
pub proof fn lemma_type_mask_bits(types: Seq<WifiType>)
    ensures
        type_mask(types) < 8,
        type_mask(types) % 2 == 1 <==> types.contains(WifiType::Mgmt),
        type_mask(types) / 2 % 2 == 1 <==> types.contains(WifiType::Ctrl),
        type_mask(types) / 4 % 2 == 1 <==> types.contains(WifiType::Data),
{
}

/// Only the ESP32-S3 refuses configurations, and it refuses exactly those
/// that use 5 GHz: a band using 5 GHz or a non-empty 5 GHz channel list.
pub proof fn lemma_chip_refuses_only_5ghz(chip: Chip, band: WifiBand, n: nat)
    ensures
        chip == Chip::Esp32c5 ==> chip_rejection(chip, band, n) is None,
        chip == Chip::Esp32s3 ==> (chip_rejection(chip, band, n) is Some <==> (band != WifiBand::TwoG || n > 0)),
{
}

proof fn lemma_first_bad_channel_prefix(chs: Seq<u8>, i: int)
    requires
        0 <= i < chs.len(),
        first_bad_channel(chs.take(i)) is None,
        !valid_5ghz_channel(chs[i]),
    ensures
        first_bad_channel(chs) == Some(i),
    decreases chs.len(),
{
    if i == chs.len() - 1 {
        assert(chs.drop_last() == chs.take(i));
    } else {
        assert(chs.drop_last().take(i) == chs.take(i));
        lemma_first_bad_channel_prefix(chs.drop_last(), i);
    }
}

} // verus!
