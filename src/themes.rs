use vstd::prelude::*;

use vstd::string::StringSliceAdditionalSpecFns;

use crate::meter::MeterConfig;

verus! {

/// Display settings of a theme.
#[derive(Debug, Clone)]
pub struct DisplayConfig {
    pub display_orientation: String,
    pub display_rgb_led: String,
}

/// The static background image of a theme and where it goes.
#[derive(Debug, Clone)]
pub struct Background {
    pub path: String,
    pub x: u32,
    pub y: u32,
    pub width: u32,
    pub height: u32,
}

#[derive(Debug, Clone)]
pub struct StaticImages {
    pub background: Background,
}

/// A text widget: where and how a measurement is written.
#[derive(Debug, Clone)]
pub struct Text {
    pub show: bool,
    pub show_unit: bool,
    pub x: u32,
    pub y: u32,
    pub font: String,
    pub font_size: u32,
    pub font_color: String,
    pub background_color: Option<String>,
    pub background_image: Option<String>,
}

/// A bar-graph widget: where the bar goes and the range it spans.
#[derive(Debug, Clone)]
pub struct Graph {
    pub show: bool,
    pub x: u32,
    pub y: u32,
    pub width: u32,
    pub height: u32,
    pub min_value: String,
    pub max_value: u32,
    pub bar_color: String,
    pub bar_outline: bool,
    pub background_color: Option<String>,
    pub background_image: Option<String>,
}

/// The widgets of one metric, with an optional polling interval (seconds).
#[derive(Debug, Clone)]
pub struct DeviceMeter {
    pub interval: Option<u32>,
    pub text: Option<Text>,
    pub graph: Option<Graph>,
}

/// The metrics of one device, with an optional polling interval (seconds).
#[derive(Debug, Clone)]
pub struct DeviceStats {
    pub interval: Option<u32>,
    pub percentage: Option<DeviceMeter>,
    pub frequency: Option<DeviceMeter>,
    pub temperature: Option<DeviceMeter>,
}

/// The devices whose metrics a theme shows, with an optional polling
/// interval (seconds).
#[derive(Debug, Clone)]
pub struct Stats {
    pub interval: Option<u32>,
    pub cpu: Option<DeviceStats>,
    pub gpu: Option<DeviceStats>,
}

#[derive(Debug, Clone)]
pub struct Theme {
    pub display: DisplayConfig,
    pub static_images: StaticImages,
    pub stats: Stats,
}

/// A device whose metrics a theme can show.
#[derive(Debug, Clone, Copy, PartialEq, Eq, Structural)]
pub enum Device {
    Cpu,
    Gpu,
}

/// A metric of a device.
#[derive(Debug, Clone, Copy, PartialEq, Eq, Structural)]
pub enum Metric {
    Percentage,
    Frequency,
    Temperature,
}

/// The polling interval, in seconds, of meters for which the theme gives none.
pub const DEFAULT_INTERVAL: u32 = 2;

/// The key that names a meter, `DEVICE:METRIC`.
pub open spec fn meter_key_spec(d: Device, m: Metric) -> &'static str {
    match (d, m) {
        (Device::Cpu, Metric::Percentage) => "CPU:PERCENTAGE",
        (Device::Cpu, Metric::Frequency) => "CPU:FREQUENCY",
        (Device::Cpu, Metric::Temperature) => "CPU:TEMPERATURE",
        (Device::Gpu, Metric::Percentage) => "GPU:PERCENTAGE",
        (Device::Gpu, Metric::Frequency) => "GPU:FREQUENCY",
        (Device::Gpu, Metric::Temperature) => "GPU:TEMPERATURE",
    }
}

#[verifier::when_used_as_spec(meter_key_spec)]
pub fn meter_key(d: Device, m: Metric) -> (k: &'static str)
    ensures
        k == meter_key_spec(d, m),
{
    match (d, m) {
        (Device::Cpu, Metric::Percentage) => "CPU:PERCENTAGE",
        (Device::Cpu, Metric::Frequency) => "CPU:FREQUENCY",
        (Device::Cpu, Metric::Temperature) => "CPU:TEMPERATURE",
        (Device::Gpu, Metric::Percentage) => "GPU:PERCENTAGE",
        (Device::Gpu, Metric::Frequency) => "GPU:FREQUENCY",
        (Device::Gpu, Metric::Temperature) => "GPU:TEMPERATURE",
    }
}

/// The 64-bit XXH3 hash (seed 0, default secret) of `data`.
pub uninterp spec fn xxh3_of(data: Seq<u8>) -> u64;

/// Relies on `xxhash_rust::xxh3::xxh3_64`, which hashes the bytes with XXH3
/// (seed 0, default secret); the result depends on the bytes alone.
#[verifier::external_body]
fn xxh3_hash(data: &[u8]) -> (h: u64)
    ensures
        h == xxh3_of(data@),
{
    xxhash_rust::xxh3::xxh3_64(data)
}

/// The id of a meter: the hash of its key.
pub open spec fn meter_id_spec(d: Device, m: Metric) -> u64 {
    xxh3_of(meter_key_spec(d, m).spec_bytes())
}

/// The id of the meter of metric `m` of device `d`.
pub fn meter_id(d: Device, m: Metric) -> (id: u64)
    ensures
        id == meter_id_spec(d, m),
{
    xxh3_hash(meter_key(d, m).as_bytes())
}

/// `local` when it is given, else `inherited`.
pub open spec fn interval_or(inherited: u32, local: Option<u32>) -> u32 {
    match local {
        Some(v) => v,
        None => inherited,
    }
}

fn pick_interval(inherited: u32, local: Option<u32>) -> (r: u32)
    ensures
        r == interval_or(inherited, local),
{
    match local {
        Some(v) => v,
        None => inherited,
    }
}

/// The configuration of the meter of `d`/`m` when the theme defines it.
pub open spec fn meter_entry(d: Device, m: Metric, layout: Option<DeviceMeter>, inherited: u32) -> Seq<MeterConfig> {
    match layout {
        Some(l) => seq![MeterConfig { id: meter_id_spec(d, m), interval: interval_or(inherited, l.interval), layout: l }],
        None => Seq::empty(),
    }
}

/// The configurations of the meters of device `d`, in metric order.
pub open spec fn device_entries(d: Device, stats: Option<DeviceStats>, inherited: u32) -> Seq<MeterConfig> {
    match stats {
        Some(s) => {
            let i = interval_or(inherited, s.interval);
            meter_entry(d, Metric::Percentage, s.percentage, i) + meter_entry(d, Metric::Frequency, s.frequency, i)
                + meter_entry(d, Metric::Temperature, s.temperature, i)
        },
        None => Seq::empty(),
    }
}

/// The meters that a theme defines: CPU first, then GPU, each in the order
/// percentage, frequency, temperature. A meter's interval is the first one
/// given of its own, its device's, the theme's and `DEFAULT_INTERVAL`.
pub open spec fn meter_list(theme: Theme) -> Seq<MeterConfig> {
    let i = interval_or(DEFAULT_INTERVAL, theme.stats.interval);
    device_entries(Device::Cpu, theme.stats.cpu, i) + device_entries(Device::Gpu, theme.stats.gpu, i)
}

fn add_meter(res: &mut Vec<MeterConfig>, d: Device, m: Metric, layout: Option<DeviceMeter>, inherited: u32)
    ensures
        final(res)@ == old(res)@ + meter_entry(d, m, layout, inherited),
{
    match layout {
        Some(l) => {
            let interval = pick_interval(inherited, l.interval);
            res.push(MeterConfig { id: meter_id(d, m), interval, layout: l });
        },
        None => {},
    }
    assert(final(res)@ =~= old(res)@ + meter_entry(d, m, layout, inherited));
}

fn add_device(res: &mut Vec<MeterConfig>, d: Device, stats: Option<DeviceStats>, inherited: u32)
    ensures
        final(res)@ == old(res)@ + device_entries(d, stats, inherited),
{
    match stats {
        Some(s) => {
            let i = pick_interval(inherited, s.interval);
            let DeviceStats { interval: _, percentage, frequency, temperature } = s;
            add_meter(res, d, Metric::Percentage, percentage, i);
            add_meter(res, d, Metric::Frequency, frequency, i);
            add_meter(res, d, Metric::Temperature, temperature, i);
        },
        None => {},
    }
    assert(final(res)@ =~= old(res)@ + device_entries(d, stats, inherited));
}

/// The meters that `theme` defines (see `meter_list`).
pub fn get_meter_list(theme: Theme) -> (r: Vec<MeterConfig>)
    ensures
        r@ == meter_list(theme),
{
    let ghost t = theme;
    let Theme { display: _, static_images: _, stats } = theme;
    let i = pick_interval(DEFAULT_INTERVAL, stats.interval);
    let Stats { interval: _, cpu, gpu } = stats;
    let mut res: Vec<MeterConfig> = Vec::new();
    add_device(&mut res, Device::Cpu, cpu, i);
    add_device(&mut res, Device::Gpu, gpu, i);
    assert(res@ =~= meter_list(t));
    res
}

} // verus!
