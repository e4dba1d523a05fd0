//! Records that the device-inventory and sensor APIs return, and the cached
//! topology built from them.
use vstd::prelude::*;

use crate::decimal::Decimal;

verus! {

/// The error envelope of an API response.
#[derive(Clone, Debug)]
pub struct ApiError {
    pub error: String,
    pub name: String,
    pub cause: Option<ErrorCause>,
}

/// The nested cause inside an [`ApiError`].
#[derive(Clone, Debug)]
pub struct ErrorCause {
    pub error: String,
    pub name: String,
}

/// One page of sites.
#[derive(Clone, Debug)]
pub struct SitesResponse {
    pub offset: Option<u32>,
    pub limit: Option<u32>,
    pub count: Option<u32>,
    pub total_count: Option<u32>,
    pub data: Vec<Site>,
}

/// A site as the device-inventory API reports it.
#[derive(Clone, Debug)]
pub struct Site {
    pub id: String,
    pub internal_reference: Option<String>,
    pub name: String,
}

/// One page of devices of a site.
#[derive(Clone, Debug)]
pub struct DevicesResponse {
    pub offset: Option<u32>,
    pub limit: Option<u32>,
    pub count: Option<u32>,
    pub total_count: Option<u32>,
    pub data: Vec<Device>,
}

/// A device as the device-inventory API reports it.
#[derive(Clone, Debug)]
pub struct Device {
    pub id: String,
    pub name: String,
    pub model: String,
    pub mac_address: String,
    pub ip_address: Option<String>,
    pub state: String,
    pub features: Option<Vec<String>>,
    pub interfaces: Option<Vec<String>>,
}

/// The latest statistics of one device.
#[derive(Clone, Debug)]
pub struct DeviceStatistics {
    pub uptime_sec: Option<i64>,
    pub last_heartbeat_at: Option<String>,
    pub next_heartbeat_at: Option<String>,
    pub load_average_1min: Option<Decimal>,
    pub load_average_5min: Option<Decimal>,
    pub load_average_15min: Option<Decimal>,
    pub cpu_utilization_pct: Option<Decimal>,
    pub memory_utilization_pct: Option<Decimal>,
    pub uplink: Option<UplinkStats>,
    pub interfaces: Option<InterfaceStats>,
}

/// Uplink rates of a device, in bits per second.
#[derive(Clone, Copy, Debug)]
pub struct UplinkStats {
    pub tx_rate_bps: Option<Decimal>,
    pub rx_rate_bps: Option<Decimal>,
}

/// Interface statistics of a device.
#[derive(Clone, Debug)]
pub struct InterfaceStats {
    pub radios: Option<Vec<RadioStats>>,
}

/// Statistics of one radio.
#[derive(Clone, Copy, Debug)]
pub struct RadioStats {
    pub frequency_ghz: Option<Decimal>,
    pub tx_retries_pct: Option<Decimal>,
}

/// A sensor as the sensor API reports it.
#[derive(Clone, Debug)]
pub struct Sensor {
    pub id: String,
    pub model_key: String,
    pub state: String,
    pub name: String,
    pub mount_type: Option<String>,
    pub battery_status: Option<BatteryStatus>,
    pub stats: Option<SensorStats>,
    pub light_settings: Option<SensorSettings>,
    pub humidity_settings: Option<SensorSettings>,
    pub temperature_settings: Option<SensorSettings>,
    pub is_opened: Option<bool>,
    pub open_status_changed_at: Option<i64>,
    pub is_motion_detected: Option<bool>,
    pub motion_detected_at: Option<i64>,
    pub motion_settings: Option<MotionSettings>,
    pub alarm_triggered_at: Option<i64>,
    pub alarm_settings: Option<AlarmSettings>,
    pub leak_detected_at: Option<i64>,
    pub external_leak_detected_at: Option<i64>,
    pub leak_settings: Option<LeakSettings>,
    pub tampering_detected_at: Option<i64>,
}

/// Battery state of a sensor.
#[derive(Clone, Copy, Debug)]
pub struct BatteryStatus {
    pub percentage: Option<Decimal>,
    pub is_low: Option<bool>,
}

/// The readings of a sensor, each in its own wrapper.
#[derive(Clone, Debug)]
pub struct SensorStats {
    pub light: Option<SensorValue>,
    pub humidity: Option<SensorValue>,
    pub temperature: Option<SensorValue>,
}

/// One reading of a sensor.
#[derive(Clone, Debug)]
pub struct SensorValue {
    pub value: Option<Decimal>,
    pub status: Option<String>,
}

/// Thresholds of one kind of reading.
#[derive(Clone, Copy, Debug)]
pub struct SensorSettings {
    pub is_enabled: Option<bool>,
    pub margin: Option<Decimal>,
    pub low_threshold: Option<Decimal>,
    pub high_threshold: Option<Decimal>,
}

/// Motion detection settings.
#[derive(Clone, Copy, Debug)]
pub struct MotionSettings {
    pub is_enabled: Option<bool>,
    pub sensitivity: Option<u32>,
}

/// Alarm settings.
#[derive(Clone, Copy, Debug)]
pub struct AlarmSettings {
    pub is_enabled: Option<bool>,
}

/// Leak detection settings.
#[derive(Clone, Copy, Debug)]
pub struct LeakSettings {
    pub is_internal_enabled: Option<bool>,
    pub is_external_enabled: Option<bool>,
}

/// A site in the topology cache with the devices seen in it.
#[derive(Clone, Debug)]
pub struct CachedSite {
    pub id: String,
    pub name: String,
    pub devices: Vec<CachedDevice>,
}

/// A device in the topology cache.
#[derive(Clone, Debug)]
pub struct CachedDevice {
    pub id: String,
    pub name: String,
    pub model: String,
    pub ip_address: Option<String>,
    pub state: String,
}

/// The text of an optional string.
pub open spec fn opt_text(o: Option<String>) -> Option<Seq<char>> {
    match o {
        Some(s) => Some(s@),
        None => None,
    }
}

/// What the cache holds of a device.
pub struct DeviceView {
    pub id: Seq<char>,
    pub name: Seq<char>,
    pub model: Seq<char>,
    pub ip_address: Option<Seq<char>>,
    pub state: Seq<char>,
}

/// What the cache holds of a site: its identity and its devices in the order
/// in which they were first seen.
pub struct SiteView {
    pub id: Seq<char>,
    pub name: Seq<char>,
    pub devices: Seq<DeviceView>,
}

impl View for CachedDevice {
    type V = DeviceView;

    open spec fn view(&self) -> DeviceView {
        DeviceView {
            id: self.id@,
            name: self.name@,
            model: self.model@,
            ip_address: opt_text(self.ip_address),
            state: self.state@,
        }
    }
}

impl View for CachedSite {
    type V = SiteView;

    open spec fn view(&self) -> SiteView {
        SiteView {
            id: self.id@,
            name: self.name@,
            devices: self.devices@.map_values(|d: CachedDevice| d@),
        }
    }
}

/// A copy of an optional string.
pub fn copy_opt_string(o: &Option<String>) -> (r: Option<String>)
    ensures
        opt_text(r) == opt_text(*o),
{
    match o {
        Some(s) => Some(s.clone()),
        None => None,
    }
}

impl CachedDevice {
    /// A copy of the device, field by field.
    pub fn copy(&self) -> (r: CachedDevice)
        ensures
            r@ == self@,
    {
        CachedDevice {
            id: self.id.clone(),
            name: self.name.clone(),
            model: self.model.clone(),
            ip_address: copy_opt_string(&self.ip_address),
            state: self.state.clone(),
        }
    }
}

impl CachedSite {
    /// A copy of the site and of all its devices.
    pub fn copy(&self) -> (r: CachedSite)
        ensures
            r@ == self@,
    {
        let mut devices: Vec<CachedDevice> = Vec::new();
        let mut i: usize = 0;
        while i < self.devices.len()
            invariant
                i <= self.devices.len(),
                devices.len() == i,
                forall|j: int| 0 <= j < i ==> (#[trigger] devices@[j])@ == self.devices@[j]@,
            decreases self.devices.len() - i,
        {
            devices.push(self.devices[i].copy());
            i = i + 1;
        }
        assert(devices@.map_values(|d: CachedDevice| d@) =~= self.devices@.map_values(
            |d: CachedDevice| d@,
        ));
        CachedSite { id: self.id.clone(), name: self.name.clone(), devices }
    }
}

} // verus!
