//! What one poll cycle does with what the sources returned: the records it
//! writes and the outcome it reports.
use vstd::prelude::*;
use vstd::string::StringExecFns;

use crate::decimal::Decimal;
use crate::metrics::{
    update_device_metrics, update_sensor_metrics, upsert_device_record, upsert_sensor_record, DeviceMetricsMap,
    DeviceMetricsView, SensorMetricsMap, SensorMetricsView,
};
use crate::cache::{merge_site_devices, UnifiCache};
use crate::models::{ApiError, CachedDevice, CachedSite, DeviceStatistics, DevicesResponse, Sensor};

verus! {

/// Why a call to a source failed.
#[derive(Clone, Debug)]
pub enum FetchError {
    /// The request did not complete: connection, timeout or TLS.
    Transport(String),
    /// The source answered with a non-success status; `cause` is the parsed
    /// error envelope when the body held one, `body` the raw body text.
    Api { status: u16, cause: Option<ApiError>, body: String },
    /// The answer could not be decoded.
    Decode(String),
}

impl FetchError {
    /// The source rejected the credentials: its error envelope is named
    /// `API_ERROR` or `UNKNOWN_ERROR`.
    pub fn is_auth_failure(&self) -> (r: bool)
        ensures
            r == match self {
                FetchError::Api { cause: Some(c), .. } => c.name@ == "API_ERROR"@ || c.name@ == "UNKNOWN_ERROR"@,
                _ => false,
            },
    {
        match self {
            FetchError::Api { cause: Some(c), .. } => {
                c.name == String::from_str("API_ERROR") || c.name == String::from_str("UNKNOWN_ERROR")
            },
            _ => false,
        }
    }
}

/// The failure that an answer with HTTP status `status` stands for: none for
/// a success status (2xx), else an API failure that carries the status, the
/// parsed error envelope if the body held one, and the raw body.
pub fn response_failure(status: u16, body: String, envelope: Option<ApiError>) -> (r: Option<FetchError>)
    ensures
        200 <= status <= 299 ==> r is None,
        !(200 <= status <= 299) ==> r == Some(FetchError::Api { status, cause: envelope, body }),
{
    if 200 <= status && status <= 299 {
        None
    } else {
        Some(FetchError::Api { status, cause: envelope, body })
    }
}

/// What `str::to_uppercase` returns for `s`.
pub uninterp spec fn upper_of(s: Seq<char>) -> Seq<char>;

/// Relies on `str::to_uppercase`: its result depends on the characters alone.
#[verifier::external_body]
fn uppercase(s: &str) -> (r: String)
    ensures
        r@ == upper_of(s@),
{
    s.to_uppercase()
}

/// 1 when the upper-cased state `upper` is `expected`, else 0.
pub fn state_flag(upper: &str, expected: &str) -> (r: i32)
    ensures
        r == (if upper@ == expected@ { 1i32 } else { 0i32 }),
{
    if upper.to_owned() == expected.to_owned() {
        1
    } else {
        0
    }
}

/// The connectivity of a device: 1 when its state, upper-cased, is `ONLINE`.
pub open spec fn device_state_spec(state: Seq<char>) -> i32 {
    if upper_of(state) == "ONLINE"@ { 1 } else { 0 }
}

/// The connectivity of a sensor: 1 when its state, upper-cased, is `CONNECTED`.
pub open spec fn sensor_state_spec(state: Seq<char>) -> i32 {
    if upper_of(state) == "CONNECTED"@ { 1 } else { 0 }
}

/// The connectivity of a device as 0 or 1, compared without case.
pub fn device_state_value(state: &str) -> (r: i32)
    ensures
        r == device_state_spec(state@),
{
    let up = uppercase(state);
    state_flag(up.as_str(), "ONLINE")
}

/// The connectivity of a sensor as 0 or 1, compared without case.
pub fn sensor_state_value(state: &str) -> (r: i32)
    ensures
        r == sensor_state_spec(state@),
{
    let up = uppercase(state);
    state_flag(up.as_str(), "CONNECTED")
}

/// The uplink transmit rate of the statistics, if reported.
pub open spec fn tx_rate_of(stats: DeviceStatistics) -> Option<Decimal> {
    match stats.uplink {
        Some(u) => u.tx_rate_bps,
        None => None,
    }
}

/// The uplink receive rate of the statistics, if reported.
pub open spec fn rx_rate_of(stats: DeviceStatistics) -> Option<Decimal> {
    match stats.uplink {
        Some(u) => u.rx_rate_bps,
        None => None,
    }
}

/// The record that fresh statistics of a cached device give.
pub open spec fn device_record_of(site: CachedSite, device: CachedDevice, stats: DeviceStatistics) -> DeviceMetricsView {
    DeviceMetricsView {
        site_id: site.id@,
        site_name: site.name@,
        device_id: device.id@,
        device_name: device.name@,
        device_model: device.model@,
        ip_address: match device.ip_address {
            Some(ip) => ip@,
            None => "unknown"@,
        },
        cpu_usage: stats.cpu_utilization_pct,
        memory_usage: stats.memory_utilization_pct,
        uplink_tx_rate: tx_rate_of(stats),
        uplink_rx_rate: rx_rate_of(stats),
        state: device_state_spec(device.state@),
    }
}

/// Writes the record of a device from the cached identity and fresh
/// statistics, replacing the device's earlier record whole.
pub fn record_device_statistics(
    map: &mut DeviceMetricsMap,
    site: &CachedSite,
    device: &CachedDevice,
    stats: &DeviceStatistics,
)
    requires
        old(map).wf(),
    ensures
        final(map).wf(),
        final(map)@ == upsert_device_record(old(map)@, device_record_of(*site, *device, *stats)),
{
    let state_value = device_state_value(device.state.as_str());
    let (tx, rx) = match &stats.uplink {
        Some(u) => (u.tx_rate_bps, u.rx_rate_bps),
        None => (None, None),
    };
    let ip: &str = match &device.ip_address {
        Some(ip) => ip.as_str(),
        None => "unknown",
    };
    update_device_metrics(
        map,
        site.id.as_str(),
        site.name.as_str(),
        device.id.as_str(),
        device.name.as_str(),
        device.model.as_str(),
        ip,
        stats.cpu_utilization_pct,
        stats.memory_utilization_pct,
        tx,
        rx,
        state_value,
    );
}

/// Handles the answer to one device's statistics request within a poll
/// cycle: on success the device's record is written; on failure nothing
/// changes, the last known record stays, and the cycle is marked failed.
/// `cycle_ok` stays true only while no request of the cycle has failed.
pub fn apply_device_result(
    map: &mut DeviceMetricsMap,
    site: &CachedSite,
    device: &CachedDevice,
    result: &Result<DeviceStatistics, FetchError>,
    cycle_ok: &mut bool,
)
    requires
        old(map).wf(),
    ensures
        final(map).wf(),
        *final(cycle_ok) == (*old(cycle_ok) && result is Ok),
        match result {
            Ok(stats) => final(map)@ == upsert_device_record(old(map)@, device_record_of(*site, *device, *stats)),
            Err(_) => final(map)@ == old(map)@,
        },
{
    match result {
        Ok(stats) => {
            record_device_statistics(map, site, device, stats);
        },
        Err(_) => {
            *cycle_ok = false;
        },
    }
}

/// Handles the answer to one site's device list request while the topology
/// is first loaded: on success the devices are merged into that site and
/// `true` returned; on failure the cache is left as it is and `false`
/// returned, so the other sites still load.
pub fn apply_devices_result(
    cache: &mut UnifiCache,
    site_id: &str,
    result: Result<DevicesResponse, FetchError>,
) -> (ok: bool)
    requires
        old(cache).wf(),
    ensures
        final(cache).wf(),
        ok == result is Ok,
        match result {
            Ok(r) => final(cache)@ == merge_site_devices(old(cache)@, site_id@, r.data@),
            Err(_) => final(cache)@ == old(cache)@,
        },
{
    match result {
        Ok(r) => {
            cache.update_devices(site_id, r.data);
            true
        },
        Err(_) => false,
    }
}

/// A reading inside its optional wrapper; an absent wrapper is an absent
/// reading.
pub open spec fn wrapped_value(v: Option<crate::models::SensorValue>) -> Option<Decimal> {
    match v {
        Some(x) => x.value,
        None => None,
    }
}

/// A flag as 1 or 0.
pub open spec fn flag_value(b: Option<bool>) -> Option<i32> {
    match b {
        Some(x) => Some(if x { 1i32 } else { 0i32 }),
        None => None,
    }
}

/// The record that a reported sensor gives.
pub open spec fn sensor_record_of(s: Sensor) -> SensorMetricsView {
    SensorMetricsView {
        sensor_id: s.id@,
        sensor_name: s.name@,
        mount_type: match s.mount_type {
            Some(m) => m@,
            None => "unknown"@,
        },
        temperature: match s.stats {
            Some(st) => wrapped_value(st.temperature),
            None => None,
        },
        humidity: match s.stats {
            Some(st) => wrapped_value(st.humidity),
            None => None,
        },
        light: match s.stats {
            Some(st) => wrapped_value(st.light),
            None => None,
        },
        battery: match s.battery_status {
            Some(b) => b.percentage,
            None => None,
        },
        state: sensor_state_spec(s.state@),
        motion_detected: flag_value(s.is_motion_detected),
        is_opened: flag_value(s.is_opened),
    }
}

/// The sensor records after writing the record of each of `sensors` in order.
pub open spec fn record_sensors(s: Seq<SensorMetricsView>, sensors: Seq<Sensor>) -> Seq<SensorMetricsView>
    decreases sensors.len(),
{
    if sensors.len() == 0 {
        s
    } else {
        upsert_sensor_record(record_sensors(s, sensors.drop_last()), sensor_record_of(sensors.last()))
    }
}

fn wrapped_reading(v: &Option<crate::models::SensorValue>) -> (r: Option<Decimal>)
    ensures
        r == wrapped_value(*v),
{
    match v {
        Some(x) => x.value,
        None => None,
    }
}

fn flag(b: Option<bool>) -> (r: Option<i32>)
    ensures
        r == flag_value(b),
{
    match b {
        Some(x) => Some(if x { 1 } else { 0 }),
        None => None,
    }
}

/// Writes the record of one reported sensor, replacing its earlier record
/// whole.
pub fn record_sensor_metrics(map: &mut SensorMetricsMap, sensor: &Sensor)
    requires
        old(map).wf(),
    ensures
        final(map).wf(),
        final(map)@ == upsert_sensor_record(old(map)@, sensor_record_of(*sensor)),
{
    let mount_type: &str = match &sensor.mount_type {
        Some(m) => m.as_str(),
        None => "unknown",
    };
    let state_value = sensor_state_value(sensor.state.as_str());
    let battery = match &sensor.battery_status {
        Some(b) => b.percentage,
        None => None,
    };
    let (temperature, humidity, light) = match &sensor.stats {
        Some(st) => (wrapped_reading(&st.temperature), wrapped_reading(&st.humidity), wrapped_reading(&st.light)),
        None => (None, None, None),
    };
    update_sensor_metrics(
        map,
        sensor.id.as_str(),
        sensor.name.as_str(),
        mount_type,
        temperature,
        humidity,
        light,
        battery,
        state_value,
        flag(sensor.is_motion_detected),
        flag(sensor.is_opened),
    );
}

/// Handles the answer to the sensor list request: on success every sensor's
/// record is written, in order, and `true` returned; on failure no sensor
/// record changes and `false` is returned.
pub fn apply_sensor_result(map: &mut SensorMetricsMap, result: &Result<Vec<Sensor>, FetchError>) -> (ok: bool)
    requires
        old(map).wf(),
    ensures
        final(map).wf(),
        ok == result is Ok,
        match result {
            Ok(sensors) => final(map)@ == record_sensors(old(map)@, sensors@),
            Err(_) => final(map)@ == old(map)@,
        },
{
    match result {
        Ok(sensors) => {
            let mut i: usize = 0;
            while i < sensors.len()
                invariant
                    i <= sensors.len(),
                    map.wf(),
                    map@ == record_sensors(old(map)@, sensors@.take(i as int)),
                decreases sensors.len() - i,
            {
                assert(sensors@.take(i as int + 1).drop_last() =~= sensors@.take(i as int));
                assert(sensors@.take(i as int + 1).last() == sensors@[i as int]);
                record_sensor_metrics(map, &sensors[i]);
                i = i + 1;
            }
            assert(sensors@.take(i as int) =~= sensors@);
            true
        },
        Err(_) => false,
    }
}

} // verus!
