//! The metrics store (latest record per device, sensor and poll source) and
//! the OpenMetrics text rendered from it.
use vstd::prelude::*;
use vstd::string::StringExecFns;

use crate::decimal::{decimal_text, int_text, lemma_number_text_single_line, push_number, ratio_text, Decimal};
use crate::exposition::{
    any_present, escape_label, family_text, header_text, is_line_start, lemma_escaped_has_no_line_feed,
    lemma_family_well_lined, lemma_literal_single_line, lemma_single_line_concat, lemma_well_lined_concat,
    push_escaped, row_view, samples_text, single_line, well_lined, write_family, Row,
};
use crate::models::opt_text;

verus! {

/// The latest statistics of one device, with the identity fields that label
/// its samples.
#[derive(Clone, Debug)]
pub struct DeviceMetrics {
    pub site_id: String,
    pub site_name: String,
    pub device_id: String,
    pub device_name: String,
    pub device_model: String,
    pub ip_address: String,
    pub cpu_usage: Option<Decimal>,
    pub memory_usage: Option<Decimal>,
    pub uplink_tx_rate: Option<Decimal>,
    pub uplink_rx_rate: Option<Decimal>,
    pub state: i32,
}

/// The latest readings of one sensor.
#[derive(Clone, Debug)]
pub struct SensorMetrics {
    pub sensor_id: String,
    pub sensor_name: String,
    pub mount_type: String,
    pub temperature: Option<Decimal>,
    pub humidity: Option<Decimal>,
    pub light: Option<Decimal>,
    pub battery: Option<Decimal>,
    pub state: i32,
    pub motion_detected: Option<i32>,
    pub is_opened: Option<i32>,
}

/// The outcome of the latest poll of one source: success as 0 or 1 and the
/// duration in seconds.
#[derive(Clone, Copy, Debug, PartialEq, Eq)]
pub struct PollMetrics {
    pub success: i32,
    pub duration: Decimal,
}

/// The text fields of a [`DeviceMetrics`], with its numbers.
pub struct DeviceMetricsView {
    pub site_id: Seq<char>,
    pub site_name: Seq<char>,
    pub device_id: Seq<char>,
    pub device_name: Seq<char>,
    pub device_model: Seq<char>,
    pub ip_address: Seq<char>,
    pub cpu_usage: Option<Decimal>,
    pub memory_usage: Option<Decimal>,
    pub uplink_tx_rate: Option<Decimal>,
    pub uplink_rx_rate: Option<Decimal>,
    pub state: i32,
}

/// The text fields of a [`SensorMetrics`], with its numbers.
pub struct SensorMetricsView {
    pub sensor_id: Seq<char>,
    pub sensor_name: Seq<char>,
    pub mount_type: Seq<char>,
    pub temperature: Option<Decimal>,
    pub humidity: Option<Decimal>,
    pub light: Option<Decimal>,
    pub battery: Option<Decimal>,
    pub state: i32,
    pub motion_detected: Option<i32>,
    pub is_opened: Option<i32>,
}

impl View for DeviceMetrics {
    type V = DeviceMetricsView;

    open spec fn view(&self) -> DeviceMetricsView {
        DeviceMetricsView {
            site_id: self.site_id@,
            site_name: self.site_name@,
            device_id: self.device_id@,
            device_name: self.device_name@,
            device_model: self.device_model@,
            ip_address: self.ip_address@,
            cpu_usage: self.cpu_usage,
            memory_usage: self.memory_usage,
            uplink_tx_rate: self.uplink_tx_rate,
            uplink_rx_rate: self.uplink_rx_rate,
            state: self.state,
        }
    }
}

impl View for SensorMetrics {
    type V = SensorMetricsView;

    open spec fn view(&self) -> SensorMetricsView {
        SensorMetricsView {
            sensor_id: self.sensor_id@,
            sensor_name: self.sensor_name@,
            mount_type: self.mount_type@,
            temperature: self.temperature,
            humidity: self.humidity,
            light: self.light,
            battery: self.battery,
            state: self.state,
            motion_detected: self.motion_detected,
            is_opened: self.is_opened,
        }
    }
}

/// What the three maps hold: each a sequence of records in the order in
/// which their keys were first written.
pub struct StoreView {
    pub devices: Seq<DeviceMetricsView>,
    pub sensors: Seq<SensorMetricsView>,
    pub polls: Seq<(Seq<char>, PollMetrics)>,
}

/// The key of a device record: its site id and its device id.
pub open spec fn device_key(r: DeviceMetricsView) -> (Seq<char>, Seq<char>) {
    (r.site_id, r.device_id)
}

/// The record of `key` is among `s`.
pub open spec fn has_device_record(s: Seq<DeviceMetricsView>, key: (Seq<char>, Seq<char>)) -> bool {
    exists|i: int| 0 <= i < s.len() && device_key(#[trigger] s[i]) == key
}

/// The record of `key` is among `s`.
pub open spec fn has_sensor_record(s: Seq<SensorMetricsView>, key: Seq<char>) -> bool {
    exists|i: int| 0 <= i < s.len() && (#[trigger] s[i]).sensor_id == key
}

/// The record of `key` is among `s`.
pub open spec fn has_poll_record(s: Seq<(Seq<char>, PollMetrics)>, key: Seq<char>) -> bool {
    exists|i: int| 0 <= i < s.len() && (#[trigger] s[i]).0 == key
}

/// The device records after `r` replaced the record of its key, or was added.
pub open spec fn upsert_device_record(s: Seq<DeviceMetricsView>, r: DeviceMetricsView) -> Seq<DeviceMetricsView> {
    if has_device_record(s, device_key(r)) {
        s.update(choose|i: int| 0 <= i < s.len() && device_key(#[trigger] s[i]) == device_key(r), r)
    } else {
        s.push(r)
    }
}

/// The sensor records after `r` replaced the record of its key, or was added.
pub open spec fn upsert_sensor_record(s: Seq<SensorMetricsView>, r: SensorMetricsView) -> Seq<SensorMetricsView> {
    if has_sensor_record(s, r.sensor_id) {
        s.update(choose|i: int| 0 <= i < s.len() && (#[trigger] s[i]).sensor_id == r.sensor_id, r)
    } else {
        s.push(r)
    }
}

/// The poll records after `r` replaced the record of its source, or was added.
pub open spec fn upsert_poll_record(s: Seq<(Seq<char>, PollMetrics)>, r: (Seq<char>, PollMetrics)) -> Seq<(Seq<char>, PollMetrics)> {
    if has_poll_record(s, r.0) {
        s.update(choose|i: int| 0 <= i < s.len() && (#[trigger] s[i]).0 == r.0, r)
    } else {
        s.push(r)
    }
}

/// Device keys are unique.
pub open spec fn unique_device_keys(s: Seq<DeviceMetricsView>) -> bool {
    forall|i: int, j: int|
        0 <= i < s.len() && 0 <= j < s.len() && i != j ==> device_key(#[trigger] s[i]) != device_key(#[trigger] s[j])
}

/// Sensor ids are unique.
pub open spec fn unique_sensor_ids(s: Seq<SensorMetricsView>) -> bool {
    forall|i: int, j: int|
        0 <= i < s.len() && 0 <= j < s.len() && i != j ==> (#[trigger] s[i]).sensor_id != (#[trigger] s[j]).sensor_id
}

/// Poll sources are unique.
pub open spec fn unique_poll_sources(s: Seq<(Seq<char>, PollMetrics)>) -> bool {
    forall|i: int, j: int| 0 <= i < s.len() && 0 <= j < s.len() && i != j ==> (#[trigger] s[i]).0 != (#[trigger] s[j]).0
}

/// The latest record of each device, keyed by (site id, device id).
pub struct DeviceMetricsMap {
    records: Vec<DeviceMetrics>,
}

/// The latest record of each sensor, keyed by sensor id.
pub struct SensorMetricsMap {
    records: Vec<SensorMetrics>,
}

/// The latest outcome of each poll source, keyed by the source's tag.
pub struct PollMetricsMap {
    records: Vec<(String, PollMetrics)>,
}

impl View for DeviceMetricsMap {
    type V = Seq<DeviceMetricsView>;

    closed spec fn view(&self) -> Seq<DeviceMetricsView> {
        self.records@.map_values(|r: DeviceMetrics| r@)
    }
}

impl View for SensorMetricsMap {
    type V = Seq<SensorMetricsView>;

    closed spec fn view(&self) -> Seq<SensorMetricsView> {
        self.records@.map_values(|r: SensorMetrics| r@)
    }
}

impl View for PollMetricsMap {
    type V = Seq<(Seq<char>, PollMetrics)>;

    closed spec fn view(&self) -> Seq<(Seq<char>, PollMetrics)> {
        self.records@.map_values(|r: (String, PollMetrics)| (r.0@, r.1))
    }
}

impl DeviceMetrics {
    /// A copy of the record, field by field.
    pub fn copy(&self) -> (r: DeviceMetrics)
        ensures
            r@ == self@,
    {
        DeviceMetrics {
            site_id: self.site_id.clone(),
            site_name: self.site_name.clone(),
            device_id: self.device_id.clone(),
            device_name: self.device_name.clone(),
            device_model: self.device_model.clone(),
            ip_address: self.ip_address.clone(),
            cpu_usage: self.cpu_usage,
            memory_usage: self.memory_usage,
            uplink_tx_rate: self.uplink_tx_rate,
            uplink_rx_rate: self.uplink_rx_rate,
            state: self.state,
        }
    }
}

impl SensorMetrics {
    /// A copy of the record, field by field.
    pub fn copy(&self) -> (r: SensorMetrics)
        ensures
            r@ == self@,
    {
        SensorMetrics {
            sensor_id: self.sensor_id.clone(),
            sensor_name: self.sensor_name.clone(),
            mount_type: self.mount_type.clone(),
            temperature: self.temperature,
            humidity: self.humidity,
            light: self.light,
            battery: self.battery,
            state: self.state,
            motion_detected: self.motion_detected,
            is_opened: self.is_opened,
        }
    }
}

impl DeviceMetricsMap {
    /// Keys are unique.
    pub open spec fn wf(&self) -> bool {
        unique_device_keys(self@)
    }

    /// An empty map.
    pub fn new() -> (r: DeviceMetricsMap)
        ensures
            r.wf(),
            r@.len() == 0,
    {
        let r = DeviceMetricsMap { records: Vec::new() };
        assert(r@ =~= Seq::<DeviceMetricsView>::empty());
        r
    }

    /// A copy of the whole map, to render from without holding it.
    pub fn snapshot(&self) -> (r: DeviceMetricsMap)
        ensures
            r@ == self@,
    {
        let mut records: Vec<DeviceMetrics> = Vec::new();
        let mut i: usize = 0;
        while i < self.records.len()
            invariant
                i <= self.records.len(),
                records.len() == i,
                forall|j: int| 0 <= j < i ==> (#[trigger] records@[j])@ == self.records@[j]@,
            decreases self.records.len() - i,
        {
            records.push(self.records[i].copy());
            i = i + 1;
        }
        let r = DeviceMetricsMap { records };
        assert(r@ =~= self@);
        r
    }
}

impl SensorMetricsMap {
    /// Keys are unique.
    pub open spec fn wf(&self) -> bool {
        unique_sensor_ids(self@)
    }

    /// An empty map.
    pub fn new() -> (r: SensorMetricsMap)
        ensures
            r.wf(),
            r@.len() == 0,
    {
        let r = SensorMetricsMap { records: Vec::new() };
        assert(r@ =~= Seq::<SensorMetricsView>::empty());
        r
    }

    /// A copy of the whole map, to render from without holding it.
    pub fn snapshot(&self) -> (r: SensorMetricsMap)
        ensures
            r@ == self@,
    {
        let mut records: Vec<SensorMetrics> = Vec::new();
        let mut i: usize = 0;
        while i < self.records.len()
            invariant
                i <= self.records.len(),
                records.len() == i,
                forall|j: int| 0 <= j < i ==> (#[trigger] records@[j])@ == self.records@[j]@,
            decreases self.records.len() - i,
        {
            records.push(self.records[i].copy());
            i = i + 1;
        }
        let r = SensorMetricsMap { records };
        assert(r@ =~= self@);
        r
    }
}

impl PollMetricsMap {
    /// Keys are unique.
    pub open spec fn wf(&self) -> bool {
        unique_poll_sources(self@)
    }

    /// An empty map.
    pub fn new() -> (r: PollMetricsMap)
        ensures
            r.wf(),
            r@.len() == 0,
    {
        let r = PollMetricsMap { records: Vec::new() };
        assert(r@ =~= Seq::<(Seq<char>, PollMetrics)>::empty());
        r
    }

    /// A copy of the whole map, to render from without holding it.
    pub fn snapshot(&self) -> (r: PollMetricsMap)
        ensures
            r@ == self@,
    {
        let mut records: Vec<(String, PollMetrics)> = Vec::new();
        let mut i: usize = 0;
        while i < self.records.len()
            invariant
                i <= self.records.len(),
                records.len() == i,
                forall|j: int|
                    0 <= j < i ==> (#[trigger] records@[j]).0@ == self.records@[j].0@ && records@[j].1
                        == self.records@[j].1,
            decreases self.records.len() - i,
        {
            let rec = &self.records[i];
            records.push((rec.0.clone(), rec.1));
            i = i + 1;
        }
        let r = PollMetricsMap { records };
        assert(r@ =~= self@);
        r
    }
}

/// The three maps of latest records. Each can be locked on its own; the
/// rendering reads one value of this type, usually built from snapshots.
pub struct MetricsStore {
    pub device_metrics: DeviceMetricsMap,
    pub sensor_metrics: SensorMetricsMap,
    pub poll_metrics: PollMetricsMap,
}

impl View for MetricsStore {
    type V = StoreView;

    open spec fn view(&self) -> StoreView {
        StoreView { devices: self.device_metrics@, sensors: self.sensor_metrics@, polls: self.poll_metrics@ }
    }
}

impl MetricsStore {
    /// An empty store.
    pub fn new() -> (r: MetricsStore)
        ensures
            r.device_metrics.wf(),
            r.sensor_metrics.wf(),
            r.poll_metrics.wf(),
            r@.devices.len() == 0,
            r@.sensors.len() == 0,
            r@.polls.len() == 0,
    {
        MetricsStore {
            device_metrics: DeviceMetricsMap::new(),
            sensor_metrics: SensorMetricsMap::new(),
            poll_metrics: PollMetricsMap::new(),
        }
    }
}

/// Replaces the record of the device (`site_id`, `device_id`) with one made
/// of these fields, or adds it; nothing of an earlier record is kept.
#[verifier::loop_isolation(false)]
pub fn update_device_metrics(
    map: &mut DeviceMetricsMap,
    site_id: &str,
    site_name: &str,
    device_id: &str,
    device_name: &str,
    device_model: &str,
    ip_address: &str,
    cpu_usage: Option<Decimal>,
    memory_usage: Option<Decimal>,
    uplink_tx_rate: Option<Decimal>,
    uplink_rx_rate: Option<Decimal>,
    state: i32,
)
    requires
        old(map).wf(),
    ensures
        final(map).wf(),
        final(map)@ == upsert_device_record(
            old(map)@,
            (DeviceMetricsView {
                site_id: site_id@,
                site_name: site_name@,
                device_id: device_id@,
                device_name: device_name@,
                device_model: device_model@,
                ip_address: ip_address@,
                cpu_usage,
                memory_usage,
                uplink_tx_rate,
                uplink_rx_rate,
                state,
            }),
        ),
{
    let r = DeviceMetrics {
        site_id: site_id.to_owned(),
        site_name: site_name.to_owned(),
        device_id: device_id.to_owned(),
        device_name: device_name.to_owned(),
        device_model: device_model.to_owned(),
        ip_address: ip_address.to_owned(),
        cpu_usage,
        memory_usage,
        uplink_tx_rate,
        uplink_rx_rate,
        state,
    };
    let ghost s0 = map@;
    let ghost rv = r@;
    proof {
        lemma_upsert_device_record(s0, rv);
    }
    let mut i: usize = 0;
    while i < map.records.len()
        invariant
            i <= map.records.len(),
            map@ == s0,
            forall|j: int| 0 <= j < i ==> device_key(#[trigger] s0[j]) != device_key(rv),
        decreases map.records.len() - i,
    {
        assert(s0[i as int] == map.records@[i as int]@);
        if map.records[i].site_id == r.site_id && map.records[i].device_id == r.device_id {
            map.records.set(i, r);
            proof {
                assert(device_key(s0[i as int]) == device_key(rv));
                let c = choose|x: int| 0 <= x < s0.len() && device_key(#[trigger] s0[x]) == device_key(rv);
                assert(c == i);
                assert(map@ =~= upsert_device_record(s0, rv));
            }
            return;
        }
        i = i + 1;
    }
    map.records.push(r);
    assert(map@ =~= upsert_device_record(s0, rv));
}

/// Replaces the record of the sensor `sensor_id` with one made of these
/// fields, or adds it; nothing of an earlier record is kept.
#[verifier::loop_isolation(false)]
pub fn update_sensor_metrics(
    map: &mut SensorMetricsMap,
    sensor_id: &str,
    sensor_name: &str,
    mount_type: &str,
    temperature: Option<Decimal>,
    humidity: Option<Decimal>,
    light: Option<Decimal>,
    battery: Option<Decimal>,
    state: i32,
    motion_detected: Option<i32>,
    is_opened: Option<i32>,
)
    requires
        old(map).wf(),
    ensures
        final(map).wf(),
        final(map)@ == upsert_sensor_record(
            old(map)@,
            (SensorMetricsView {
                sensor_id: sensor_id@,
                sensor_name: sensor_name@,
                mount_type: mount_type@,
                temperature,
                humidity,
                light,
                battery,
                state,
                motion_detected,
                is_opened,
            }),
        ),
{
    let r = SensorMetrics {
        sensor_id: sensor_id.to_owned(),
        sensor_name: sensor_name.to_owned(),
        mount_type: mount_type.to_owned(),
        temperature,
        humidity,
        light,
        battery,
        state,
        motion_detected,
        is_opened,
    };
    let ghost s0 = map@;
    let ghost rv = r@;
    proof {
        lemma_upsert_sensor_record(s0, rv);
    }
    let mut i: usize = 0;
    while i < map.records.len()
        invariant
            i <= map.records.len(),
            map@ == s0,
            forall|j: int| 0 <= j < i ==> (#[trigger] s0[j]).sensor_id != rv.sensor_id,
        decreases map.records.len() - i,
    {
        assert(s0[i as int] == map.records@[i as int]@);
        if map.records[i].sensor_id == r.sensor_id {
            map.records.set(i, r);
            proof {
                let c = choose|x: int| 0 <= x < s0.len() && (#[trigger] s0[x]).sensor_id == rv.sensor_id;
                assert(c == i);
                assert(map@ =~= upsert_sensor_record(s0, rv));
            }
            return;
        }
        i = i + 1;
    }
    map.records.push(r);
    assert(map@ =~= upsert_sensor_record(s0, rv));
}

/// Replaces the outcome recorded for the source `poll_type` (success as 1 or
/// 0, and the duration in seconds), or adds it.
#[verifier::loop_isolation(false)]
pub fn update_poll_metrics(map: &mut PollMetricsMap, poll_type: &str, success: bool, duration: Decimal)
    requires
        old(map).wf(),
    ensures
        final(map).wf(),
        final(map)@ == upsert_poll_record(
            old(map)@,
            (poll_type@, PollMetrics { success: if success { 1 } else { 0 }, duration }),
        ),
{
    let m = PollMetrics { success: if success { 1 } else { 0 }, duration };
    let key = poll_type.to_owned();
    let ghost s0 = map@;
    proof {
        lemma_upsert_poll_record(s0, (poll_type@, m));
    }
    let mut i: usize = 0;
    while i < map.records.len()
        invariant
            i <= map.records.len(),
            map@ == s0,
            forall|j: int| 0 <= j < i ==> (#[trigger] s0[j]).0 != poll_type@,
        decreases map.records.len() - i,
    {
        assert(s0[i as int] == (map.records@[i as int].0@, map.records@[i as int].1));
        if map.records[i].0 == key {
            map.records.set(i, (key, m));
            proof {
                let c = choose|x: int| 0 <= x < s0.len() && (#[trigger] s0[x]).0 == poll_type@;
                assert(c == i);
                assert(map@ =~= upsert_poll_record(s0, (poll_type@, m)));
            }
            return;
        }
        i = i + 1;
    }
    map.records.push((key, m));
    assert(map@ =~= upsert_poll_record(s0, (poll_type@, m)));
}

/// Writing a sensor record keeps ids unique.
pub proof fn lemma_upsert_sensor_record(s: Seq<SensorMetricsView>, r: SensorMetricsView)
    requires
        unique_sensor_ids(s),
    ensures
        unique_sensor_ids(upsert_sensor_record(s, r)),
{
    if has_sensor_record(s, r.sensor_id) {
        let k = choose|i: int| 0 <= i < s.len() && (#[trigger] s[i]).sensor_id == r.sensor_id;
        assert(upsert_sensor_record(s, r)[k] == r);
    } else {
        assert(upsert_sensor_record(s, r)[s.len() as int] == r);
    }
}

/// Writing a poll record keeps sources unique.
pub proof fn lemma_upsert_poll_record(s: Seq<(Seq<char>, PollMetrics)>, r: (Seq<char>, PollMetrics))
    requires
        unique_poll_sources(s),
    ensures
        unique_poll_sources(upsert_poll_record(s, r)),
{
    if has_poll_record(s, r.0) {
        let k = choose|i: int| 0 <= i < s.len() && (#[trigger] s[i]).0 == r.0;
        assert(upsert_poll_record(s, r)[k] == r);
    } else {
        assert(upsert_poll_record(s, r)[s.len() as int] == r);
    }
}

/// The metric families, in the order in which they are rendered.
#[derive(Clone, Copy, Debug, PartialEq, Eq, Structural)]
pub enum Family {
    DeviceCpu,
    DeviceMemory,
    DeviceUpload,
    DeviceDownload,
    DeviceState,
    SensorTemperature,
    SensorHumidity,
    SensorLight,
    SensorBattery,
    SensorState,
    SensorMotion,
    SensorOpened,
    PollSuccess,
    PollDuration,
}

/// Every family, in rendering order.
pub open spec fn all_families() -> Seq<Family> {
    seq![
        Family::DeviceCpu,
        Family::DeviceMemory,
        Family::DeviceUpload,
        Family::DeviceDownload,
        Family::DeviceState,
        Family::SensorTemperature,
        Family::SensorHumidity,
        Family::SensorLight,
        Family::SensorBattery,
        Family::SensorState,
        Family::SensorMotion,
        Family::SensorOpened,
        Family::PollSuccess,
        Family::PollDuration,
    ]
}

/// The label text of a device record.
pub open spec fn device_labels(r: DeviceMetricsView) -> Seq<char> {
    "site_id=\""@ + escape_label(r.site_id) + "\",site_name=\""@ + escape_label(r.site_name)
        + "\",device_id=\""@ + escape_label(r.device_id) + "\",device_name=\""@ + escape_label(r.device_name)
        + "\",device_model=\""@ + escape_label(r.device_model) + "\",ip_address=\""@ + escape_label(r.ip_address)
        + "\""@
}

/// The label text of a sensor record.
pub open spec fn sensor_labels(r: SensorMetricsView) -> Seq<char> {
    "sensor_id=\""@ + escape_label(r.sensor_id) + "\",sensor_name=\""@ + escape_label(r.sensor_name)
        + "\",mount_type=\""@ + escape_label(r.mount_type) + "\""@
}

/// The label text of a poll record.
pub open spec fn poll_labels(poll_type: Seq<char>) -> Seq<char> {
    "type=\""@ + escape_label(poll_type) + "\""@
}

/// The text of an optional reading.
pub open spec fn opt_decimal_text(d: Option<Decimal>) -> Option<Seq<char>> {
    match d {
        Some(x) => Some(decimal_text(x)),
        None => None,
    }
}

/// The text of an optional percentage reading divided by 100.
pub open spec fn opt_ratio_text(d: Option<Decimal>) -> Option<Seq<char>> {
    match d {
        Some(x) => Some(ratio_text(x)),
        None => None,
    }
}

/// The text of an optional whole number.
pub open spec fn opt_int_text(v: Option<i32>) -> Option<Seq<char>> {
    match v {
        Some(x) => Some(int_text(x as int)),
        None => None,
    }
}

/// The value that a device record shows in family `f`.
pub open spec fn device_value(f: Family, r: DeviceMetricsView) -> Option<Seq<char>> {
    match f {
        Family::DeviceCpu => opt_ratio_text(r.cpu_usage),
        Family::DeviceMemory => opt_ratio_text(r.memory_usage),
        Family::DeviceUpload => opt_decimal_text(r.uplink_tx_rate),
        Family::DeviceDownload => opt_decimal_text(r.uplink_rx_rate),
        Family::DeviceState => Some(int_text(r.state as int)),
        _ => None,
    }
}

/// The value that a sensor record shows in family `f`.
pub open spec fn sensor_value(f: Family, r: SensorMetricsView) -> Option<Seq<char>> {
    match f {
        Family::SensorTemperature => opt_decimal_text(r.temperature),
        Family::SensorHumidity => opt_ratio_text(r.humidity),
        Family::SensorLight => opt_decimal_text(r.light),
        Family::SensorBattery => opt_ratio_text(r.battery),
        Family::SensorState => Some(int_text(r.state as int)),
        Family::SensorMotion => opt_int_text(r.motion_detected),
        Family::SensorOpened => opt_int_text(r.is_opened),
        _ => None,
    }
}

/// The value that a poll record shows in family `f`.
pub open spec fn poll_value(f: Family, m: PollMetrics) -> Option<Seq<char>> {
    match f {
        Family::PollSuccess => Some(int_text(m.success as int)),
        Family::PollDuration => Some(decimal_text(m.duration)),
        _ => None,
    }
}

/// The family is about devices.
pub open spec fn is_device_family(f: Family) -> bool {
    f == Family::DeviceCpu || f == Family::DeviceMemory || f == Family::DeviceUpload
        || f == Family::DeviceDownload || f == Family::DeviceState
}

/// The family is about poll outcomes.
pub open spec fn is_poll_family(f: Family) -> bool {
    f == Family::PollSuccess || f == Family::PollDuration
}

/// The rows of family `f`: one per record of its kind, in store order.
pub open spec fn family_rows(f: Family, s: StoreView) -> Seq<(Seq<char>, Option<Seq<char>>)> {
    if is_device_family(f) {
        s.devices.map_values(|r: DeviceMetricsView| (device_labels(r), device_value(f, r)))
    } else if is_poll_family(f) {
        s.polls.map_values(|p: (Seq<char>, PollMetrics)| (poll_labels(p.0), poll_value(f, p.1)))
    } else {
        s.sensors.map_values(|r: SensorMetricsView| (sensor_labels(r), sensor_value(f, r)))
    }
}

/// The rendered block of family `f`.
pub open spec fn family_block(f: Family, s: StoreView) -> Seq<char> {
    family_text(f.name_spec(), f.help_spec(), f.unit_spec(), family_rows(f, s))
}

/// The blocks of `fams`, in order.
pub open spec fn blocks_text(fams: Seq<Family>, s: StoreView) -> Seq<char>
    decreases fams.len(),
{
    if fams.len() == 0 {
        Seq::empty()
    } else {
        blocks_text(fams.drop_last(), s) + family_block(fams.last(), s)
    }
}

/// The whole exposition of a store: every family's block, then `# EOF`.
pub open spec fn render_text(s: StoreView) -> Seq<char> {
    blocks_text(all_families(), s) + "# EOF\n"@
}

impl Family {
    /// The family's metric name.
    pub open spec fn name_spec(self) -> Seq<char> {
        match self {
            Family::DeviceCpu => "unifi_device_cpu_usage_ratio"@,
            Family::DeviceMemory => "unifi_device_memory_usage_ratio"@,
            Family::DeviceUpload => "unifi_device_upload_speed_bits_per_second"@,
            Family::DeviceDownload => "unifi_device_download_speed_bits_per_second"@,
            Family::DeviceState => "unifi_device_state"@,
            Family::SensorTemperature => "unifi_sensor_temperature_celsius"@,
            Family::SensorHumidity => "unifi_sensor_humidity_ratio"@,
            Family::SensorLight => "unifi_sensor_light_candela_per_square_meter"@,
            Family::SensorBattery => "unifi_sensor_battery_ratio"@,
            Family::SensorState => "unifi_sensor_state"@,
            Family::SensorMotion => "unifi_sensor_motion_detected"@,
            Family::SensorOpened => "unifi_sensor_opened"@,
            Family::PollSuccess => "unifi_poll_success"@,
            Family::PollDuration => "unifi_poll_duration_seconds"@,
        }
    }

    /// The family's HELP text.
    pub open spec fn help_spec(self) -> Seq<char> {
        match self {
            Family::DeviceCpu => "CPU usage of devices as a normalized ratio between 0.0 and 1.0."@,
            Family::DeviceMemory => "Memory usage of devices as a normalized ratio between 0.0 and 1.0."@,
            Family::DeviceUpload => "Upload speed in bits/sec"@,
            Family::DeviceDownload => "Download speed in bits/sec"@,
            Family::DeviceState => "Device state (1 = online, 0 = offline)"@,
            Family::SensorTemperature => "Temperature reading from sensor in Celsius"@,
            Family::SensorHumidity => "Current relative humidity measured by the sensor as a normalized ratio between 0.0 and 1.0."@,
            Family::SensorLight => "Current light level measured by the sensor in candela per square meter."@,
            Family::SensorBattery => "Battery level of the sensor as a normalized ratio between 0.0 and 1.0."@,
            Family::SensorState => "Sensor connection state (1 = connected, 0 = disconnected)"@,
            Family::SensorMotion => "Motion detection status (1 = detected, 0 = not detected)"@,
            Family::SensorOpened => "Door/window sensor status (1 = opened, 0 = closed)"@,
            Family::PollSuccess => "Whether the last poll was successful (1 = success, 0 = failure)"@,
            Family::PollDuration => "Duration of the last poll in seconds"@,
        }
    }

    /// The family's unit, for those that have one.
    pub open spec fn unit_spec(self) -> Option<Seq<char>> {
        match self {
            Family::DeviceCpu => Some("ratio"@),
            Family::DeviceMemory => Some("ratio"@),
            Family::DeviceUpload => Some("bits_per_second"@),
            Family::DeviceDownload => Some("bits_per_second"@),
            Family::SensorTemperature => Some("celsius"@),
            Family::SensorHumidity => Some("ratio"@),
            Family::SensorLight => Some("candela_per_square_meter"@),
            Family::SensorBattery => Some("ratio"@),
            Family::PollDuration => Some("seconds"@),
            _ => None,
        }
    }

    /// The family's metric name.
    pub fn name(&self) -> (r: &'static str)
        ensures
            r@ == self.name_spec(),
    {
        match self {
            Family::DeviceCpu => "unifi_device_cpu_usage_ratio",
            Family::DeviceMemory => "unifi_device_memory_usage_ratio",
            Family::DeviceUpload => "unifi_device_upload_speed_bits_per_second",
            Family::DeviceDownload => "unifi_device_download_speed_bits_per_second",
            Family::DeviceState => "unifi_device_state",
            Family::SensorTemperature => "unifi_sensor_temperature_celsius",
            Family::SensorHumidity => "unifi_sensor_humidity_ratio",
            Family::SensorLight => "unifi_sensor_light_candela_per_square_meter",
            Family::SensorBattery => "unifi_sensor_battery_ratio",
            Family::SensorState => "unifi_sensor_state",
            Family::SensorMotion => "unifi_sensor_motion_detected",
            Family::SensorOpened => "unifi_sensor_opened",
            Family::PollSuccess => "unifi_poll_success",
            Family::PollDuration => "unifi_poll_duration_seconds",
        }
    }

    /// The family's HELP text.
    pub fn help(&self) -> (r: &'static str)
        ensures
            r@ == self.help_spec(),
    {
        match self {
            Family::DeviceCpu => "CPU usage of devices as a normalized ratio between 0.0 and 1.0.",
            Family::DeviceMemory => "Memory usage of devices as a normalized ratio between 0.0 and 1.0.",
            Family::DeviceUpload => "Upload speed in bits/sec",
            Family::DeviceDownload => "Download speed in bits/sec",
            Family::DeviceState => "Device state (1 = online, 0 = offline)",
            Family::SensorTemperature => "Temperature reading from sensor in Celsius",
            Family::SensorHumidity => "Current relative humidity measured by the sensor as a normalized ratio between 0.0 and 1.0.",
            Family::SensorLight => "Current light level measured by the sensor in candela per square meter.",
            Family::SensorBattery => "Battery level of the sensor as a normalized ratio between 0.0 and 1.0.",
            Family::SensorState => "Sensor connection state (1 = connected, 0 = disconnected)",
            Family::SensorMotion => "Motion detection status (1 = detected, 0 = not detected)",
            Family::SensorOpened => "Door/window sensor status (1 = opened, 0 = closed)",
            Family::PollSuccess => "Whether the last poll was successful (1 = success, 0 = failure)",
            Family::PollDuration => "Duration of the last poll in seconds",
        }
    }

    /// The family's unit, for those that have one.
    pub fn unit(&self) -> (r: Option<&'static str>)
        ensures
            crate::exposition::unit_view(r) == self.unit_spec(),
    {
        match self {
            Family::DeviceCpu => Some("ratio"),
            Family::DeviceMemory => Some("ratio"),
            Family::DeviceUpload => Some("bits_per_second"),
            Family::DeviceDownload => Some("bits_per_second"),
            Family::SensorTemperature => Some("celsius"),
            Family::SensorHumidity => Some("ratio"),
            Family::SensorLight => Some("candela_per_square_meter"),
            Family::SensorBattery => Some("ratio"),
            Family::PollDuration => Some("seconds"),
            _ => None,
        }
    }

    /// Every family, in rendering order.
    pub fn all() -> (r: Vec<Family>)
        ensures
            r@ == all_families(),
    {
        let r = vec![
            Family::DeviceCpu,
            Family::DeviceMemory,
            Family::DeviceUpload,
            Family::DeviceDownload,
            Family::DeviceState,
            Family::SensorTemperature,
            Family::SensorHumidity,
            Family::SensorLight,
            Family::SensorBattery,
            Family::SensorState,
            Family::SensorMotion,
            Family::SensorOpened,
            Family::PollSuccess,
            Family::PollDuration,
        ];
        assert(r@ =~= all_families());
        r
    }
}

fn opt_decimal_string(d: Option<Decimal>) -> (r: Option<String>)
    ensures
        opt_text(r) == opt_decimal_text(d),
{
    match d {
        Some(x) => Some(x.to_text()),
        None => None,
    }
}

fn opt_ratio_string(d: Option<Decimal>) -> (r: Option<String>)
    ensures
        opt_text(r) == opt_ratio_text(d),
{
    match d {
        Some(x) => Some(x.to_ratio_text()),
        None => None,
    }
}

fn int_string(v: i32) -> (r: String)
    ensures
        r@ == int_text(v as int),
{
    let mut s = String::new();
    push_number(&mut s, v as i64, 0);
    assert(s@ =~= int_text(v as int));
    s
}

fn opt_int_string(v: Option<i32>) -> (r: Option<String>)
    ensures
        opt_text(r) == opt_int_text(v),
{
    match v {
        Some(x) => Some(int_string(x)),
        None => None,
    }
}

fn device_labels_string(r: &DeviceMetrics) -> (s: String)
    ensures
        s@ == device_labels(r@),
{
    let mut s = String::new();
    s.append("site_id=\"");
    push_escaped(&mut s, r.site_id.as_str());
    s.append("\",site_name=\"");
    push_escaped(&mut s, r.site_name.as_str());
    s.append("\",device_id=\"");
    push_escaped(&mut s, r.device_id.as_str());
    s.append("\",device_name=\"");
    push_escaped(&mut s, r.device_name.as_str());
    s.append("\",device_model=\"");
    push_escaped(&mut s, r.device_model.as_str());
    s.append("\",ip_address=\"");
    push_escaped(&mut s, r.ip_address.as_str());
    s.append("\"");
    assert(s@ =~= device_labels(r@));
    s
}

fn sensor_labels_string(r: &SensorMetrics) -> (s: String)
    ensures
        s@ == sensor_labels(r@),
{
    let mut s = String::new();
    s.append("sensor_id=\"");
    push_escaped(&mut s, r.sensor_id.as_str());
    s.append("\",sensor_name=\"");
    push_escaped(&mut s, r.sensor_name.as_str());
    s.append("\",mount_type=\"");
    push_escaped(&mut s, r.mount_type.as_str());
    s.append("\"");
    assert(s@ =~= sensor_labels(r@));
    s
}

fn poll_labels_string(poll_type: &String) -> (s: String)
    ensures
        s@ == poll_labels(poll_type@),
{
    let mut s = String::new();
    s.append("type=\"");
    push_escaped(&mut s, poll_type.as_str());
    s.append("\"");
    assert(s@ =~= poll_labels(poll_type@));
    s
}

fn device_value_string(f: Family, r: &DeviceMetrics) -> (v: Option<String>)
    ensures
        opt_text(v) == device_value(f, r@),
{
    match f {
        Family::DeviceCpu => opt_ratio_string(r.cpu_usage),
        Family::DeviceMemory => opt_ratio_string(r.memory_usage),
        Family::DeviceUpload => opt_decimal_string(r.uplink_tx_rate),
        Family::DeviceDownload => opt_decimal_string(r.uplink_rx_rate),
        Family::DeviceState => Some(int_string(r.state)),
        _ => None,
    }
}

fn sensor_value_string(f: Family, r: &SensorMetrics) -> (v: Option<String>)
    ensures
        opt_text(v) == sensor_value(f, r@),
{
    match f {
        Family::SensorTemperature => opt_decimal_string(r.temperature),
        Family::SensorHumidity => opt_ratio_string(r.humidity),
        Family::SensorLight => opt_decimal_string(r.light),
        Family::SensorBattery => opt_ratio_string(r.battery),
        Family::SensorState => Some(int_string(r.state)),
        Family::SensorMotion => opt_int_string(r.motion_detected),
        Family::SensorOpened => opt_int_string(r.is_opened),
        _ => None,
    }
}

fn poll_value_string(f: Family, m: PollMetrics) -> (v: Option<String>)
    ensures
        opt_text(v) == poll_value(f, m),
{
    match f {
        Family::PollSuccess => Some(int_string(m.success)),
        Family::PollDuration => Some(m.duration.to_text()),
        _ => None,
    }
}

impl MetricsStore {
    fn family_rows_of(&self, f: Family) -> (r: Vec<Row>)
        ensures
            r@.map_values(|x: Row| row_view(x)) == family_rows(f, self@),
    {
        let mut rows: Vec<Row> = Vec::new();
        if f == Family::DeviceCpu || f == Family::DeviceMemory || f == Family::DeviceUpload
            || f == Family::DeviceDownload || f == Family::DeviceState {
            let mut i: usize = 0;
            while i < self.device_metrics.records.len()
                invariant
                    i <= self.device_metrics.records.len(),
                    is_device_family(f),
                    rows.len() == i,
                    forall|j: int| 0 <= j < i ==> row_view(#[trigger] rows@[j]) == (
                        device_labels(self.device_metrics.records@[j]@),
                        device_value(f, self.device_metrics.records@[j]@),
                    ),
                decreases self.device_metrics.records.len() - i,
            {
                let r = &self.device_metrics.records[i];
                rows.push((device_labels_string(r), device_value_string(f, r)));
                i = i + 1;
            }
            assert(rows@.map_values(|x: Row| row_view(x)) =~= family_rows(f, self@));
        } else if f == Family::PollSuccess || f == Family::PollDuration {
            let mut i: usize = 0;
            while i < self.poll_metrics.records.len()
                invariant
                    i <= self.poll_metrics.records.len(),
                    is_poll_family(f),
                    rows.len() == i,
                    forall|j: int| 0 <= j < i ==> row_view(#[trigger] rows@[j]) == (
                        poll_labels(self.poll_metrics.records@[j].0@),
                        poll_value(f, self.poll_metrics.records@[j].1),
                    ),
                decreases self.poll_metrics.records.len() - i,
            {
                let p = &self.poll_metrics.records[i];
                rows.push((poll_labels_string(&p.0), poll_value_string(f, p.1)));
                i = i + 1;
            }
            assert(rows@.map_values(|x: Row| row_view(x)) =~= family_rows(f, self@));
        } else {
            let mut i: usize = 0;
            while i < self.sensor_metrics.records.len()
                invariant
                    i <= self.sensor_metrics.records.len(),
                    !is_device_family(f) && !is_poll_family(f),
                    rows.len() == i,
                    forall|j: int| 0 <= j < i ==> row_view(#[trigger] rows@[j]) == (
                        sensor_labels(self.sensor_metrics.records@[j]@),
                        sensor_value(f, self.sensor_metrics.records@[j]@),
                    ),
                decreases self.sensor_metrics.records.len() - i,
            {
                let r = &self.sensor_metrics.records[i];
                rows.push((sensor_labels_string(r), sensor_value_string(f, r)));
                i = i + 1;
            }
            assert(rows@.map_values(|x: Row| row_view(x)) =~= family_rows(f, self@));
        }
        rows
    }
}

/// Renders the whole store as OpenMetrics text: for each family that some
/// record has a value for, its HELP, TYPE and UNIT lines and one sample line
/// per such record; then `# EOF`.
pub fn generate_metrics_output(store: &MetricsStore) -> (r: String)
    ensures
        r@ == render_text(store@),
{
    let fams = Family::all();
    let mut out = String::new();
    let mut i: usize = 0;
    while i < fams.len()
        invariant
            i <= fams.len(),
            fams@ == all_families(),
            out@ == blocks_text(fams@.take(i as int), store@),
        decreases fams.len() - i,
    {
        assert(fams@.take(i as int + 1).drop_last() =~= fams@.take(i as int));
        let f = fams[i];
        let rows = store.family_rows_of(f);
        write_family(&mut out, f.name(), f.help(), f.unit(), &rows);
        i = i + 1;
    }
    assert(fams@.take(i as int) =~= all_families());
    out.append("# EOF\n");
    out
}

/// Writing a device record keeps keys unique, and leaves exactly that record
/// under its key.
pub proof fn lemma_upsert_device_record(s: Seq<DeviceMetricsView>, r: DeviceMetricsView)
    requires
        unique_device_keys(s),
    ensures
        unique_device_keys(upsert_device_record(s, r)),
        forall|i: int|
            0 <= i < upsert_device_record(s, r).len() && device_key(#[trigger] upsert_device_record(s, r)[i])
                == device_key(r) ==> upsert_device_record(s, r)[i] == r,
        has_device_record(upsert_device_record(s, r), device_key(r)),
{
    let t = upsert_device_record(s, r);
    if has_device_record(s, device_key(r)) {
        let k = choose|i: int| 0 <= i < s.len() && device_key(#[trigger] s[i]) == device_key(r);
        assert(t[k] == r);
    } else {
        assert(t[s.len() as int] == r);
    }
}

/// Updating the same device twice leaves exactly one record for it, and that
/// record is the second update, whole: nothing of the first survives.
pub proof fn law_device_update_twice(s: Seq<DeviceMetricsView>, first: DeviceMetricsView, second: DeviceMetricsView)
    requires
        unique_device_keys(s),
        device_key(first) == device_key(second),
    ensures
        has_device_record(upsert_device_record(upsert_device_record(s, first), second), device_key(second)),
        forall|i: int, j: int|
            0 <= i < upsert_device_record(upsert_device_record(s, first), second).len() && 0 <= j
                < upsert_device_record(upsert_device_record(s, first), second).len() && device_key(
                #[trigger] upsert_device_record(upsert_device_record(s, first), second)[i],
            ) == device_key(second) && device_key(
                #[trigger] upsert_device_record(upsert_device_record(s, first), second)[j],
            ) == device_key(second) ==> i == j,
        forall|i: int|
            0 <= i < upsert_device_record(upsert_device_record(s, first), second).len() && device_key(
                #[trigger] upsert_device_record(upsert_device_record(s, first), second)[i],
            ) == device_key(second) ==> upsert_device_record(upsert_device_record(s, first), second)[i] == second,
{
    lemma_upsert_device_record(s, first);
    lemma_upsert_device_record(upsert_device_record(s, first), second);
}

/// A family for which no record has a value renders as nothing, headers
/// included; one for which some record has a value renders its HELP and TYPE
/// (and UNIT) lines first, then its sample lines.
pub proof fn law_family_present_iff_populated(s: StoreView, f: Family)
    ensures
        !any_present(family_rows(f, s)) ==> family_block(f, s) == Seq::<char>::empty(),
        any_present(family_rows(f, s)) ==> family_block(f, s) == header_text(f.name_spec(), f.help_spec(), f.unit_spec())
            + samples_text(f.name_spec(), family_rows(f, s)),
        is_device_family(f) ==> (any_present(family_rows(f, s)) <==> exists|i: int|
            0 <= i < s.devices.len() && (#[trigger] device_value(f, s.devices[i])) is Some),
        is_poll_family(f) ==> (any_present(family_rows(f, s)) <==> s.polls.len() > 0),
        !is_device_family(f) && !is_poll_family(f) ==> (any_present(family_rows(f, s)) <==> exists|i: int|
            0 <= i < s.sensors.len() && (#[trigger] sensor_value(f, s.sensors[i])) is Some),
{
    let rows = family_rows(f, s);
    if is_device_family(f) {
        if any_present(rows) {
            let w = choose|w: int| 0 <= w < rows.len() && (#[trigger] rows[w]).1 is Some;
            assert(device_value(f, s.devices[w]) is Some);
        }
        if exists|i: int| 0 <= i < s.devices.len() && (#[trigger] device_value(f, s.devices[i])) is Some {
            let w = choose|i: int| 0 <= i < s.devices.len() && (#[trigger] device_value(f, s.devices[i])) is Some;
            assert(rows[w].1 is Some);
        }
    } else if is_poll_family(f) {
        if s.polls.len() > 0 {
            assert(rows[0].1 is Some);
        }
    } else {
        if any_present(rows) {
            let w = choose|w: int| 0 <= w < rows.len() && (#[trigger] rows[w]).1 is Some;
            assert(sensor_value(f, s.sensors[w]) is Some);
        }
        if exists|i: int| 0 <= i < s.sensors.len() && (#[trigger] sensor_value(f, s.sensors[i])) is Some {
            let w = choose|i: int| 0 <= i < s.sensors.len() && (#[trigger] sensor_value(f, s.sensors[i])) is Some;
            assert(rows[w].1 is Some);
        }
    }
}

proof fn lemma_device_labels_single_line(r: DeviceMetricsView)
    ensures
        single_line(device_labels(r)),
{
    reveal_strlit("site_id=\"");
    reveal_strlit("\",site_name=\"");
    reveal_strlit("\",device_id=\"");
    reveal_strlit("\",device_name=\"");
    reveal_strlit("\",device_model=\"");
    reveal_strlit("\",ip_address=\"");
    reveal_strlit("\"");
    lemma_literal_single_line("site_id=\"");
    lemma_literal_single_line("\",site_name=\"");
    lemma_literal_single_line("\",device_id=\"");
    lemma_literal_single_line("\",device_name=\"");
    lemma_literal_single_line("\",device_model=\"");
    lemma_literal_single_line("\",ip_address=\"");
    lemma_literal_single_line("\"");
    lemma_escaped_has_no_line_feed(r.site_id);
    lemma_escaped_has_no_line_feed(r.site_name);
    lemma_escaped_has_no_line_feed(r.device_id);
    lemma_escaped_has_no_line_feed(r.device_name);
    lemma_escaped_has_no_line_feed(r.device_model);
    lemma_escaped_has_no_line_feed(r.ip_address);
    let mut t = "site_id=\""@;
    lemma_single_line_concat(t, escape_label(r.site_id));
    t = t + escape_label(r.site_id);
    lemma_single_line_concat(t, "\",site_name=\""@);
    t = t + "\",site_name=\""@;
    lemma_single_line_concat(t, escape_label(r.site_name));
    t = t + escape_label(r.site_name);
    lemma_single_line_concat(t, "\",device_id=\""@);
    t = t + "\",device_id=\""@;
    lemma_single_line_concat(t, escape_label(r.device_id));
    t = t + escape_label(r.device_id);
    lemma_single_line_concat(t, "\",device_name=\""@);
    t = t + "\",device_name=\""@;
    lemma_single_line_concat(t, escape_label(r.device_name));
    t = t + escape_label(r.device_name);
    lemma_single_line_concat(t, "\",device_model=\""@);
    t = t + "\",device_model=\""@;
    lemma_single_line_concat(t, escape_label(r.device_model));
    t = t + escape_label(r.device_model);
    lemma_single_line_concat(t, "\",ip_address=\""@);
    t = t + "\",ip_address=\""@;
    lemma_single_line_concat(t, escape_label(r.ip_address));
    t = t + escape_label(r.ip_address);
    lemma_single_line_concat(t, "\""@);
    t = t + "\""@;
    assert(t == device_labels(r));
}

proof fn lemma_sensor_labels_single_line(r: SensorMetricsView)
    ensures
        single_line(sensor_labels(r)),
{
    reveal_strlit("sensor_id=\"");
    reveal_strlit("\",sensor_name=\"");
    reveal_strlit("\",mount_type=\"");
    reveal_strlit("\"");
    lemma_literal_single_line("sensor_id=\"");
    lemma_literal_single_line("\",sensor_name=\"");
    lemma_literal_single_line("\",mount_type=\"");
    lemma_literal_single_line("\"");
    lemma_escaped_has_no_line_feed(r.sensor_id);
    lemma_escaped_has_no_line_feed(r.sensor_name);
    lemma_escaped_has_no_line_feed(r.mount_type);
    let mut t = "sensor_id=\""@;
    lemma_single_line_concat(t, escape_label(r.sensor_id));
    t = t + escape_label(r.sensor_id);
    lemma_single_line_concat(t, "\",sensor_name=\""@);
    t = t + "\",sensor_name=\""@;
    lemma_single_line_concat(t, escape_label(r.sensor_name));
    t = t + escape_label(r.sensor_name);
    lemma_single_line_concat(t, "\",mount_type=\""@);
    t = t + "\",mount_type=\""@;
    lemma_single_line_concat(t, escape_label(r.mount_type));
    t = t + escape_label(r.mount_type);
    lemma_single_line_concat(t, "\""@);
    t = t + "\""@;
    assert(t == sensor_labels(r));
}

proof fn lemma_poll_labels_single_line(poll_type: Seq<char>)
    ensures
        single_line(poll_labels(poll_type)),
{
    reveal_strlit("type=\"");
    reveal_strlit("\"");
    lemma_literal_single_line("type=\"");
    lemma_literal_single_line("\"");
    lemma_escaped_has_no_line_feed(poll_type);
    lemma_single_line_concat("type=\""@, escape_label(poll_type));
    lemma_single_line_concat("type=\""@ + escape_label(poll_type), "\""@);
}

/// Every sample of every family fits on its own line: no label text and no
/// value text holds a line feed, whatever the ids and names of the records
/// hold, so a record can neither split its sample line nor add a line.
pub proof fn law_samples_single_line(s: StoreView, f: Family)
    ensures
        forall|i: int|
            0 <= i < family_rows(f, s).len() ==> single_line((#[trigger] family_rows(f, s)[i]).0) && (
            family_rows(f, s)[i].1 is Some ==> single_line(family_rows(f, s)[i].1.unwrap())),
{
    let rows = family_rows(f, s);
    assert forall|i: int| 0 <= i < rows.len() implies single_line((#[trigger] rows[i]).0) && (rows[i].1 is Some
        ==> single_line(rows[i].1.unwrap())) by {
        if is_device_family(f) {
            let r = s.devices[i];
            assert(rows[i] == (device_labels(r), device_value(f, r)));
            lemma_device_labels_single_line(r);
            let d = match f {
                Family::DeviceCpu => r.cpu_usage,
                Family::DeviceMemory => r.memory_usage,
                Family::DeviceUpload => r.uplink_tx_rate,
                Family::DeviceDownload => r.uplink_rx_rate,
                _ => None,
            };
            if let Some(x) = d {
                lemma_number_text_single_line(x.mantissa as int, x.scale as nat);
                lemma_number_text_single_line(x.mantissa as int, x.scale as nat + 2);
            }
            lemma_number_text_single_line(r.state as int, 0);
        } else if is_poll_family(f) {
            let p = s.polls[i];
            assert(rows[i] == (poll_labels(p.0), poll_value(f, p.1)));
            lemma_poll_labels_single_line(p.0);
            lemma_number_text_single_line(p.1.success as int, 0);
            lemma_number_text_single_line(p.1.duration.mantissa as int, p.1.duration.scale as nat);
        } else {
            let r = s.sensors[i];
            assert(rows[i] == (sensor_labels(r), sensor_value(f, r)));
            lemma_sensor_labels_single_line(r);
            let d = match f {
                Family::SensorTemperature => r.temperature,
                Family::SensorHumidity => r.humidity,
                Family::SensorLight => r.light,
                Family::SensorBattery => r.battery,
                _ => None,
            };
            if let Some(x) = d {
                lemma_number_text_single_line(x.mantissa as int, x.scale as nat);
                lemma_number_text_single_line(x.mantissa as int, x.scale as nat + 2);
            }
            lemma_number_text_single_line(r.state as int, 0);
            let g = match f {
                Family::SensorMotion => r.motion_detected,
                Family::SensorOpened => r.is_opened,
                _ => None,
            };
            if let Some(x) = g {
                lemma_number_text_single_line(x as int, 0);
            }
        }
    }
}

/// Each family's name starts with `u`, and its name, help and unit hold no
/// line feed.
proof fn lemma_family_texts(f: Family)
    ensures
        single_line(f.name_spec()),
        f.name_spec().len() > 0,
        f.name_spec()[0] == 'u',
        single_line(f.help_spec()),
        f.unit_spec() matches Some(u) ==> single_line(u),
{
    match f {
        Family::DeviceCpu => {
            reveal_strlit("unifi_device_cpu_usage_ratio");
            reveal_strlit("CPU usage of devices as a normalized ratio between 0.0 and 1.0.");
            reveal_strlit("ratio");
            lemma_literal_single_line("unifi_device_cpu_usage_ratio");
            lemma_literal_single_line("CPU usage of devices as a normalized ratio between 0.0 and 1.0.");
            lemma_literal_single_line("ratio");
        },
        Family::DeviceMemory => {
            reveal_strlit("unifi_device_memory_usage_ratio");
            reveal_strlit("Memory usage of devices as a normalized ratio between 0.0 and 1.0.");
            reveal_strlit("ratio");
            lemma_literal_single_line("unifi_device_memory_usage_ratio");
            lemma_literal_single_line("Memory usage of devices as a normalized ratio between 0.0 and 1.0.");
            lemma_literal_single_line("ratio");
        },
        Family::DeviceUpload => {
            reveal_strlit("unifi_device_upload_speed_bits_per_second");
            reveal_strlit("Upload speed in bits/sec");
            reveal_strlit("bits_per_second");
            lemma_literal_single_line("unifi_device_upload_speed_bits_per_second");
            lemma_literal_single_line("Upload speed in bits/sec");
            lemma_literal_single_line("bits_per_second");
        },
        Family::DeviceDownload => {
            reveal_strlit("unifi_device_download_speed_bits_per_second");
            reveal_strlit("Download speed in bits/sec");
            reveal_strlit("bits_per_second");
            lemma_literal_single_line("unifi_device_download_speed_bits_per_second");
            lemma_literal_single_line("Download speed in bits/sec");
            lemma_literal_single_line("bits_per_second");
        },
        Family::DeviceState => {
            reveal_strlit("unifi_device_state");
            reveal_strlit("Device state (1 = online, 0 = offline)");
            lemma_literal_single_line("unifi_device_state");
            lemma_literal_single_line("Device state (1 = online, 0 = offline)");
        },
        Family::SensorTemperature => {
            reveal_strlit("unifi_sensor_temperature_celsius");
            reveal_strlit("Temperature reading from sensor in Celsius");
            reveal_strlit("celsius");
            lemma_literal_single_line("unifi_sensor_temperature_celsius");
            lemma_literal_single_line("Temperature reading from sensor in Celsius");
            lemma_literal_single_line("celsius");
        },
        Family::SensorHumidity => {
            reveal_strlit("unifi_sensor_humidity_ratio");
            reveal_strlit("Current relative humidity measured by the sensor as a normalized ratio between 0.0 and 1.0.");
            reveal_strlit("ratio");
            lemma_literal_single_line("unifi_sensor_humidity_ratio");
            lemma_literal_single_line("Current relative humidity measured by the sensor as a normalized ratio between 0.0 and 1.0.");
            lemma_literal_single_line("ratio");
        },
        Family::SensorLight => {
            reveal_strlit("unifi_sensor_light_candela_per_square_meter");
            reveal_strlit("Current light level measured by the sensor in candela per square meter.");
            reveal_strlit("candela_per_square_meter");
            lemma_literal_single_line("unifi_sensor_light_candela_per_square_meter");
            lemma_literal_single_line("Current light level measured by the sensor in candela per square meter.");
            lemma_literal_single_line("candela_per_square_meter");
        },
        Family::SensorBattery => {
            reveal_strlit("unifi_sensor_battery_ratio");
            reveal_strlit("Battery level of the sensor as a normalized ratio between 0.0 and 1.0.");
            reveal_strlit("ratio");
            lemma_literal_single_line("unifi_sensor_battery_ratio");
            lemma_literal_single_line("Battery level of the sensor as a normalized ratio between 0.0 and 1.0.");
            lemma_literal_single_line("ratio");
        },
        Family::SensorState => {
            reveal_strlit("unifi_sensor_state");
            reveal_strlit("Sensor connection state (1 = connected, 0 = disconnected)");
            lemma_literal_single_line("unifi_sensor_state");
            lemma_literal_single_line("Sensor connection state (1 = connected, 0 = disconnected)");
        },
        Family::SensorMotion => {
            reveal_strlit("unifi_sensor_motion_detected");
            reveal_strlit("Motion detection status (1 = detected, 0 = not detected)");
            lemma_literal_single_line("unifi_sensor_motion_detected");
            lemma_literal_single_line("Motion detection status (1 = detected, 0 = not detected)");
        },
        Family::SensorOpened => {
            reveal_strlit("unifi_sensor_opened");
            reveal_strlit("Door/window sensor status (1 = opened, 0 = closed)");
            lemma_literal_single_line("unifi_sensor_opened");
            lemma_literal_single_line("Door/window sensor status (1 = opened, 0 = closed)");
        },
        Family::PollSuccess => {
            reveal_strlit("unifi_poll_success");
            reveal_strlit("Whether the last poll was successful (1 = success, 0 = failure)");
            lemma_literal_single_line("unifi_poll_success");
            lemma_literal_single_line("Whether the last poll was successful (1 = success, 0 = failure)");
        },
        Family::PollDuration => {
            reveal_strlit("unifi_poll_duration_seconds");
            reveal_strlit("Duration of the last poll in seconds");
            reveal_strlit("seconds");
            lemma_literal_single_line("unifi_poll_duration_seconds");
            lemma_literal_single_line("Duration of the last poll in seconds");
            lemma_literal_single_line("seconds");
        },
    }
}

/// The rendering is whole lines, each a `# HELP`, `# TYPE` or `# UNIT` line
/// or a sample line of a `unifi_` family, except the last, which is `# EOF`:
/// no line but the last starts with `# EOF`, whatever the records hold.
pub proof fn law_eof_only_at_end(s: StoreView)
    ensures
        well_lined(blocks_text(all_families(), s)),
        forall|j: int|
            #[trigger] is_line_start(render_text(s), j) && j + 5 <= render_text(s).len() && render_text(s).subrange(
                j,
                j + 5,
            ) == "# EOF"@ ==> j == render_text(s).len() - 6,
{
    lemma_blocks_well_lined(all_families(), s);
    reveal_strlit("# EOF");
    reveal_strlit("# EOF\n");
    let b = blocks_text(all_families(), s);
    let t = render_text(s);
    assert forall|j: int|
        #[trigger] is_line_start(t, j) && j + 5 <= t.len() && t.subrange(j, j + 5) == "# EOF"@ implies j == t.len()
            - 6 by {
        assert(t.subrange(j, j + 5)[0] == '#');
        assert(t.subrange(j, j + 5)[2] == 'E');
        if j < b.len() {
            if j > 0 {
                assert(t[j - 1] == b[j - 1]);
            }
            assert(is_line_start(b, j));
            assert(t[j] == b[j]);
            if j + 2 < b.len() {
                assert(t[j + 2] == b[j + 2]);
            }
            assert(t[j + 2] == 'E');
            assert(false);
        } else if j > b.len() {
            assert(t[j - 1] == "# EOF\n"@[j - 1 - b.len()]);
        }
    }
}

proof fn lemma_blocks_well_lined(fams: Seq<Family>, s: StoreView)
    ensures
        well_lined(blocks_text(fams, s)),
    decreases fams.len(),
{
    if fams.len() == 0 {
        assert(blocks_text(fams, s) =~= Seq::<char>::empty());
    } else {
        lemma_blocks_well_lined(fams.drop_last(), s);
        let f = fams.last();
        lemma_family_texts(f);
        law_samples_single_line(s, f);
        lemma_family_well_lined(f.name_spec(), f.help_spec(), f.unit_spec(), family_rows(f, s));
        lemma_well_lined_concat(blocks_text(fams.drop_last(), s), family_block(f, s));
    }
}

/// The rendering is every family's block in a fixed order, each block either
/// empty or starting with `# HELP <name> `, and the text always ends with
/// `# EOF`.
pub proof fn law_rendering_well_formed(s: StoreView)
    ensures
        render_text(s) == blocks_text(all_families(), s) + "# EOF\n"@,
        forall|i: int| 0 <= i < all_families().len() ==> {
            let f = #[trigger] all_families()[i];
            family_block(f, s) == Seq::<char>::empty() || family_block(f, s).take(
                ("# HELP "@ + f.name_spec() + " "@).len() as int,
            ) == "# HELP "@ + f.name_spec() + " "@
        },
        render_text(s).len() >= "# EOF\n"@.len(),
        render_text(s).subrange(render_text(s).len() - "# EOF\n"@.len(), render_text(s).len() as int) == "# EOF\n"@,
{
    let t = render_text(s);
    let b = blocks_text(all_families(), s);
    assert(t.subrange(b.len() as int, t.len() as int) =~= "# EOF\n"@);
    assert forall|i: int| 0 <= i < all_families().len() implies {
        let f = #[trigger] all_families()[i];
        family_block(f, s) == Seq::<char>::empty() || family_block(f, s).take(
            ("# HELP "@ + f.name_spec() + " "@).len() as int,
        ) == "# HELP "@ + f.name_spec() + " "@
    } by {
        let f = all_families()[i];
        law_family_present_iff_populated(s, f);
        let p = "# HELP "@ + f.name_spec() + " "@;
        if any_present(family_rows(f, s)) {
            assert(family_block(f, s).take(p.len() as int) =~= p);
        }
    }
}

} // verus!
