use unifimetrics::cache::UnifiCache;
use unifimetrics::decimal::Decimal;
use unifimetrics::http::{is_authorized, metrics_response, OPENMETRICS_CONTENT_TYPE};
use unifimetrics::metrics::{
    generate_metrics_output, update_device_metrics, update_poll_metrics, update_sensor_metrics, MetricsStore,
};
use unifimetrics::models::{
    ApiError, BatteryStatus, CachedDevice, CachedSite, Device, DeviceStatistics, Sensor, SensorStats, SensorValue, Site,
    UplinkStats,
};
use unifimetrics::poll::{
    apply_device_result, apply_sensor_result, device_state_value, response_failure, sensor_state_value, state_flag,
    FetchError,
};

fn stats(cpu: Option<Decimal>, memory: Option<Decimal>, uplink: Option<UplinkStats>) -> DeviceStatistics {
    DeviceStatistics {
        uptime_sec: None,
        last_heartbeat_at: None,
        next_heartbeat_at: None,
        load_average_1min: None,
        load_average_5min: None,
        load_average_15min: None,
        cpu_utilization_pct: cpu,
        memory_utilization_pct: memory,
        uplink,
        interfaces: None,
    }
}

fn sensor(id: &str, state: &str, temperature: Option<Decimal>, battery: Option<Decimal>) -> Sensor {
    Sensor {
        id: id.to_string(),
        model_key: "sensor".to_string(),
        state: state.to_string(),
        name: "Hall".to_string(),
        mount_type: None,
        battery_status: Some(BatteryStatus { percentage: battery, is_low: None }),
        stats: Some(SensorStats {
            light: None,
            humidity: Some(SensorValue { value: None, status: None }),
            temperature: Some(SensorValue { value: temperature, status: None }),
        }),
        light_settings: None,
        humidity_settings: None,
        temperature_settings: None,
        is_opened: Some(true),
        open_status_changed_at: None,
        is_motion_detected: Some(false),
        motion_detected_at: None,
        motion_settings: None,
        alarm_triggered_at: None,
        alarm_settings: None,
        leak_detected_at: None,
        external_leak_detected_at: None,
        leak_settings: None,
        tampering_detected_at: None,
    }
}

fn home_with_ap(state: &str) -> (CachedSite, CachedDevice) {
    let mut cache = UnifiCache::new();
    cache.update_sites(vec![Site { id: "S1".to_string(), internal_reference: None, name: "Home".to_string() }]);
    cache.update_devices(
        "S1",
        vec![Device {
            id: "D1".to_string(),
            name: "AP".to_string(),
            model: "U6-Lite".to_string(),
            mac_address: "aa:bb:cc:dd:ee:ff".to_string(),
            ip_address: None,
            state: state.to_string(),
            features: None,
            interfaces: None,
        }],
    );
    let mut sites = cache.get_sites();
    let site = sites.remove(0);
    let device = site.devices[0].clone();
    (site, device)
}

const D1_LABELS: &str =
    "site_id=\"S1\",site_name=\"Home\",device_id=\"D1\",device_name=\"AP\",device_model=\"U6-Lite\",ip_address=\"unknown\"";

#[test]
fn empty_store_renders_only_eof() {
    let store = MetricsStore::new();
    assert_eq!(generate_metrics_output(&store), "# EOF\n");
}

#[test]
fn one_online_device_with_cpu_only() {
    let (site, device) = home_with_ap("ONLINE");
    let mut store = MetricsStore::new();
    let mut cycle_ok = true;
    apply_device_result(
        &mut store.device_metrics,
        &site,
        &device,
        &Ok(stats(Some(Decimal::from_int(50)), None, None)),
        &mut cycle_ok,
    );
    assert!(cycle_ok);
    let text = generate_metrics_output(&store);
    assert!(text.contains(&format!("unifi_device_cpu_usage_ratio{{{}}} 0.5\n", D1_LABELS)));
    assert!(text.contains(&format!("unifi_device_state{{{}}} 1\n", D1_LABELS)));
    assert!(!text.contains("unifi_device_memory_usage_ratio"));
    assert!(!text.contains("unifi_device_upload_speed_bits_per_second"));
    assert!(!text.contains("unifi_device_download_speed_bits_per_second"));
    let expected = format!(
        "# HELP unifi_device_cpu_usage_ratio CPU usage of devices as a normalized ratio between 0.0 and 1.0.\n\
         # TYPE unifi_device_cpu_usage_ratio gauge\n\
         # UNIT unifi_device_cpu_usage_ratio ratio\n\
         unifi_device_cpu_usage_ratio{{{l}}} 0.5\n\
         # HELP unifi_device_state Device state (1 = online, 0 = offline)\n\
         # TYPE unifi_device_state gauge\n\
         unifi_device_state{{{l}}} 1\n\
         # EOF\n",
        l = D1_LABELS
    );
    assert_eq!(text, expected);
}

#[test]
fn state_is_compared_without_case() {
    assert_eq!(device_state_value("online"), 1);
    assert_eq!(device_state_value("Online"), 1);
    assert_eq!(device_state_value("OFFLINE"), 0);
    assert_eq!(device_state_value(""), 0);
    assert_eq!(sensor_state_value("connected"), 1);
    assert_eq!(sensor_state_value("DISCONNECTED"), 0);
    assert_eq!(state_flag("ONLINE", "ONLINE"), 1);
    assert_eq!(state_flag("online", "ONLINE"), 0);
}

#[test]
fn offline_device_state_renders_zero() {
    let (site, device) = home_with_ap("offline");
    let mut store = MetricsStore::new();
    apply_device_result(&mut store.device_metrics, &site, &device, &Ok(stats(None, None, None)), &mut true);
    let text = generate_metrics_output(&store);
    assert!(text.contains(&format!("unifi_device_state{{{}}} 0\n", D1_LABELS)));
    assert!(!text.contains("unifi_device_cpu_usage_ratio"));
}

#[test]
fn second_update_replaces_the_whole_record() {
    let mut store = MetricsStore::new();
    update_device_metrics(
        &mut store.device_metrics, "S1", "Home", "D1", "AP", "U6", "10.0.0.2",
        Some(Decimal::from_int(40)), Some(Decimal::from_int(70)), Some(Decimal::from_int(1000)), None, 1,
    );
    update_device_metrics(
        &mut store.device_metrics, "S1", "Home", "D1", "AP", "U6", "10.0.0.2",
        Some(Decimal::from_int(20)), None, None, Some(Decimal::from_int(500)), 0,
    );
    let text = generate_metrics_output(&store);
    assert_eq!(text.matches("unifi_device_state{").count(), 1);
    assert!(text.contains("} 0.2\n"));
    assert!(!text.contains("} 0.4\n"));
    assert!(!text.contains("unifi_device_memory_usage_ratio"));
    assert!(!text.contains("unifi_device_upload_speed_bits_per_second"));
    assert!(text.contains("unifi_device_download_speed_bits_per_second{"));
    assert!(text.contains("} 500\n"));
}

#[test]
fn same_device_id_in_two_sites_gives_two_records() {
    let mut store = MetricsStore::new();
    update_device_metrics(&mut store.device_metrics, "S1", "A", "D1", "AP", "U6", "ip", None, None, None, None, 1);
    update_device_metrics(&mut store.device_metrics, "S2", "B", "D1", "AP", "U6", "ip", None, None, None, None, 1);
    let text = generate_metrics_output(&store);
    assert_eq!(text.matches("unifi_device_state{").count(), 2);
}

#[test]
fn failed_device_fetch_keeps_last_record() {
    let (site, device) = home_with_ap("ONLINE");
    let mut store = MetricsStore::new();
    let mut cycle_ok = true;
    apply_device_result(
        &mut store.device_metrics,
        &site,
        &device,
        &Ok(stats(Some(Decimal::new(573, 1)), None, None)),
        &mut cycle_ok,
    );
    let before = generate_metrics_output(&store);
    apply_device_result(
        &mut store.device_metrics,
        &site,
        &device,
        &Err(FetchError::Transport("timeout".to_string())),
        &mut cycle_ok,
    );
    assert!(!cycle_ok);
    assert_eq!(generate_metrics_output(&store), before);
    assert!(before.contains("} 0.573\n"));
    apply_device_result(&mut store.device_metrics, &site, &device, &Ok(stats(None, None, None)), &mut cycle_ok);
    assert!(!cycle_ok);
}

#[test]
fn uplink_rates_pass_through() {
    let (site, device) = home_with_ap("ONLINE");
    let mut store = MetricsStore::new();
    let uplink = UplinkStats { tx_rate_bps: Some(Decimal::from_int(12000)), rx_rate_bps: Some(Decimal::new(25, 1)) };
    apply_device_result(&mut store.device_metrics, &site, &device, &Ok(stats(None, Some(Decimal::new(125, 1)), Some(uplink))), &mut true);
    let text = generate_metrics_output(&store);
    assert!(text.contains(&format!("unifi_device_upload_speed_bits_per_second{{{}}} 12000\n", D1_LABELS)));
    assert!(text.contains(&format!("unifi_device_download_speed_bits_per_second{{{}}} 2.5\n", D1_LABELS)));
    assert!(text.contains(&format!("unifi_device_memory_usage_ratio{{{}}} 0.125\n", D1_LABELS)));
    assert!(text.contains("# UNIT unifi_device_upload_speed_bits_per_second bits_per_second\n"));
}

#[test]
fn sensor_poll_failure_changes_no_sensor_and_reports_failure() {
    let mut store = MetricsStore::new();
    apply_sensor_result(&mut store.sensor_metrics, &Ok(vec![sensor("X1", "CONNECTED", Some(Decimal::new(215, 1)), None)]));
    let before = generate_metrics_output(&store);
    let failure = FetchError::Api { status: 401, cause: None, body: "denied".to_string() };
    let ok = apply_sensor_result(&mut store.sensor_metrics, &Err(failure));
    assert!(!ok);
    assert_eq!(generate_metrics_output(&store), before);
    update_poll_metrics(&mut store.poll_metrics, "protect", ok, Decimal::new(1234, 3));
    let text = generate_metrics_output(&store);
    assert!(text.contains("unifi_poll_success{type=\"protect\"} 0\n"));
    assert!(text.contains("unifi_poll_duration_seconds{type=\"protect\"} 1.234\n"));
    assert!(text.contains("unifi_sensor_temperature_celsius{sensor_id=\"X1\",sensor_name=\"Hall\",mount_type=\"unknown\"} 21.5\n"));
}

#[test]
fn sensor_readings_and_flags() {
    let mut store = MetricsStore::new();
    let ok = apply_sensor_result(
        &mut store.sensor_metrics,
        &Ok(vec![sensor("X1", "connected", Some(Decimal::new(-15, 1)), Some(Decimal::from_int(87)))]),
    );
    assert!(ok);
    let labels = "sensor_id=\"X1\",sensor_name=\"Hall\",mount_type=\"unknown\"";
    let text = generate_metrics_output(&store);
    assert!(text.contains(&format!("unifi_sensor_temperature_celsius{{{}}} -1.5\n", labels)));
    assert!(text.contains(&format!("unifi_sensor_battery_ratio{{{}}} 0.87\n", labels)));
    assert!(text.contains(&format!("unifi_sensor_state{{{}}} 1\n", labels)));
    assert!(text.contains(&format!("unifi_sensor_motion_detected{{{}}} 0\n", labels)));
    assert!(text.contains(&format!("unifi_sensor_opened{{{}}} 1\n", labels)));
    assert!(!text.contains("unifi_sensor_humidity_ratio"));
    assert!(!text.contains("unifi_sensor_light_candela_per_square_meter"));
}

#[test]
fn sensor_update_replaces_record() {
    let mut store = MetricsStore::new();
    update_sensor_metrics(&mut store.sensor_metrics, "X1", "Hall", "door", Some(Decimal::from_int(20)), None, None, None, 1, None, None);
    update_sensor_metrics(&mut store.sensor_metrics, "X1", "Hall", "door", None, Some(Decimal::from_int(45)), None, None, 0, None, None);
    let text = generate_metrics_output(&store);
    assert!(!text.contains("unifi_sensor_temperature_celsius"));
    assert!(text.contains("unifi_sensor_humidity_ratio{sensor_id=\"X1\",sensor_name=\"Hall\",mount_type=\"door\"} 0.45\n"));
    assert_eq!(text.matches("unifi_sensor_state{").count(), 1);
}

#[test]
fn poll_outcome_is_replaced_per_source() {
    let mut store = MetricsStore::new();
    update_poll_metrics(&mut store.poll_metrics, "network", true, Decimal::new(5, 1));
    update_poll_metrics(&mut store.poll_metrics, "protect", true, Decimal::new(2, 1));
    update_poll_metrics(&mut store.poll_metrics, "network", false, Decimal::from_int(3));
    let text = generate_metrics_output(&store);
    let expected = "# HELP unifi_poll_success Whether the last poll was successful (1 = success, 0 = failure)\n\
                    # TYPE unifi_poll_success gauge\n\
                    unifi_poll_success{type=\"network\"} 0\n\
                    unifi_poll_success{type=\"protect\"} 1\n\
                    # HELP unifi_poll_duration_seconds Duration of the last poll in seconds\n\
                    # TYPE unifi_poll_duration_seconds gauge\n\
                    # UNIT unifi_poll_duration_seconds seconds\n\
                    unifi_poll_duration_seconds{type=\"network\"} 3\n\
                    unifi_poll_duration_seconds{type=\"protect\"} 0.2\n\
                    # EOF\n";
    assert_eq!(text, expected);
}

#[test]
fn every_sample_follows_its_header_and_text_ends_with_eof() {
    let (site, device) = home_with_ap("ONLINE");
    let mut store = MetricsStore::new();
    apply_device_result(&mut store.device_metrics, &site, &device, &Ok(stats(Some(Decimal::from_int(5)), None, None)), &mut true);
    apply_sensor_result(&mut store.sensor_metrics, &Ok(vec![sensor("X1", "CONNECTED", Some(Decimal::from_int(20)), None)]));
    update_poll_metrics(&mut store.poll_metrics, "network", true, Decimal::new(1, 2));
    let text = generate_metrics_output(&store);
    assert!(text.ends_with("# EOF\n"));
    let mut current: Option<String> = None;
    for line in text.lines() {
        if let Some(rest) = line.strip_prefix("# HELP ") {
            current = Some(rest.split(' ').next().unwrap().to_string());
        } else if let Some(rest) = line.strip_prefix("# TYPE ") {
            assert_eq!(rest, format!("{} gauge", current.clone().unwrap()));
        } else if line.starts_with("# UNIT ") || line == "# EOF" {
        } else {
            let name = line.split('{').next().unwrap();
            assert_eq!(Some(name.to_string()), current);
        }
    }
}

#[test]
fn bearer_token_gate() {
    assert!(is_authorized(Some("abc"), Some("Bearer abc")));
    assert!(!is_authorized(Some("abc"), Some("Bearer xyz")));
    assert!(!is_authorized(Some("abc"), None));
    assert!(!is_authorized(Some("abc"), Some("bearer abc")));
    assert!(is_authorized(None, None));
    assert!(is_authorized(None, Some("Bearer anything")));
}

#[test]
fn metrics_response_status_codes() {
    let store = MetricsStore::new();
    let ok = metrics_response(&store, Some("abc"), Some("Bearer abc"));
    assert_eq!(ok.status, 200);
    assert_eq!(ok.body, "# EOF\n");
    assert_eq!(ok.content_type.as_deref(), Some(OPENMETRICS_CONTENT_TYPE));
    let wrong = metrics_response(&store, Some("abc"), Some("Bearer xyz"));
    assert_eq!(wrong.status, 401);
    assert_eq!(wrong.body, "Unauthorized");
    assert_eq!(wrong.content_type, None);
    let missing = metrics_response(&store, Some("abc"), None);
    assert_eq!(missing.status, 401);
    let open = metrics_response(&store, None, None);
    assert_eq!(open.status, 200);
}

#[test]
fn auth_failure_is_recognised_by_envelope_name() {
    let envelope = |name: &str| ApiError { error: "bad token".to_string(), name: name.to_string(), cause: None };
    let api = |name: &str| FetchError::Api { status: 401, cause: Some(envelope(name)), body: String::new() };
    assert!(api("API_ERROR").is_auth_failure());
    assert!(api("UNKNOWN_ERROR").is_auth_failure());
    assert!(!api("NOT_FOUND").is_auth_failure());
    assert!(!FetchError::Api { status: 401, cause: None, body: "x".to_string() }.is_auth_failure());
    assert!(!FetchError::Transport("refused".to_string()).is_auth_failure());
}

#[test]
fn non_success_status_is_an_api_failure() {
    assert!(response_failure(200, String::new(), None).is_none());
    assert!(response_failure(204, "x".to_string(), None).is_none());
    match response_failure(404, "not here".to_string(), None) {
        Some(FetchError::Api { status, cause, body }) => {
            assert_eq!(status, 404);
            assert!(cause.is_none());
            assert_eq!(body, "not here");
        }
        other => panic!("unexpected {:?}", other),
    }
    let envelope = ApiError { error: "expired".to_string(), name: "API_ERROR".to_string(), cause: None };
    match response_failure(401, "{}".to_string(), Some(envelope)) {
        Some(FetchError::Api { status, cause: Some(c), .. }) => {
            assert_eq!(status, 401);
            assert_eq!(c.name, "API_ERROR");
        }
        other => panic!("unexpected {:?}", other),
    }
    assert!(response_failure(302, String::new(), None).is_some());
}

#[test]
fn map_snapshots_render_like_the_maps() {
    let mut store = MetricsStore::new();
    update_device_metrics(&mut store.device_metrics, "S1", "Home", "D1", "AP", "U6", "ip", None, None, None, None, 1);
    update_sensor_metrics(&mut store.sensor_metrics, "X1", "Hall", "wall", None, None, Some(Decimal::from_int(12)), None, 0, None, None);
    update_poll_metrics(&mut store.poll_metrics, "network", true, Decimal::new(75, 2));
    let copy = MetricsStore {
        device_metrics: store.device_metrics.snapshot(),
        sensor_metrics: store.sensor_metrics.snapshot(),
        poll_metrics: store.poll_metrics.snapshot(),
    };
    let text = generate_metrics_output(&store);
    assert_eq!(generate_metrics_output(&copy), text);
    update_poll_metrics(&mut store.poll_metrics, "network", false, Decimal::from_int(1));
    assert_eq!(generate_metrics_output(&copy), text);
    assert_ne!(generate_metrics_output(&store), text);
}

#[test]
fn label_values_are_escaped() {
    let mut store = MetricsStore::new();
    update_device_metrics(
        &mut store.device_metrics, "S1", "My \"Home\"\nWing", "D1", "AP\\1", "U6", "ip", None, None, None, None, 1,
    );
    let text = generate_metrics_output(&store);
    assert!(text.contains(
        "unifi_device_state{site_id=\"S1\",site_name=\"My \\\"Home\\\"\\nWing\",device_id=\"D1\",device_name=\"AP\\\\1\",device_model=\"U6\",ip_address=\"ip\"} 1\n"
    ));
    assert_eq!(text.lines().count(), 4);
}

#[test]
fn poll_tag_cannot_forge_lines() {
    let mut store = MetricsStore::new();
    update_poll_metrics(&mut store.poll_metrics, "p\n# EOF\n# HELP unifi_device_cpu_usage_ratio x", true, Decimal::from_int(1));
    let text = generate_metrics_output(&store);
    assert_eq!(text.lines().filter(|l| *l == "# EOF").count(), 1);
    assert!(text.ends_with("\n# EOF\n"));
    assert!(!text.contains("\n# HELP unifi_device_cpu_usage_ratio"));
    assert!(text.contains("unifi_poll_success{type=\"p\\n# EOF\\n# HELP unifi_device_cpu_usage_ratio x\"} 1\n"));
    for line in text.lines() {
        assert!(line.starts_with("# HELP ") || line.starts_with("# TYPE ") || line.starts_with("# UNIT ")
            || line == "# EOF" || line.starts_with("unifi_poll_"));
    }
}
