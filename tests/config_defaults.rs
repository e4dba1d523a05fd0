use unifimetrics::config::Config;

#[test]
fn default_config_values() {
    let c = Config::default();
    assert_eq!(c.unifi.ip, "10.0.0.1");
    assert_eq!(c.unifi.api_token, "");
    assert_eq!(c.unifi.poll_interval, 30);
    assert!(c.monitoring.network_devices);
    assert!(c.monitoring.protect_sensors);
    assert_eq!(c.server.bind_address, "0.0.0.0");
    assert_eq!(c.server.port, 9090);
    assert_eq!(c.server.bearer_token, None);
    assert_eq!(c.logging.log_file, None);
    assert_eq!(c.logging.log_level, "info");
}
