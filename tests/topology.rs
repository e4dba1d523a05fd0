use unifimetrics::cache::UnifiCache;
use unifimetrics::models::{Device, DevicesResponse, Site};
use unifimetrics::poll::{apply_devices_result, FetchError};

fn site(id: &str, name: &str) -> Site {
    Site { id: id.to_string(), internal_reference: None, name: name.to_string() }
}

fn device(id: &str, name: &str, state: &str, ip: Option<&str>) -> Device {
    Device {
        id: id.to_string(),
        name: name.to_string(),
        model: "U6-Lite".to_string(),
        mac_address: "00:11:22:33:44:55".to_string(),
        ip_address: ip.map(|s| s.to_string()),
        state: state.to_string(),
        features: None,
        interfaces: None,
    }
}

#[test]
fn new_cache_is_empty() {
    let cache = UnifiCache::new();
    assert!(cache.get_sites().is_empty());
}

#[test]
fn merge_sites_keeps_existing_entry_on_id_collision() {
    let mut cache = UnifiCache::new();
    cache.update_sites(vec![site("S1", "Home")]);
    cache.update_devices("S1", vec![device("D1", "AP", "ONLINE", Some("10.0.0.2"))]);
    cache.update_sites(vec![site("S1", "Renamed"), site("S2", "Office")]);
    let sites = cache.get_sites();
    assert_eq!(sites.len(), 2);
    assert_eq!(sites[0].id, "S1");
    assert_eq!(sites[0].name, "Home");
    assert_eq!(sites[0].devices.len(), 1);
    assert_eq!(sites[0].devices[0].id, "D1");
    assert_eq!(sites[1].id, "S2");
    assert_eq!(sites[1].name, "Office");
    assert!(sites[1].devices.is_empty());
}

#[test]
fn duplicate_ids_in_one_batch_keep_the_first() {
    let mut cache = UnifiCache::new();
    cache.update_sites(vec![site("S1", "First"), site("S1", "Second")]);
    let sites = cache.get_sites();
    assert_eq!(sites.len(), 1);
    assert_eq!(sites[0].name, "First");
}

#[test]
fn update_devices_overwrites_and_never_prunes() {
    let mut cache = UnifiCache::new();
    cache.update_sites(vec![site("S1", "Home")]);
    cache.update_devices(
        "S1",
        vec![device("D1", "AP", "ONLINE", Some("10.0.0.2")), device("D2", "Switch", "ONLINE", None)],
    );
    cache.update_devices("S1", vec![device("D1", "AP renamed", "OFFLINE", None)]);
    let sites = cache.get_sites();
    let devices = &sites[0].devices;
    assert_eq!(devices.len(), 2);
    assert_eq!(devices[0].id, "D1");
    assert_eq!(devices[0].name, "AP renamed");
    assert_eq!(devices[0].state, "OFFLINE");
    assert_eq!(devices[0].ip_address, None);
    assert_eq!(devices[1].id, "D2");
}

#[test]
fn update_devices_of_unknown_site_is_a_no_op() {
    let mut cache = UnifiCache::new();
    cache.update_sites(vec![site("S1", "Home")]);
    cache.update_devices("S9", vec![device("D1", "AP", "ONLINE", None)]);
    let sites = cache.get_sites();
    assert_eq!(sites.len(), 1);
    assert!(sites[0].devices.is_empty());
}

#[test]
fn snapshot_is_independent_of_later_updates() {
    let mut cache = UnifiCache::new();
    cache.update_sites(vec![site("S1", "Home")]);
    let before = cache.get_sites();
    cache.update_devices("S1", vec![device("D1", "AP", "ONLINE", None)]);
    assert!(before[0].devices.is_empty());
    assert_eq!(cache.get_sites()[0].devices.len(), 1);
}

#[test]
fn device_list_failure_leaves_the_site_as_it_is() {
    let mut cache = UnifiCache::new();
    cache.update_sites(vec![site("S1", "Home"), site("S2", "Office")]);
    let failure = FetchError::Transport("timeout".to_string());
    assert!(!apply_devices_result(&mut cache, "S1", Err(failure)));
    let page = DevicesResponse {
        offset: Some(0),
        limit: Some(200),
        count: Some(1),
        total_count: Some(1),
        data: vec![device("D7", "Switch", "ONLINE", None)],
    };
    assert!(apply_devices_result(&mut cache, "S2", Ok(page)));
    let sites = cache.get_sites();
    assert!(sites[0].devices.is_empty());
    assert_eq!(sites[1].devices.len(), 1);
    assert_eq!(sites[1].devices[0].id, "D7");
}
