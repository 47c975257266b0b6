use matter_example::state::{AppState, EndpointAlias, KnownDevice};
use matter_example::types::{EndpointSummary, IpAddress};
use matter_example::utils::{
    apply_endpoint_aliases, clamp_selection, device_type_label, first_socket_addr,
    format_device_types, next_index, parse_device_type_id, parse_device_type_name,
    parse_vendor_product, sort_ips, trim_service_name, upsert_endpoint_alias, upsert_known_device,
};

fn ip(text: &str) -> IpAddress {
    IpAddress {
        v4: !text.contains(':'),
        text: text.to_string(),
    }
}

fn texts(ips: &[IpAddress]) -> Vec<&str> {
    ips.iter().map(|ip| ip.text.as_str()).collect()
}

fn endpoint(id: u16, label: Option<&str>) -> EndpointSummary {
    EndpointSummary {
        id,
        label: label.map(str::to_string),
        device_types: Vec::new(),
        has_on_off: false,
        on_off_state: None,
        actions: Vec::new(),
    }
}

fn alias(node_id: u64, endpoint_id: u16, label: &str) -> EndpointAlias {
    EndpointAlias {
        node_id,
        endpoint_id,
        label: label.to_string(),
    }
}

#[test]
fn socket_address_prefers_version_four() {
    assert_eq!(first_socket_addr(&vec![ip("fe80::1"), ip("10.0.0.2")], 5540), "10.0.0.2:5540");
    assert_eq!(first_socket_addr(&vec![ip("fe80::1"), ip("fe80::2")], 5540), "[fe80::1]:5540");
    assert_eq!(first_socket_addr(&Vec::new(), 1), "127.0.0.1:1");
}

#[test]
fn addresses_are_sorted_by_version_and_text() {
    let sorted = sort_ips(vec![ip("fe80::2"), ip("9.0.0.1"), ip("fe80::1"), ip("10.0.0.1")]);
    assert_eq!(texts(&sorted), vec!["10.0.0.1", "9.0.0.1", "fe80::1", "fe80::2"]);
    let again = sort_ips(vec![ip("10.0.0.1"), ip("fe80::1"), ip("9.0.0.1"), ip("fe80::2")]);
    assert_eq!(texts(&again), texts(&sorted));
    let twice = sort_ips(vec![ip("b"), ip("a"), ip("b")]);
    assert_eq!(texts(&twice), vec!["a", "b", "b"]);
}

#[test]
fn service_names_lose_their_endings() {
    assert_eq!(trim_service_name("ABC._matterc._udp.local."), "ABC");
    assert_eq!(trim_service_name("ABC._matter._tcp.local.local."), "ABC");
    assert_eq!(trim_service_name("ABC"), "ABC");
    assert_eq!(trim_service_name("._udp"), "");
    assert_eq!(trim_service_name(".local."), "");
}

#[test]
fn vendor_and_product_are_parted() {
    let both = |a: Option<&str>, b: Option<&str>| (a.map(str::to_string), b.map(str::to_string));
    assert_eq!(parse_vendor_product(Some("65521+32769")), both(Some("65521"), Some("32769")));
    assert_eq!(parse_vendor_product(Some("65521")), both(Some("65521"), None));
    assert_eq!(parse_vendor_product(Some("1+2+3")), both(Some("1"), Some("2")));
    assert_eq!(parse_vendor_product(Some("")), both(Some(""), None));
    assert_eq!(parse_vendor_product(None), both(None, None));
}

#[test]
fn device_types_have_names() {
    assert_eq!(parse_device_type_name("256"), parse_device_type_name("0x100"));
    assert_eq!(
        parse_device_type_name("0x000E"),
        Some("Aggregator".to_string())
    );
    assert_eq!(parse_device_type_name("19").as_deref(), Some("Bridged Node"));
    assert_eq!(parse_device_type_name("0xFFF1").as_deref(), Some("0xFFF1"));
    assert_eq!(parse_device_type_name("7777777").as_deref(), Some("0x76ADF1"));
    assert_eq!(parse_device_type_name("light"), None);
    assert_eq!(parse_device_type_name("0x"), None);
    assert_eq!(parse_device_type_name("4294967296"), None);
}

#[test]
fn device_type_ids_are_read_in_two_bases() {
    assert_eq!(parse_device_type_id("0x10"), Some(16));
    assert_eq!(parse_device_type_id("10"), Some(10));
    assert_eq!(parse_device_type_id("0X10"), None);
    assert_eq!(device_type_label(3, None), "0x0003");
    assert_eq!(device_type_label(3, Some("Three".to_string())), "Three");
}

#[test]
fn device_types_are_listed() {
    assert_eq!(format_device_types(&Vec::new()), "unknown type");
    assert_eq!(
        format_device_types(&vec!["A".to_string(), "B".to_string()]),
        "A, B"
    );
}

#[test]
fn known_devices_are_replaced_by_node_id() {
    let device = |label: &str, node_id: u64| KnownDevice {
        label: label.to_string(),
        node_id,
        last_address: String::new(),
    };
    let mut devices = vec![device("a", 1), device("b", 2)];
    upsert_known_device(&mut devices, device("c", 1));
    upsert_known_device(&mut devices, device("d", 3));
    let labels: Vec<&str> = devices.iter().map(|d| d.label.as_str()).collect();
    assert_eq!(labels, vec!["c", "b", "d"]);
}

#[test]
fn aliases_are_replaced_by_endpoint() {
    let mut aliases = vec![alias(1, 1, "a"), alias(1, 2, "b")];
    upsert_endpoint_alias(&mut aliases, alias(1, 2, "c"));
    upsert_endpoint_alias(&mut aliases, alias(2, 2, "d"));
    let labels: Vec<&str> = aliases.iter().map(|a| a.label.as_str()).collect();
    assert_eq!(labels, vec!["a", "c", "d"]);
}

#[test]
fn endpoints_are_shown_under_their_aliases() {
    let mut state = AppState::default();
    state.endpoint_aliases.push(alias(5, 2, "first"));
    state.endpoint_aliases.push(alias(5, 2, "second"));
    state.endpoint_aliases.push(alias(6, 3, "other node"));
    let mut endpoints = vec![endpoint(2, Some("old")), endpoint(3, None)];
    apply_endpoint_aliases(&state, 5, &mut endpoints);
    assert_eq!(endpoints[0].label.as_deref(), Some("first"));
    assert_eq!(endpoints[1].label, None);
}

#[test]
fn selections_stay_in_their_list() {
    assert_eq!(clamp_selection(5, 0), 0);
    assert_eq!(clamp_selection(5, 3), 2);
    assert_eq!(clamp_selection(1, 3), 1);
    assert_eq!(next_index(0, 0), 0);
    assert_eq!(next_index(0, 3), 1);
    assert_eq!(next_index(2, 3), 2);
}
