use matter_example::listing::{property_description, property_line};
use matter_example::mdns::{
    initialize_network, plan_socket, score, Candidate, InterfaceAddress, NetworkInterface,
};
use matter_example::network::{
    browse_devices, commissionable_service, commissioned_service, scan_network,
    to_commissionable_device, to_commissioned_device, wait_time, BrowseEvent, ServiceRecord,
};
use matter_example::state::{AppState, KnownDevice};
use matter_example::types::IpAddress;

fn ip(text: &str) -> IpAddress {
    IpAddress {
        v4: !text.contains(':'),
        text: text.to_string(),
    }
}

fn record(fullname: &str, addresses: Vec<IpAddress>) -> ServiceRecord {
    ServiceRecord {
        fullname: fullname.to_string(),
        addresses,
        port: 5540,
        device_name: None,
        device_type: None,
        vendor_product: None,
        discriminator: None,
    }
}

#[test]
fn a_scan_waits_in_short_turns_until_its_time_is_up() {
    assert_eq!(wait_time(0), Some(250_000_000));
    assert_eq!(wait_time(2_900_000_000), Some(100_000_000));
    assert_eq!(wait_time(2_999_999_999), Some(1));
    assert_eq!(wait_time(3_000_000_000), None);
}

#[test]
fn services_are_kept_by_name() {
    let mut found = Vec::new();
    for name in ["b", "a", "c"] {
        browse_devices(&mut found, BrowseEvent::Resolved(record(name, Vec::new()))).unwrap();
    }
    let mut again = record("a", Vec::new());
    again.port = 1;
    browse_devices(&mut found, BrowseEvent::Resolved(again)).unwrap();
    browse_devices(&mut found, BrowseEvent::Removed("c".to_string())).unwrap();
    browse_devices(&mut found, BrowseEvent::Removed("x".to_string())).unwrap();
    browse_devices(&mut found, BrowseEvent::Other).unwrap();
    browse_devices(&mut found, BrowseEvent::TimedOut).unwrap();
    let names: Vec<(&str, u16)> = found.iter().map(|r| (r.fullname.as_str(), r.port)).collect();
    assert_eq!(names, vec![("a", 1), ("b", 5540)]);
    assert_eq!(
        browse_devices(&mut found, BrowseEvent::Failed("closed".to_string())),
        Err("closed".to_string())
    );
    assert_eq!(found.len(), 2);
}

#[test]
fn a_waiting_device_is_described_by_what_it_announces() {
    let mut full = record("X._matterc._udp.local.", vec![ip("fe80::1"), ip("10.0.0.9")]);
    full.device_name = Some("Lamp".to_string());
    full.device_type = Some("14".to_string());
    full.vendor_product = Some("1+2".to_string());
    full.discriminator = Some("3840".to_string());
    let device = to_commissionable_device(full);
    assert_eq!(device.display_name, "Lamp");
    assert_eq!(device.device_type, "Aggregator");
    assert_eq!(device.vendor_id.as_deref(), Some("1"));
    assert_eq!(device.product_id.as_deref(), Some("2"));
    assert_eq!(device.discriminator.as_deref(), Some("3840"));
    assert_eq!(device.addresses[0].text, "10.0.0.9");
    assert_eq!(device.port, 5540);

    let bare = to_commissionable_device(record("X._matterc._udp.local.", Vec::new()));
    assert_eq!(bare.display_name, "X");
    assert_eq!(bare.device_type, "Unknown");
    assert_eq!(bare.vendor_id, None);
}

#[test]
fn a_commissioned_device_is_known_by_its_address() {
    let mut state = AppState::default();
    for (label, address) in [("other", "10.0.0.8:5540"), ("mine", "10.0.0.9:5540")] {
        state.devices.push(KnownDevice {
            label: label.to_string(),
            node_id: 1,
            last_address: address.to_string(),
        });
    }
    let found = to_commissioned_device(
        record("N._matter._tcp.local.", vec![ip("fe80::1"), ip("10.0.0.9")]),
        &state,
    );
    assert_eq!(found.display_name, "N");
    assert_eq!(found.known.unwrap().label, "mine");
    let unknown = to_commissioned_device(record("N", vec![ip("10.0.0.7")]), &state);
    assert!(unknown.known.is_none());
}

#[test]
fn a_scan_gives_both_lists() {
    let (waiting, operational) = scan_network(
        &AppState::default(),
        vec![record("a", Vec::new()), record("b", Vec::new())],
        vec![record("c", Vec::new())],
    );
    let names: Vec<&str> = waiting.iter().map(|d| d.display_name.as_str()).collect();
    assert_eq!(names, vec!["a", "b"]);
    assert_eq!(operational.len(), 1);
    assert_eq!(operational[0].display_name, "c");
    assert_eq!(commissionable_service(), "_matterc._udp.local.");
    assert_eq!(commissioned_service(), "_matter._tcp.local.");
}

fn interface(name: &str, index: Option<u32>, address: InterfaceAddress) -> NetworkInterface {
    NetworkInterface {
        name: name.to_string(),
        index,
        address,
    }
}

fn v6(first: u8, second: u8, last: u8) -> InterfaceAddress {
    let mut ip = [0u8; 16];
    ip[0] = first;
    ip[1] = second;
    ip[15] = last;
    InterfaceAddress::V6(ip)
}

#[test]
fn addresses_have_their_scores() {
    let scores = [
        ([10, 0, 0, 1], 35),
        ([172, 15, 255, 1], 15),
        ([172, 16, 0, 1], 35),
        ([172, 31, 255, 1], 35),
        ([172, 32, 0, 1], 15),
        ([192, 168, 0, 1], 35),
        ([192, 167, 0, 1], 15),
        ([169, 254, 1, 1], 10),
        ([169, 253, 1, 1], 15),
        ([8, 8, 8, 8], 15),
    ];
    for (ip, expected) in scores {
        let candidate = Candidate {
            name: String::new(),
            ipv4: Some(ip),
            ipv6: None,
            index: None,
        };
        assert_eq!(score(&candidate), expected);
    }
    let scores = [
        (v6(0xfe, 0x80, 1), 30),
        (v6(0xfe, 0xbf, 1), 30),
        (v6(0xfe, 0xc0, 1), 15),
        (v6(0x20, 0x01, 1), 15),
        (v6(0, 0, 0), 10),
    ];
    for (address, expected) in scores {
        let InterfaceAddress::V6(ip) = address else {
            unreachable!()
        };
        let candidate = Candidate {
            name: String::new(),
            ipv4: Some([10, 0, 0, 1]),
            ipv6: Some(ip),
            index: None,
        };
        assert_eq!(score(&candidate), 35 + expected);
    }
}

#[test]
fn the_best_interface_is_selected() {
    let all = vec![
        interface("lo", Some(1), InterfaceAddress::V4([127, 0, 0, 1])),
        interface("lo", Some(1), v6(0, 0, 1)),
        interface("wlan0", None, InterfaceAddress::V4([192, 168, 1, 5])),
        interface("wlan0", Some(3), v6(0x20, 1, 7)),
        interface("wlan0", Some(9), v6(0xfe, 0x80, 8)),
        interface("wlan0", Some(9), v6(0xfe, 0x80, 9)),
        interface("wlan0", Some(9), InterfaceAddress::V4([192, 168, 1, 6])),
        interface("eth0", Some(2), InterfaceAddress::V4([8, 8, 8, 8])),
        interface("zero", Some(5), InterfaceAddress::V4([0, 0, 0, 0])),
    ];
    let best = initialize_network(&all).unwrap();
    assert_eq!(best.name, "wlan0");
    assert_eq!(best.index, Some(3));
    assert_eq!(best.ipv4, Some([192, 168, 1, 5]));
    assert_eq!(best.ipv6.unwrap()[15], 8);
}

#[test]
fn of_equal_interfaces_the_last_by_name_is_selected() {
    let all = vec![
        interface("eth1", Some(2), InterfaceAddress::V4([10, 0, 0, 1])),
        interface("eth0", Some(1), InterfaceAddress::V4([10, 0, 0, 2])),
    ];
    assert_eq!(initialize_network(&all).unwrap().name, "eth1");
}

#[test]
fn without_an_address_there_is_no_interface() {
    assert!(initialize_network(&Vec::new()).is_none());
    let all = vec![
        interface("lo", Some(1), InterfaceAddress::V4([127, 0, 0, 1])),
        interface("eth0", Some(2), InterfaceAddress::V4([0, 0, 0, 0])),
        interface("eth0", Some(2), v6(0, 0, 0)),
    ];
    assert!(initialize_network(&all).is_none());
}

#[test]
fn the_socket_joins_what_there_are_addresses_for() {
    let four = plan_socket(&Candidate {
        name: "eth0".to_string(),
        ipv4: Some([10, 0, 0, 1]),
        ipv6: None,
        index: Some(4),
    });
    assert_eq!(four.join_v6, None);
    assert_eq!(four.join_v4, Some([10, 0, 0, 1]));
    assert_eq!(four.host_v4, [10, 0, 0, 1]);
    assert_eq!(four.host_v6, [0u8; 16]);
    let six = plan_socket(&Candidate {
        name: "eth0".to_string(),
        ipv4: None,
        ipv6: Some([1; 16]),
        index: Some(4),
    });
    assert_eq!(six.join_v6, Some(4));
    assert_eq!(six.join_v4, None);
    assert_eq!(six.host_v4, [0u8; 4]);
    assert_eq!(six.host_v6, [1u8; 16]);
}

#[test]
fn announced_properties_are_listed_with_what_they_stand_for() {
    assert_eq!(property_line("D", "3840"), "    - D: 3840 (Discriminator)");
    assert_eq!(property_description("V"), " (Vendor ID)");
    assert_eq!(property_description("P"), " (Product ID)");
    assert_eq!(property_description("CM"), " (Commissioning Mode)");
    assert_eq!(property_description("CRA"), " (Commissioning Rotating ID)");
    assert_eq!(property_description("T"), " (TCP Supported)");
    assert_eq!(property_line("x", ""), "    - x: ");
}
