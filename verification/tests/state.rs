use matter_example::number::NumberError;
use matter_example::state::{
    escape_field, unescape_field, AppState, EndpointAlias, KnownDevice, DEFAULT_CONTROLLER_ID,
};

fn device(label: &str, node_id: u64, last_address: &str) -> KnownDevice {
    KnownDevice {
        label: label.to_string(),
        node_id,
        last_address: last_address.to_string(),
    }
}

fn sample() -> AppState {
    AppState {
        controller_id: 7,
        fabric_label: "home\\\tlab".to_string(),
        devices: vec![device("Lamp\nkitchen", 4097, "10.0.0.2:5540")],
        endpoint_aliases: vec![EndpointAlias {
            node_id: 4097,
            endpoint_id: 2,
            label: "Ceiling".to_string(),
        }],
    }
}

#[test]
fn fresh_state_is_the_default() {
    let state = AppState::default();
    assert_eq!(state.controller_id, DEFAULT_CONTROLLER_ID);
    assert_eq!(state.controller_id, 100);
    assert_eq!(state.fabric_label, "matter-client");
    assert!(state.devices.is_empty());
    assert!(state.endpoint_aliases.is_empty());
    let loaded = AppState::load(None).unwrap();
    assert_eq!(loaded.fabric_label, "matter-client");
}

#[test]
fn fields_are_escaped_and_read_back() {
    assert_eq!(escape_field("a\\b\tc\nd"), "a\\\\b\\tc\\nd");
    for s in ["", "plain", "\\", "\\t", "a\tb\nc\\", "\\\\n"] {
        assert_eq!(unescape_field(&escape_field(s)), s);
        assert!(!escape_field(s).contains('\t'));
        assert!(!escape_field(s).contains('\n'));
    }
}

#[test]
fn stored_state_has_one_row_for_each_entry() {
    assert_eq!(
        sample().save(),
        "controller_id\t7\nfabric_label\thome\\\\\\tlab\ndevice\tLamp\\nkitchen\t4097\t10.0.0.2:5540\nendpoint\t4097\t2\tCeiling\n"
    );
}

#[test]
fn stored_state_is_loaded_again() {
    let text = sample().save();
    let back = AppState::load(Some(&text)).unwrap();
    assert_eq!(back.controller_id, 7);
    assert_eq!(back.fabric_label, "home\\\tlab");
    assert_eq!(back.devices.len(), 1);
    assert_eq!(back.devices[0].label, "Lamp\nkitchen");
    assert_eq!(back.devices[0].node_id, 4097);
    assert_eq!(back.devices[0].last_address, "10.0.0.2:5540");
    assert_eq!(back.endpoint_aliases.len(), 1);
    assert_eq!(back.endpoint_aliases[0].endpoint_id, 2);
    assert_eq!(back.endpoint_aliases[0].label, "Ceiling");
    assert_eq!(back.save(), text);
}

#[test]
fn unknown_rows_are_passed_over_and_bad_numbers_are_not() {
    let state = AppState::load(Some("what\tever\ncontroller_id\t5\n\ndevice\tx\n")).unwrap();
    assert_eq!(state.controller_id, 5);
    assert!(state.devices.is_empty());
    assert_eq!(
        AppState::load(Some("controller_id\tfive")).err(),
        Some(NumberError::InvalidDigit)
    );
    assert_eq!(AppState::load(Some("controller_id\t")).err(), Some(NumberError::Empty));
    assert_eq!(
        AppState::load(Some("endpoint\t1\t65536\tx")).err(),
        Some(NumberError::TooLarge)
    );
}

#[test]
fn next_node_id_is_above_the_others() {
    let mut state = AppState::default();
    assert_eq!(state.next_node_id(), 0x1001);
    state.devices.push(device("a", 9, ""));
    state.devices.push(device("b", 3, ""));
    assert_eq!(state.next_node_id(), 10);
    assert!(state.has_free_node_id());
    state.devices.push(device("c", u64::MAX, ""));
    assert!(!state.has_free_node_id());
}
