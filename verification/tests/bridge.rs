use matter_example::bridge::{
    default_light_name, default_light_unique_id, handler_routes, node_layout, opens_window,
    ota_read, ota_write, pairing_file, second_light_enabled, BridgeCluster, DeviceType, HandlerKind, OtaRead,
};
use matter_example::light_on_off::{LightOnOffLogic, StartUpOnOff};

#[test]
fn the_second_light_is_enabled_by_a_true_value() {
    for value in ["true", "TRUE", "True"] {
        assert!(second_light_enabled(Some(value)));
    }
    for value in ["", "false", "tRUE", "1", "true "] {
        assert!(!second_light_enabled(Some(value)));
    }
    assert!(!second_light_enabled(None));
}

#[test]
fn lights_have_names_and_identifiers() {
    assert_eq!(default_light_name(2), "Light 1");
    assert_eq!(default_light_name(3), "Light 2");
    assert_eq!(default_light_name(4), "Example Light Bridge");
    assert_eq!(default_light_unique_id(2), "light-1");
    assert_eq!(default_light_unique_id(3), "light-2");
    assert_eq!(default_light_unique_id(0), "pnp-bridge-light");
    assert_eq!(pairing_file("3497-011-2332"), "Pairing Code: 3497-011-2332");
}

#[test]
fn the_bridge_has_an_endpoint_for_each_light() {
    let ids = |second: bool| -> Vec<u16> { node_layout(second).iter().map(|e| e.id).collect() };
    assert_eq!(ids(false), vec![0, 1, 2]);
    assert_eq!(ids(true), vec![0, 1, 2, 3]);
    let two = node_layout(true);
    assert_eq!(two[0].device_types, vec![DeviceType::RootNode]);
    assert_eq!(two[0].clusters, vec![BridgeCluster::OtaRequestor]);
    assert_eq!(two[1].device_types, vec![DeviceType::Aggregator]);
    assert_eq!(
        two[3].device_types,
        vec![DeviceType::OnOffLight, DeviceType::BridgedNode]
    );
}

#[test]
fn every_cluster_has_one_handler() {
    for second in [false, true] {
        let routes = handler_routes(second);
        let mut served = 0;
        for endpoint in node_layout(second) {
            for cluster in &endpoint.clusters {
                let handlers: Vec<HandlerKind> = routes
                    .iter()
                    .filter(|r| r.endpoint == endpoint.id && r.cluster == *cluster)
                    .map(|r| r.handler)
                    .collect();
                assert_eq!(handlers.len(), 1);
                if *cluster == BridgeCluster::OnOff {
                    let light = (endpoint.id - 2) as usize;
                    assert_eq!(handlers[0], HandlerKind::OnOff { light });
                }
                served += 1;
            }
        }
        assert_eq!(served, routes.len());
        assert_eq!(routes[0].handler, HandlerKind::AggregatorDescriptor);
    }
}

#[test]
fn the_ota_requestor_knows_one_attribute() {
    assert_eq!(ota_read(false, 0), OtaRead::NoProviders);
    assert_eq!(ota_read(false, 1), OtaRead::AttributeNotFound);
    assert_eq!(ota_read(true, 0xfffd), OtaRead::System);
    assert!(ota_write(0));
    assert!(!ota_write(1));
}

#[test]
fn a_light_is_switched() {
    let mut light = LightOnOffLogic::new(3);
    assert!(!light.on_off());
    assert_eq!(light.start_up_on_off(), None);
    let switched = light.set_on_off(true);
    assert!(light.on_off());
    assert!(switched.signal);
    assert_eq!(switched.log, "bulb_id=3 bulb_name=\"Light 2\" on_off=true");
    let switched = light.set_on_off(false);
    assert!(!light.on_off());
    assert!(!switched.signal);
    assert_eq!(switched.log, "bulb_id=3 bulb_name=\"Light 2\" on_off=false");
    light.set_start_up_on_off(Some(StartUpOnOff::Toggle));
    assert_eq!(light.start_up_on_off(), Some(StartUpOnOff::Toggle));
    assert!(!light.on_off());
    assert_eq!(light.light_name(), "Light 2");
}

#[test]
fn the_window_opens_for_a_bridge_without_a_fabric() {
    assert!(opens_window(false));
    assert!(!opens_window(true));
}
