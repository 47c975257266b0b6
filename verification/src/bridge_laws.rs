//! What holds of the bridge and its lights.

use crate::bridge;
use crate::bridge::{BridgeCluster, DeviceType, EndpointLayout, HandlerKind, OtaRead, Route};
use crate::light_on_off::{LightOnOffLogic, StartUpOnOff, Switched};
use crate::number;
use vstd::prelude::*;

verus! {

// Lights

/// A light that has been switched is as it was switched, and is still the same light. Only switching
/// it on is signalled, and the log tells which light was switched, and how.
pub proof fn switched_light_is_as_it_was_switched(
    light: &mut LightOnOffLogic,
    on: bool,
    r: Switched,
    now: bool,
    start_up: Option<StartUpOnOff>,
    name: String,
)
    requires
        call_ensures(LightOnOffLogic::set_on_off, (light, on), r),
        call_ensures(LightOnOffLogic::on_off, (final(light),), now),
        call_ensures(LightOnOffLogic::start_up_on_off, (final(light),), start_up),
        call_ensures(LightOnOffLogic::light_name, (final(light),), name),
    ensures
        now == on,
        start_up == old(light).state.start_up_on_off,
        final(light).endpoint_id == old(light).endpoint_id,
        r.signal <==> on,
        r.log@ == "bulb_id="@ + number::decimal_text(old(light).endpoint_id as nat)
            + " bulb_name=\""@ + name@ + "\" on_off="@ + if on {
            "true"@
        } else {
            "false"@
        },
{
}

/// What a light does when it gets power is what was set last, and setting it does not switch the
/// light.
pub proof fn start_up_is_what_was_set(
    light: &mut LightOnOffLogic,
    value: Option<StartUpOnOff>,
    r: Option<StartUpOnOff>,
    now: bool,
)
    requires
        call_ensures(LightOnOffLogic::set_start_up_on_off, (light, value), ()),
        call_ensures(LightOnOffLogic::start_up_on_off, (final(light),), r),
        call_ensures(LightOnOffLogic::on_off, (final(light),), now),
    ensures
        r == value,
        now == old(light).state.on_off,
        final(light).endpoint_id == old(light).endpoint_id,
{
}

/// A new light is off.
pub proof fn new_light_is_off(endpoint: u16, light: LightOnOffLogic, now: bool)
    requires
        call_ensures(LightOnOffLogic::new, (endpoint,), light),
        call_ensures(LightOnOffLogic::on_off, (&light,), now),
    ensures
        !now,
        light.endpoint_id == endpoint,
        light.state.start_up_on_off is None,
{
}

/// The lights are counted from one, both in their names and in their identifiers: the endpoint of a
/// light is one above its number. Every other endpoint goes by the name of the bridge.
pub proof fn lights_are_counted(endpoint: u16, name: String, unique_id: String)
    requires
        call_ensures(bridge::default_light_name, (endpoint,), name),
        call_ensures(bridge::default_light_unique_id, (endpoint,), unique_id),
    ensures
        endpoint == 2 || endpoint == 3 ==> {
            &&& name@ == "Light "@ + number::decimal_text((endpoint - 1) as nat)
            &&& unique_id@ == "light-"@ + number::decimal_text((endpoint - 1) as nat)
        },
        endpoint != 2 && endpoint != 3 ==> name@ == "Example Light Bridge"@ && unique_id@
            == "pnp-bridge-light"@,
{
    reveal_strlit("Light ");
    reveal_strlit("Light 1");
    reveal_strlit("Light 2");
    reveal_strlit("light-");
    reveal_strlit("light-1");
    reveal_strlit("light-2");
    reveal_with_fuel(number::digits, 2);
    if endpoint == 2 {
        assert(number::decimal_text(1) =~= seq!['1']);
        assert("Light 1"@ =~= "Light "@ + seq!['1']);
        assert("light-1"@ =~= "light-"@ + seq!['1']);
    } else if endpoint == 3 {
        assert(number::decimal_text(2) =~= seq!['2']);
        assert("Light 2"@ =~= "Light "@ + seq!['2']);
        assert("light-2"@ =~= "light-"@ + seq!['2']);
    }
}

// The node

/// The endpoints are numbered without a gap: the root, the bridge as a whole, and then the lights, of
/// which there are two if the second one is enabled and one otherwise. Every light is a bridged node
/// that can be switched.
pub proof fn endpoints_are_numbered(second_light: bool, r: Vec<EndpointLayout>)
    requires
        call_ensures(bridge::node_layout, (second_light,), r),
    ensures
        r@.len() == if second_light {
            4int
        } else {
            3
        },
        forall|i: int| 0 <= i < r@.len() ==> (#[trigger] r@[i]).id == i,
        r@[0].device_types@ == seq![DeviceType::RootNode],
        r@[0].clusters@ == seq![BridgeCluster::OtaRequestor],
        r@[1].device_types@ == seq![DeviceType::Aggregator],
        r@[1].clusters@ == seq![BridgeCluster::Descriptor],
        forall|i: int|
            2 <= i < r@.len() ==> {
                &&& (#[trigger] r@[i]).device_types@.contains(DeviceType::OnOffLight)
                &&& r@[i].device_types@.contains(DeviceType::BridgedNode)
                &&& r@[i].clusters@.contains(BridgeCluster::Descriptor)
                &&& r@[i].clusters@.contains(BridgeCluster::Groups)
                &&& r@[i].clusters@.contains(BridgeCluster::BridgedDevice)
                &&& r@[i].clusters@.contains(BridgeCluster::OnOff)
            },
{
    let all = r.deep_view();
    assert(all.len() == r@.len());
    assert(forall|i: int| 0 <= i < r@.len() ==> #[trigger] all[i] == r@[i].deep_view());
    assert forall|i: int| 0 <= i < r@.len() implies (#[trigger] r@[i]).id == i by {
        assert(all[i].id == i);
    }
    assert(all[0] == r@[0].deep_view());
    assert(all[1] == r@[1].deep_view());
    assert forall|i: int| 2 <= i < r@.len() implies {
        &&& (#[trigger] r@[i]).device_types@.contains(DeviceType::OnOffLight)
        &&& r@[i].device_types@.contains(DeviceType::BridgedNode)
        &&& r@[i].clusters@.contains(BridgeCluster::Descriptor)
        &&& r@[i].clusters@.contains(BridgeCluster::Groups)
        &&& r@[i].clusters@.contains(BridgeCluster::BridgedDevice)
        &&& r@[i].clusters@.contains(BridgeCluster::OnOff)
    } by {
        let e = bridge::light_layout(i as u16);
        assert(all[i] == e);
        assert(e.device_types[0] == DeviceType::OnOffLight);
        assert(e.device_types[1] == DeviceType::BridgedNode);
        assert(e.clusters[0] == BridgeCluster::Descriptor);
        assert(e.clusters[1] == BridgeCluster::Groups);
        assert(e.clusters[2] == BridgeCluster::BridgedDevice);
        assert(e.clusters[3] == BridgeCluster::OnOff);
    }
}

/// Every cluster is served by a handler made for it: the switch of a light by the light itself, and
/// the descriptor of the bridge as a whole by the one that lists the lights.
pub proof fn handlers_are_made_for_their_clusters(second_light: bool, r: Vec<Route>)
    requires
        call_ensures(bridge::handler_routes, (second_light,), r),
    ensures
        forall|k: int|
            0 <= k < r@.len() ==> (#[trigger] r@[k]).handler == match r@[k].cluster {
                BridgeCluster::Descriptor => if r@[k].endpoint == 1 {
                    HandlerKind::AggregatorDescriptor
                } else {
                    HandlerKind::Descriptor
                },
                BridgeCluster::Groups => HandlerKind::Groups,
                BridgeCluster::BridgedDevice => HandlerKind::BridgedDevice,
                BridgeCluster::OnOff => HandlerKind::OnOff {
                    light: (r@[k].endpoint - 2) as usize,
                },
                BridgeCluster::OtaRequestor => HandlerKind::OtaRequestor,
            },
        forall|k: int, l: int|
            0 <= k < l < r@.len() ==> (#[trigger] r@[k]).endpoint != (#[trigger] r@[l]).endpoint
                || r@[k].cluster != r@[l].cluster,
        forall|k: int| 0 <= k < r@.len() ==> second_light || (#[trigger] r@[k]).endpoint < 3,
{
}

/// The second light is enabled by the word `true`, written in small letters, in capital letters or
/// with one, and by nothing else.
pub proof fn only_true_enables_the_second_light(value: &str, r: bool)
    requires
        call_ensures(bridge::second_light_enabled, (Some(value),), r),
    ensures
        r <==> value@ == seq!['t', 'r', 'u', 'e'] || value@ == seq!['T', 'R', 'U', 'E'] || value@
            == seq!['T', 'r', 'u', 'e'],
{
    reveal_strlit("true");
    reveal_strlit("TRUE");
    reveal_strlit("True");
    assert("true"@ =~= seq!['t', 'r', 'u', 'e']);
    assert("TRUE"@ =~= seq!['T', 'R', 'U', 'E']);
    assert("True"@ =~= seq!['T', 'r', 'u', 'e']);
}

/// The commissioning window is open exactly while the bridge belongs to no fabric.
pub proof fn window_is_open_until_commissioned(r: bool, s: bool)
    requires
        call_ensures(bridge::opens_window, (false,), r),
        call_ensures(bridge::opens_window, (true,), s),
    ensures
        r && !s,
{
}

/// An attribute of the OTA requestor that can be written can be read, and there is one such.
pub proof fn written_attributes_are_read(attribute: u32, read: OtaRead, written: bool)
    requires
        call_ensures(bridge::ota_read, (false, attribute), read),
        call_ensures(bridge::ota_write, (attribute,), written),
    ensures
        written <==> attribute == 0,
        written <==> read == OtaRead::NoProviders,
        !written <==> read == OtaRead::AttributeNotFound,
{
}

} // verus!
