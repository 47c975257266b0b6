//! The bridge: its endpoints, who serves which cluster of them, and how its lights are called.

use crate::lists;
use vstd::prelude::*;

verus! {

/// The root endpoint of a node.
pub const ROOT_ENDPOINT: u16 = 0;

/// The endpoint that stands for the bridge as a whole.
pub const AGGREGATOR_ENDPOINT: u16 = 1;

/// The endpoint of the first light.
pub const FIRST_LIGHT_ENDPOINT: u16 = 2;

/// The endpoint of the second light.
pub const SECOND_LIGHT_ENDPOINT: u16 = 3;

/// The default OTA providers among the attributes of the OTA requestor.
pub const OTA_DEFAULT_PROVIDERS: u32 = 0;

// Settings

/// Whether the second light is enabled by the value of a setting.
pub open spec fn enables_second_light(value: Option<Seq<char>>) -> bool {
    value == Some("true"@) || value == Some("TRUE"@) || value == Some("True"@)
}

/// Whether the second light is enabled by the value of a setting.
pub fn second_light_enabled(value: Option<&str>) -> (r: bool)
    ensures
        r == enables_second_light(
            match value {
                Some(value) => Some(value@),
                None => None,
            },
        ),
{
    match value {
        Some(value) => {
            let value = value.to_string();
            value == "true".to_string() || value == "TRUE".to_string() || value
                == "True".to_string()
        },
        None => false,
    }
}

/// The name of the light at an endpoint.
pub open spec fn light_name(endpoint: u16) -> Seq<char> {
    if endpoint == FIRST_LIGHT_ENDPOINT {
        "Light 1"@
    } else if endpoint == SECOND_LIGHT_ENDPOINT {
        "Light 2"@
    } else {
        "Example Light Bridge"@
    }
}

/// The name of the light at an endpoint.
pub fn default_light_name(endpoint: u16) -> (r: String)
    ensures
        r@ == light_name(endpoint),
{
    if endpoint == FIRST_LIGHT_ENDPOINT {
        "Light 1".to_string()
    } else if endpoint == SECOND_LIGHT_ENDPOINT {
        "Light 2".to_string()
    } else {
        "Example Light Bridge".to_string()
    }
}

/// The identifier of the light at an endpoint.
pub open spec fn light_unique_id(endpoint: u16) -> Seq<char> {
    if endpoint == FIRST_LIGHT_ENDPOINT {
        "light-1"@
    } else if endpoint == SECOND_LIGHT_ENDPOINT {
        "light-2"@
    } else {
        "pnp-bridge-light"@
    }
}

/// The identifier of the light at an endpoint.
pub fn default_light_unique_id(endpoint: u16) -> (r: String)
    ensures
        r@ == light_unique_id(endpoint),
{
    if endpoint == FIRST_LIGHT_ENDPOINT {
        "light-1".to_string()
    } else if endpoint == SECOND_LIGHT_ENDPOINT {
        "light-2".to_string()
    } else {
        "pnp-bridge-light".to_string()
    }
}

/// The two lights have different names and different identifiers.
pub proof fn lights_are_told_apart()
    ensures
        light_name(FIRST_LIGHT_ENDPOINT) != light_name(SECOND_LIGHT_ENDPOINT),
        light_unique_id(FIRST_LIGHT_ENDPOINT) != light_unique_id(SECOND_LIGHT_ENDPOINT),
{
    reveal_strlit("Light 1");
    reveal_strlit("Light 2");
    reveal_strlit("light-1");
    reveal_strlit("light-2");
    assert("Light 1"@[6] != "Light 2"@[6]);
    assert("light-1"@[6] != "light-2"@[6]);
}

/// What is written to the file with the pairing code.
pub fn pairing_file(code: &str) -> (r: String)
    ensures
        r@ == "Pairing Code: "@ + code@,
{
    let mut r: String = "Pairing Code: ".to_string();
    r.append(code);
    r
}

/// Whether the bridge shows how to pair with it and opens the commissioning window: only while it
/// belongs to no fabric.
pub fn opens_window(commissioned: bool) -> (r: bool)
    ensures
        r == !commissioned,
{
    !commissioned
}

// Endpoints

/// A type that an endpoint can have.
#[derive(Clone, Copy, Debug, PartialEq, Eq, Structural)]
pub enum DeviceType {
    RootNode,
    Aggregator,
    OnOffLight,
    BridgedNode,
}

/// A cluster that the bridge serves itself.
#[derive(Clone, Copy, Debug, PartialEq, Eq, Structural)]
pub enum BridgeCluster {
    Descriptor,
    Groups,
    BridgedDevice,
    OnOff,
    OtaRequestor,
}

/// What serves a cluster: the descriptor of the bridge or of an endpoint, the groups of an
/// endpoint, the switch of the n-th light, the information on a bridged device, or the OTA
/// requestor.
#[derive(Clone, Copy, Debug, PartialEq, Eq, Structural)]
pub enum HandlerKind {
    AggregatorDescriptor,
    Descriptor,
    Groups,
    OnOff { light: usize },
    BridgedDevice,
    OtaRequestor,
}

/// An endpoint, with its types and the clusters that the bridge serves itself.
#[derive(Debug)]
pub struct EndpointLayout {
    pub id: u16,
    pub device_types: Vec<DeviceType>,
    pub clusters: Vec<BridgeCluster>,
}

/// The contents of an [`EndpointLayout`].
#[verifier::ext_equal]
pub struct EndpointLayoutView {
    pub id: u16,
    pub device_types: Seq<DeviceType>,
    pub clusters: Seq<BridgeCluster>,
}

impl DeepView for EndpointLayout {
    type V = EndpointLayoutView;

    open spec fn deep_view(&self) -> EndpointLayoutView {
        EndpointLayoutView {
            id: self.id,
            device_types: self.device_types@,
            clusters: self.clusters@,
        }
    }
}

/// Which handler serves a cluster of an endpoint.
#[derive(Clone, Copy, Debug, PartialEq, Eq, Structural)]
pub struct Route {
    pub endpoint: u16,
    pub cluster: BridgeCluster,
    pub handler: HandlerKind,
}

/// The endpoint of a light.
pub open spec fn light_layout(id: u16) -> EndpointLayoutView {
    EndpointLayoutView {
        id,
        device_types: seq![DeviceType::OnOffLight, DeviceType::BridgedNode],
        clusters: seq![
            BridgeCluster::Descriptor,
            BridgeCluster::Groups,
            BridgeCluster::BridgedDevice,
            BridgeCluster::OnOff,
        ],
    }
}

/// The endpoints of the bridge: the root, the bridge as a whole, and one for each light.
pub open spec fn layout(second_light: bool) -> Seq<EndpointLayoutView> {
    let one = seq![
        EndpointLayoutView {
            id: ROOT_ENDPOINT,
            device_types: seq![DeviceType::RootNode],
            clusters: seq![BridgeCluster::OtaRequestor],
        },
        EndpointLayoutView {
            id: AGGREGATOR_ENDPOINT,
            device_types: seq![DeviceType::Aggregator],
            clusters: seq![BridgeCluster::Descriptor],
        },
        light_layout(FIRST_LIGHT_ENDPOINT),
    ];
    if second_light {
        one.push(light_layout(SECOND_LIGHT_ENDPOINT))
    } else {
        one
    }
}

fn light_endpoint(id: u16) -> (r: EndpointLayout)
    ensures
        r.deep_view() == light_layout(id),
{
    let mut device_types: Vec<DeviceType> = Vec::new();
    device_types.push(DeviceType::OnOffLight);
    device_types.push(DeviceType::BridgedNode);
    let mut clusters: Vec<BridgeCluster> = Vec::new();
    clusters.push(BridgeCluster::Descriptor);
    clusters.push(BridgeCluster::Groups);
    clusters.push(BridgeCluster::BridgedDevice);
    clusters.push(BridgeCluster::OnOff);
    let r = EndpointLayout { id, device_types, clusters };
    assert(r.deep_view() =~= light_layout(id));
    r
}

/// The endpoints of the bridge.
pub fn node_layout(second_light: bool) -> (r: Vec<EndpointLayout>)
    ensures
        r.deep_view() == layout(second_light),
{
    let mut root_types: Vec<DeviceType> = Vec::new();
    root_types.push(DeviceType::RootNode);
    let mut root_clusters: Vec<BridgeCluster> = Vec::new();
    root_clusters.push(BridgeCluster::OtaRequestor);
    let mut bridge_types: Vec<DeviceType> = Vec::new();
    bridge_types.push(DeviceType::Aggregator);
    let mut bridge_clusters: Vec<BridgeCluster> = Vec::new();
    bridge_clusters.push(BridgeCluster::Descriptor);
    let mut r: Vec<EndpointLayout> = Vec::new();
    r.push(
        EndpointLayout { id: ROOT_ENDPOINT, device_types: root_types, clusters: root_clusters },
    );
    r.push(
        EndpointLayout {
            id: AGGREGATOR_ENDPOINT,
            device_types: bridge_types,
            clusters: bridge_clusters,
        },
    );
    r.push(light_endpoint(FIRST_LIGHT_ENDPOINT));
    if second_light {
        r.push(light_endpoint(SECOND_LIGHT_ENDPOINT));
    }
    assert(r.deep_view() =~~= layout(second_light));
    r
}

/// Who serves the clusters of a light.
pub open spec fn light_routes(endpoint: u16, light: usize) -> Seq<Route> {
    seq![
        Route {
            endpoint,
            cluster: BridgeCluster::Descriptor,
            handler: HandlerKind::Descriptor,
        },
        Route { endpoint, cluster: BridgeCluster::Groups, handler: HandlerKind::Groups },
        Route { endpoint, cluster: BridgeCluster::OnOff, handler: HandlerKind::OnOff { light } },
        Route {
            endpoint,
            cluster: BridgeCluster::BridgedDevice,
            handler: HandlerKind::BridgedDevice,
        },
    ]
}

/// Who serves the clusters of the bridge.
pub open spec fn routes(second_light: bool) -> Seq<Route> {
    let one = seq![
        Route {
            endpoint: AGGREGATOR_ENDPOINT,
            cluster: BridgeCluster::Descriptor,
            handler: HandlerKind::AggregatorDescriptor,
        },
        Route {
            endpoint: ROOT_ENDPOINT,
            cluster: BridgeCluster::OtaRequestor,
            handler: HandlerKind::OtaRequestor,
        },
    ] + light_routes(FIRST_LIGHT_ENDPOINT, 0);
    if second_light {
        one + light_routes(SECOND_LIGHT_ENDPOINT, 1)
    } else {
        one
    }
}

fn add_light_routes(r: &mut Vec<Route>, endpoint: u16, light: usize)
    ensures
        final(r)@ == old(r)@ + light_routes(endpoint, light),
{
    r.push(
        Route { endpoint, cluster: BridgeCluster::Descriptor, handler: HandlerKind::Descriptor },
    );
    r.push(Route { endpoint, cluster: BridgeCluster::Groups, handler: HandlerKind::Groups });
    r.push(
        Route { endpoint, cluster: BridgeCluster::OnOff, handler: HandlerKind::OnOff { light } },
    );
    r.push(
        Route {
            endpoint,
            cluster: BridgeCluster::BridgedDevice,
            handler: HandlerKind::BridgedDevice,
        },
    );
    assert(r@ =~= old(r)@ + light_routes(endpoint, light));
}

/// Who serves the clusters of the bridge.
pub fn handler_routes(second_light: bool) -> (r: Vec<Route>)
    ensures
        r@ == routes(second_light),
{
    let mut r: Vec<Route> = Vec::new();
    r.push(
        Route {
            endpoint: AGGREGATOR_ENDPOINT,
            cluster: BridgeCluster::Descriptor,
            handler: HandlerKind::AggregatorDescriptor,
        },
    );
    r.push(
        Route {
            endpoint: ROOT_ENDPOINT,
            cluster: BridgeCluster::OtaRequestor,
            handler: HandlerKind::OtaRequestor,
        },
    );
    add_light_routes(&mut r, FIRST_LIGHT_ENDPOINT, 0);
    if second_light {
        add_light_routes(&mut r, SECOND_LIGHT_ENDPOINT, 1);
    }
    assert(r@ =~= routes(second_light));
    r
}

/// Whether a route is for a cluster of an endpoint.
pub open spec fn serves(r: Route, endpoint: u16, cluster: BridgeCluster) -> bool {
    r.endpoint == endpoint && r.cluster == cluster
}

/// Every cluster of every endpoint is served by exactly one handler.
pub proof fn every_cluster_is_served(second_light: bool, e: int, c: int)
    requires
        0 <= e < layout(second_light).len(),
        0 <= c < layout(second_light)[e].clusters.len(),
    ensures
        ({
            let endpoint = layout(second_light)[e];
            lists::only(
                routes(second_light),
                |r: Route| serves(r, endpoint.id, endpoint.clusters[c]),
            ) is Some
        }),
{
    let endpoint = layout(second_light)[e];
    let cluster = endpoint.clusters[c];
    let p = |r: Route| serves(r, endpoint.id, cluster);
    let all = routes(second_light);
    let k: int = if e == 0 {
        1
    } else if e == 1 {
        0
    } else {
        4 * (e - 2) + (if c == 0 {
            2int
        } else if c == 1 {
            3
        } else if c == 2 {
            5
        } else {
            4
        })
    };
    assert(lists::is_only(all, p, k));
    lists::lemma_only(all, p, k);
}

/// No handler waits for a cluster that no endpoint has, and the switch that serves a light is that
/// of the light.
pub proof fn every_handler_is_needed(second_light: bool, k: int)
    requires
        0 <= k < routes(second_light).len(),
    ensures
        ({
            let route = routes(second_light)[k];
            &&& exists|e: int|
                0 <= e < layout(second_light).len() && (#[trigger] layout(second_light)[e]).id
                    == route.endpoint && layout(second_light)[e].clusters.contains(route.cluster)
            &&& route.handler matches HandlerKind::OnOff { light } ==> route.endpoint
                == FIRST_LIGHT_ENDPOINT + light
        }),
{
    let route = routes(second_light)[k];
    let e: int = if k == 0 {
        1
    } else if k == 1 {
        0
    } else if k < 6 {
        2
    } else {
        3
    };
    let c: int = if k < 2 {
        0
    } else if k == 2 || k == 6 {
        0
    } else if k == 3 || k == 7 {
        1
    } else if k == 4 || k == 8 {
        3
    } else {
        2
    };
    assert(layout(second_light)[e].clusters[c] == route.cluster);
}

// The OTA requestor

/// How a read of an attribute of the OTA requestor is answered: by the attributes that every
/// cluster has, by an empty list of providers, or not at all.
#[derive(Clone, Copy, Debug, PartialEq, Eq, Structural)]
pub enum OtaRead {
    System,
    NoProviders,
    AttributeNotFound,
}

/// How a read of an attribute of the OTA requestor is answered.
pub fn ota_read(is_system: bool, attribute: u32) -> (r: OtaRead)
    ensures
        r == if is_system {
            OtaRead::System
        } else if attribute == OTA_DEFAULT_PROVIDERS {
            OtaRead::NoProviders
        } else {
            OtaRead::AttributeNotFound
        },
{
    if is_system {
        OtaRead::System
    } else if attribute == OTA_DEFAULT_PROVIDERS {
        OtaRead::NoProviders
    } else {
        OtaRead::AttributeNotFound
    }
}

/// Whether a write to an attribute of the OTA requestor is accepted, and thus changes the version
/// of its data.
pub fn ota_write(attribute: u32) -> (r: bool)
    ensures
        r == (attribute == OTA_DEFAULT_PROVIDERS),
{
    attribute == OTA_DEFAULT_PROVIDERS
}

} // verus!
