//! What comes out when all the attributes of a device have been read.

use crate::endpoints;
use crate::endpoints::{EndpointLoad, EndpointLoadView, ProgressView, TlvField, TlvValue};
use crate::lists;
use crate::matter::{
    AttributePath, ATTRIBUTE_DEVICE_TYPE_LIST, ATTRIBUTE_PARTS_LIST, ATTRIBUTE_SERVER_LIST,
    CLUSTER_ACTIONS,
};
use crate::number;
use crate::trusted;
use crate::types::{ActionView, EndpointSummaryView};
use crate::utils;
use vstd::prelude::*;

verus! {

/// A device, as far as it is read: its answer for every attribute. An attribute that it does not
/// have is one that it does not answer for.
pub type Device = spec_fn(AttributePath) -> Option<TlvValue>;

/// The label of an endpoint: that of the device behind the bridge, else that of the node.
pub open spec fn label_on(device: Device, id: u16) -> Option<Seq<char>> {
    match endpoints::label_in(device(endpoints::bridged_label_path(id))) {
        Some(label) => Some(label),
        None => endpoints::label_in(device(endpoints::basic_label_path(id))),
    }
}

/// What is shown of an endpoint once its actions, if it has any, have been read.
pub open spec fn finished(
    device: Device,
    id: u16,
    clusters: Seq<u32>,
    types: Seq<Seq<char>>,
    label: Option<Seq<char>>,
) -> Option<EndpointSummaryView> {
    if clusters.contains(CLUSTER_ACTIONS) {
        match device(endpoints::action_list_path(id)) {
            Some(value) => Some(
                endpoints::summary_of(id, clusters, types, label, endpoints::actions_of(value)),
            ),
            None => None,
        }
    } else {
        Some(endpoints::summary_of(id, clusters, types, label, Seq::<ActionView>::empty()))
    }
}

/// What is shown of an endpoint; nothing where its descriptor or its actions cannot be read.
pub open spec fn endpoint_on(device: Device, id: u16) -> Option<EndpointSummaryView> {
    match device(endpoints::descriptor_path(id, ATTRIBUTE_SERVER_LIST)) {
        None => None,
        Some(server) => match device(endpoints::descriptor_path(id, ATTRIBUTE_DEVICE_TYPE_LIST)) {
            None => None,
            Some(types) => finished(
                device,
                id,
                endpoints::clusters_of(server),
                endpoints::types_of(types),
                label_on(device, id),
            ),
        },
    }
}

/// An endpoint as a sequence of none or one.
pub open spec fn as_seq(endpoint: Option<EndpointSummaryView>) -> Seq<EndpointSummaryView> {
    match endpoint {
        Some(e) => seq![e],
        None => seq![],
    }
}

/// What is shown of endpoints.
pub open spec fn endpoints_on(device: Device, ids: Seq<u16>) -> Seq<EndpointSummaryView>
    decreases ids.len(),
{
    if ids.len() == 0 {
        seq![]
    } else {
        as_seq(endpoint_on(device, ids.first())) + endpoints_on(device, ids.drop_first())
    }
}

/// What a load that stands here will have read at its end.
pub open spec fn outcome(load: EndpointLoadView, device: Device) -> Seq<EndpointSummaryView> {
    let id = load.ids[load.index as int];
    let rest = endpoints_on(device, load.ids.skip(load.index as int + 1));
    load.endpoints + match load.progress {
        ProgressView::OwnBridgedLabel => endpoints_on(
            device,
            endpoints::endpoint_ids(device(endpoints::descriptor_path(0, ATTRIBUTE_PARTS_LIST))),
        ),
        ProgressView::OwnBasicLabel => endpoints_on(
            device,
            endpoints::endpoint_ids(device(endpoints::descriptor_path(0, ATTRIBUTE_PARTS_LIST))),
        ),
        ProgressView::Parts => endpoints_on(
            device,
            endpoints::endpoint_ids(device(endpoints::descriptor_path(0, ATTRIBUTE_PARTS_LIST))),
        ),
        ProgressView::Server => endpoints_on(device, load.ids.skip(load.index as int)),
        ProgressView::Types { clusters } => as_seq(
            match device(endpoints::descriptor_path(id, ATTRIBUTE_DEVICE_TYPE_LIST)) {
                None => None,
                Some(types) => finished(
                    device,
                    id,
                    clusters,
                    endpoints::types_of(types),
                    label_on(device, id),
                ),
            },
        ) + rest,
        ProgressView::BridgedLabel { clusters, types } => as_seq(
            finished(device, id, clusters, types, label_on(device, id)),
        ) + rest,
        ProgressView::BasicLabel { clusters, types } => as_seq(
            finished(
                device,
                id,
                clusters,
                types,
                endpoints::label_in(device(endpoints::basic_label_path(id))),
            ),
        ) + rest,
        ProgressView::Actions { clusters, types, label } => as_seq(
            match device(endpoints::action_list_path(id)) {
                Some(value) => Some(
                    endpoints::summary_of(id, clusters, types, label, endpoints::actions_of(value)),
                ),
                None => None,
            },
        ) + rest,
    }
}

/// The label of the device that a load that stands here will have read at its end.
pub open spec fn label_outcome(load: EndpointLoadView, device: Device) -> Option<Seq<char>> {
    match load.progress {
        ProgressView::OwnBridgedLabel => label_on(device, 0),
        ProgressView::OwnBasicLabel => endpoints::label_in(device(endpoints::basic_label_path(0))),
        _ => load.own_label,
    }
}

/// How far a load is from the list of its endpoints.
pub open spec fn stage(load: EndpointLoadView) -> nat {
    match load.progress {
        ProgressView::OwnBridgedLabel => 3,
        ProgressView::OwnBasicLabel => 2,
        ProgressView::Parts => 1,
        _ => 0,
    }
}

/// A bound on the attributes that a load still has to read of its endpoints.
pub open spec fn left(load: EndpointLoadView) -> int {
    6 * (load.ids.len() - load.index) - match load.progress {
        ProgressView::Types { .. } => 1int,
        ProgressView::BridgedLabel { .. } => 2,
        ProgressView::BasicLabel { .. } => 3,
        ProgressView::Actions { .. } => 4,
        _ => 0,
    }
}

/// Every answer brings a load nearer to its end, and does not change what it will have read.
pub proof fn answers_lead_to_the_outcome(load: EndpointLoadView, device: Device)
    requires
        load.wf(),
        load.request() is Some,
    ensures
        ({
            let next = load.answered(device(load.request().unwrap()));
            &&& next.wf()
            &&& outcome(next, device) == outcome(load, device)
            &&& label_outcome(next, device) == label_outcome(load, device)
            &&& stage(next) < stage(load) || (stage(next) == stage(load) && 0 <= left(next) < left(
                load,
            ))
        }),
{
    let next = load.answered(device(load.request().unwrap()));
    if stage(load) == 0 {
        let i = load.index as int;
        assert(load.ids.skip(i).first() == load.ids[i]);
        assert(load.ids.skip(i).drop_first() =~= load.ids.skip(i + 1));
        assert(load.ids.skip(i + 1).len() == load.ids.len() - i - 1);
    } else {
        assert(next.ids.skip(0) =~= next.ids);
    }
    assert(outcome(next, device) =~= outcome(load, device));
}

/// A load at its end, when the device has answered for everything that was asked.
pub open spec fn completed(load: EndpointLoadView, device: Device) -> EndpointLoadView
    decreases stage(load), left(load),
    when load.wf()
    via completed_decreases
{
    match load.request() {
        Some(path) => completed(load.answered(device(path)), device),
        None => load,
    }
}

#[via_fn]
proof fn completed_decreases(load: EndpointLoadView, device: Device) {
    if load.request() is Some {
        answers_lead_to_the_outcome(load, device);
    }
}

proof fn lemma_completed(load: EndpointLoadView, device: Device)
    requires
        load.wf(),
    ensures
        completed(load, device).request() is None,
        completed(load, device).endpoints == outcome(load, device),
        completed(load, device).own_label == label_outcome(load, device),
    decreases stage(load), left(load),
{
    match load.request() {
        Some(path) => {
            answers_lead_to_the_outcome(load, device);
            lemma_completed(load.answered(device(path)), device);
        },
        None => {
            assert(load.ids.skip(load.index as int) =~= seq![]);
            assert(outcome(load, device) =~= load.endpoints);
        },
    }
}

/// A load reads the root endpoint and every endpoint in the parts list of the device, in this order
/// and each once, and leaves out those that it cannot read.
pub proof fn load_reads_all_endpoints(device: Device)
    ensures
        completed(endpoints::load_from(ProgressView::Parts), device).request() is None,
        completed(endpoints::load_from(ProgressView::Parts), device).endpoints == endpoints_on(
            device,
            endpoints::endpoint_ids(device(endpoints::descriptor_path(0, ATTRIBUTE_PARTS_LIST))),
        ),
{
    let load = endpoints::load_from(ProgressView::Parts);
    lemma_completed(load, device);
    assert(outcome(load, device) =~= endpoints_on(
        device,
        endpoints::endpoint_ids(device(endpoints::descriptor_path(0, ATTRIBUTE_PARTS_LIST))),
    ));
}

/// A load that begins with the label of the device reads that label and the same endpoints.
pub proof fn load_reads_the_label(device: Device)
    ensures
        completed(endpoints::load_from(ProgressView::OwnBridgedLabel), device).request() is None,
        completed(endpoints::load_from(ProgressView::OwnBridgedLabel), device).own_label
            == label_on(device, 0),
        completed(endpoints::load_from(ProgressView::OwnBridgedLabel), device).endpoints
            == completed(endpoints::load_from(ProgressView::Parts), device).endpoints,
{
    lemma_completed(endpoints::load_from(ProgressView::OwnBridgedLabel), device);
    lemma_completed(endpoints::load_from(ProgressView::Parts), device);
}

// What is read is what the device says

/// Whether a value is a list with a number in it, wherever the number stands.
pub open spec fn lists_number(value: TlvValue, n: u64) -> bool {
    value matches TlvValue::List(fields) && exists|i: int|
        0 <= i < fields@.len() && (#[trigger] fields@[i]).value == TlvValue::Int(n)
}

/// Whether a value is a list with the id of a cluster in it. Only the lowest 32 bits count.
pub open spec fn lists_cluster(value: TlvValue, cluster: int) -> bool {
    exists|n: u64| #[trigger] lists_number(value, n) && n % 0x1_0000_0000 == cluster
}

/// Whether a value is a list with the id of an endpoint in it. Only the lowest 16 bits count.
pub open spec fn lists_endpoint(value: TlvValue, endpoint: int) -> bool {
    exists|n: u64| #[trigger] lists_number(value, n) && n % 0x1_0000 == endpoint
}

/// What a device says of an attribute.
pub open spec fn says(device: Device, endpoint: u16, cluster: u32, attribute: u32) -> Option<
    TlvValue,
> {
    device(AttributePath { endpoint, cluster, attribute })
}

/// Whether an answer is a text that is not empty.
pub open spec fn is_label(answer: Option<TlvValue>, label: Seq<char>) -> bool {
    answer matches Some(TlvValue::Text(s)) && s@ == label && label.len() > 0
}

/// Whether an answer holds no label.
pub open spec fn no_label(answer: Option<TlvValue>) -> bool {
    forall|label: Seq<char>| !#[trigger] is_label(answer, label)
}

/// Whether this is the label of an endpoint: the bridge comes first with its own, then the node.
pub open spec fn is_label_on(device: Device, id: u16, label: Option<Seq<char>>) -> bool {
    let bridged = says(device, id, 0x39, 5);
    let basic = says(device, id, 0x28, 5);
    match label {
        Some(label) => is_label(bridged, label) || (no_label(bridged) && is_label(basic, label)),
        None => no_label(bridged) && no_label(basic),
    }
}

/// Whether a value is the first in a structure that has this tag.
pub open spec fn is_member(field: TlvField, tag: u8, value: TlvValue) -> bool {
    field.value matches TlvValue::List(members) && exists|j: int|
        0 <= j < members@.len() && (#[trigger] members@[j]).tag == tag && members@[j].value == value
            && forall|l: int| 0 <= l < j ==> (#[trigger] members@[l]).tag != tag
}

/// Whether an action is the one that a structure describes: its id is the number with the tag 0, of
/// which only the lowest 16 bits count, its name the text with the tag 1.
pub open spec fn describes(field: TlvField, action: ActionView) -> bool {
    &&& match action.action_id {
        Some(id) => exists|n: u64|
            #[trigger] is_member(field, 0, TlvValue::Int(n)) && n % 0x1_0000 == id,
        None => forall|n: u64| !#[trigger] is_member(field, 0, TlvValue::Int(n)),
    }
    &&& match action.name {
        Some(name) => exists|s: String|
            #[trigger] is_member(field, 1, TlvValue::Text(s)) && s@ == name,
        None => forall|s: String| !#[trigger] is_member(field, 1, TlvValue::Text(s)),
    }
}

/// Whether these are the actions in a list, in its order.
pub open spec fn lists_actions(value: TlvValue, actions: Seq<ActionView>) -> bool {
    match value {
        TlvValue::List(fields) => actions.len() == fields@.len() && forall|i: int|
            0 <= i < actions.len() ==> describes(fields@[i], #[trigger] actions[i]),
        _ => actions.len() == 0,
    }
}

/// Whether a text shows a device type: its name, or its id in hexadecimal where it has no name.
pub open spec fn shows_type(shown: Seq<char>, id: int) -> bool {
    match trusted::device_type_name(id as u32) {
        Some(name) => shown == name,
        None => shown == "0x"@ + number::hex_text(id as nat),
    }
}

/// Whether a structure has a number with the tag 0.
pub open spec fn has_number(field: TlvField) -> bool {
    exists|n: u64| #[trigger] is_member(field, 0, TlvValue::Int(n))
}

/// Whether a text shows the device type that a structure describes: its id is the number with the
/// tag 0, of which only the lowest 32 bits count.
pub open spec fn shows_type_in(shown: Seq<char>, field: TlvField) -> bool {
    exists|n: u64| #[trigger]
        is_member(field, 0, TlvValue::Int(n)) && shows_type(shown, n as int % 0x1_0000_0000)
}

/// Whether these are the device types in a list: each of them is shown, and nothing else; in the
/// order of the list, where all of it are device types.
pub open spec fn lists_types(value: TlvValue, types: Seq<Seq<char>>) -> bool {
    match value {
        TlvValue::List(fields) => {
            &&& types.len() <= fields@.len()
            &&& forall|k: int|
                0 <= k < types.len() ==> exists|i: int|
                    0 <= i < fields@.len() && shows_type_in(#[trigger] types[k], #[trigger] fields@[i])
            &&& forall|i: int|
                0 <= i < fields@.len() && has_number(#[trigger] fields@[i]) ==> exists|k: int|
                    0 <= k < types.len() && shows_type_in(#[trigger] types[k], fields@[i])
            &&& (forall|i: int| 0 <= i < fields@.len() ==> has_number(#[trigger] fields@[i])) ==> (
            types.len() == fields@.len() && forall|i: int|
                0 <= i < types.len() ==> shows_type_in(#[trigger] types[i], fields@[i]))
        },
        _ => types.len() == 0,
    }
}

proof fn lemma_numbers_in(fields: Seq<TlvField>, n: u64)
    ensures
        endpoints::numbers_in(fields).contains(n) <==> exists|i: int|
            0 <= i < fields.len() && (#[trigger] fields[i]).value == TlvValue::Int(n),
    decreases fields.len(),
{
    let all = endpoints::numbers_in(fields);
    if fields.len() > 0 {
        let front = fields.drop_last();
        let before = endpoints::numbers_in(front);
        lemma_numbers_in(front, n);
        if all.contains(n) {
            let k = choose|k: int| 0 <= k < all.len() && all[k] == n;
            if k < before.len() {
                assert(before[k] == n);
                let i = choose|i: int|
                    0 <= i < front.len() && (#[trigger] front[i]).value == TlvValue::Int(n);
                assert(fields[i].value == TlvValue::Int(n));
            } else {
                assert(fields[fields.len() - 1].value == TlvValue::Int(n));
            }
        }
        if exists|i: int| 0 <= i < fields.len() && (#[trigger] fields[i]).value == TlvValue::Int(
            n,
        ) {
            let i = choose|i: int|
                0 <= i < fields.len() && (#[trigger] fields[i]).value == TlvValue::Int(n);
            if i < front.len() {
                assert(front[i].value == TlvValue::Int(n));
                let k = choose|k: int| 0 <= k < before.len() && before[k] == n;
                assert(all[k] == n);
            } else {
                assert(all[before.len() as int] == n);
            }
        }
    }
}

proof fn lemma_numbers_of(value: TlvValue)
    ensures
        forall|n: u64|
            endpoints::numbers_of(value).contains(n) <==> #[trigger] lists_number(value, n),
{
    assert forall|n: u64|
        endpoints::numbers_of(value).contains(n) <==> #[trigger] lists_number(value, n) by {
        if let TlvValue::List(fields) = value {
            lemma_numbers_in(fields@, n);
        }
    }
}

proof fn lemma_clusters_of(value: TlvValue, cluster: u32)
    ensures
        endpoints::clusters_of(value).contains(cluster) <==> lists_cluster(value, cluster as int),
{
    lemma_numbers_of(value);
    let numbers = endpoints::numbers_of(value);
    let clusters = endpoints::clusters_of(value);
    if clusters.contains(cluster) {
        let k = choose|k: int| 0 <= k < clusters.len() && clusters[k] == cluster;
        assert(numbers.contains(numbers[k]));
        assert(lists_number(value, numbers[k]));
    }
    if lists_cluster(value, cluster as int) {
        let n = choose|n: u64|
            #[trigger] lists_number(value, n) && n % 0x1_0000_0000 == cluster as int;
        let k = choose|k: int| 0 <= k < numbers.len() && numbers[k] == n;
        assert(clusters[k] == cluster);
    }
}

proof fn lemma_label_on(device: Device, id: u16)
    ensures
        is_label_on(device, id, label_on(device, id)),
{
    let bridged = says(device, id, 0x39, 5);
    let basic = says(device, id, 0x28, 5);
    lemma_label_in(bridged);
    lemma_label_in(basic);
}

proof fn lemma_label_in(answer: Option<TlvValue>)
    ensures
        match endpoints::label_in(answer) {
            Some(label) => is_label(answer, label),
            None => no_label(answer),
        },
{
}

proof fn lemma_member(field: TlvField, tag: u8, value: TlvValue)
    ensures
        endpoints::member(field, tag) == Some(value) <==> is_member(field, tag, value),
{
    if let TlvValue::List(members) = field.value {
        let p = |f: TlvField| f.tag == tag;
        lists::lemma_place(members@, p);
        let k = lists::place(members@, p);
        if endpoints::member(field, tag) == Some(value) {
            assert(members@[k].tag == tag);
        }
        if is_member(field, tag, value) {
            let j = choose|j: int|
                0 <= j < members@.len() && (#[trigger] members@[j]).tag == tag && members@[j].value
                    == value && forall|l: int| 0 <= l < j ==> (#[trigger] members@[l]).tag != tag;
            lists::lemma_place_is(members@, p, j);
        }
    }
}

proof fn lemma_describes(field: TlvField)
    ensures
        describes(field, endpoints::action_in(field)),
{
    assert forall|n: u64| #[trigger]
        is_member(field, 0, TlvValue::Int(n)) <==> endpoints::number_member(field, 0) == Some(
            n,
        ) by {
        lemma_member(field, 0, TlvValue::Int(n));
    }
    match endpoints::number_member(field, 0) {
        Some(n) => {
            assert(is_member(field, 0, TlvValue::Int(n)));
        },
        None => {},
    }
    assert forall|s: String| #[trigger] is_member(field, 1, TlvValue::Text(s)) implies
        endpoints::text_member(field, 1) == Some(s@) by {
        lemma_member(field, 1, TlvValue::Text(s));
    }
    match endpoints::member(field, 1) {
        Some(TlvValue::Text(s)) => {
            lemma_member(field, 1, TlvValue::Text(s));
            assert(is_member(field, 1, TlvValue::Text(s)));
        },
        _ => {},
    }
}

proof fn lemma_actions_of(value: TlvValue)
    ensures
        lists_actions(value, endpoints::actions_of(value)),
{
    if let TlvValue::List(fields) = value {
        assert forall|i: int| 0 <= i < fields@.len() implies describes(
            fields@[i],
            #[trigger] endpoints::actions_of(value)[i],
        ) by {
            lemma_describes(fields@[i]);
        }
    }
}

proof fn lemma_type_in(field: TlvField)
    ensures
        match endpoints::number_member(field, 0) {
            Some(n) => {
                let id = (n % 0x1_0000_0000) as u32;
                has_number(field) && shows_type_in(
                    utils::device_type_text(id, trusted::device_type_name(id)),
                    field,
                )
            },
            None => !has_number(field),
        },
{
    match endpoints::number_member(field, 0) {
        Some(n) => {
            lemma_member(field, 0, TlvValue::Int(n));
            assert(is_member(field, 0, TlvValue::Int(n)));
        },
        None => {
            assert forall|n: u64| !#[trigger] is_member(field, 0, TlvValue::Int(n)) by {
                lemma_member(field, 0, TlvValue::Int(n));
            }
        },
    }
}

proof fn lemma_types_in(fields: Seq<TlvField>)
    ensures
        ({
            let types = endpoints::types_in(fields);
            &&& types.len() <= fields.len()
            &&& forall|k: int|
                0 <= k < types.len() ==> exists|i: int|
                    0 <= i < fields.len() && shows_type_in(#[trigger] types[k], #[trigger] fields[i])
            &&& forall|i: int|
                0 <= i < fields.len() && has_number(#[trigger] fields[i]) ==> exists|k: int|
                    0 <= k < types.len() && shows_type_in(#[trigger] types[k], fields[i])
            &&& (forall|i: int| 0 <= i < fields.len() ==> has_number(#[trigger] fields[i])) ==> (
            types.len() == fields.len() && forall|i: int|
                0 <= i < types.len() ==> shows_type_in(#[trigger] types[i], fields[i]))
        }),
    decreases fields.len(),
{
    let types = endpoints::types_in(fields);
    if fields.len() > 0 {
        let front = fields.drop_last();
        let before = endpoints::types_in(front);
        let n = before.len() as int;
        let last = fields.len() - 1;
        lemma_types_in(front);
        lemma_type_in(fields[last]);
        assert forall|k: int| 0 <= k < types.len() implies exists|i: int|
            0 <= i < fields.len() && shows_type_in(#[trigger] types[k], #[trigger] fields[i]) by {
            if k < n {
                assert(types[k] == before[k]);
                let i = choose|i: int|
                    0 <= i < front.len() && shows_type_in(#[trigger] before[k], #[trigger] front[i]);
                assert(shows_type_in(types[k], fields[i]));
            } else {
                assert(shows_type_in(types[k], fields[last]));
            }
        }
        assert forall|i: int| 0 <= i < fields.len() && has_number(
            #[trigger] fields[i],
        ) implies exists|k: int|
            0 <= k < types.len() && shows_type_in(#[trigger] types[k], fields[i]) by {
            if i < last {
                assert(has_number(front[i]));
                let k = choose|k: int|
                    0 <= k < before.len() && shows_type_in(#[trigger] before[k], front[i]);
                assert(shows_type_in(types[k], fields[i]));
            } else {
                assert(shows_type_in(types[n], fields[i]));
            }
        }
        if forall|i: int| 0 <= i < fields.len() ==> has_number(#[trigger] fields[i]) {
            assert forall|i: int| 0 <= i < front.len() implies has_number(#[trigger] front[i]) by {
                assert(has_number(fields[i]));
            }
            assert(has_number(fields[last]));
            assert forall|i: int| 0 <= i < types.len() implies shows_type_in(
                #[trigger] types[i],
                fields[i],
            ) by {
                if i < n {
                    assert(shows_type_in(before[i], front[i]));
                }
            }
        }
    }
}

/// Whether what is shown of an endpoint is what the device says of it.
pub open spec fn is_as_said(device: Device, e: EndpointSummaryView) -> bool {
    &&& says(device, e.id, 0x1D, 1) matches Some(server) && {
        &&& e.has_on_off <==> lists_cluster(server, 0x06)
        &&& if lists_cluster(server, 0x25) {
            says(device, e.id, 0x25, 0) matches Some(list) && lists_actions(list, e.actions)
        } else {
            e.actions.len() == 0
        }
    }
    &&& says(device, e.id, 0x1D, 0) matches Some(list) && lists_types(list, e.device_types)
    &&& is_label_on(device, e.id, e.label)
}

/// Whether a device says enough of an endpoint to show it.
pub open spec fn is_readable(device: Device, id: u16) -> bool {
    &&& says(device, id, 0x1D, 0) is Some
    &&& says(device, id, 0x1D, 1) matches Some(server) && (lists_cluster(server, 0x25) ==> says(
        device,
        id,
        0x25,
        0,
    ) is Some)
}

proof fn lemma_endpoint_on(device: Device, id: u16)
    ensures
        endpoint_on(device, id) is Some <==> is_readable(device, id),
        endpoint_on(device, id) matches Some(e) ==> e.id == id && is_as_said(device, e),
{
    if let Some(server) = says(device, id, 0x1D, 1) {
        lemma_clusters_of(server, 0x06);
        lemma_clusters_of(server, 0x25);
    }
    if let Some(list) = says(device, id, 0x25, 0) {
        lemma_actions_of(list);
    }
    if let Some(TlvValue::List(fields)) = says(device, id, 0x1D, 0) {
        lemma_types_in(fields@);
    }
    lemma_label_on(device, id);
}

proof fn lemma_endpoints_on(device: Device, ids: Seq<u16>)
    requires
        ids.no_duplicates(),
    ensures
        ({
            let all = endpoints_on(device, ids);
            &&& forall|k: int|
                0 <= k < all.len() ==> ids.contains((#[trigger] all[k]).id) && is_as_said(
                    device,
                    all[k],
                )
            &&& forall|id: u16|
                ids.contains(id) && #[trigger] is_readable(device, id) ==> exists|k: int|
                    0 <= k < all.len() && (#[trigger] all[k]).id == id
            &&& forall|j: int, k: int|
                0 <= j < k < all.len() ==> (#[trigger] all[j]).id != (#[trigger] all[k]).id
        }),
    decreases ids.len(),
{
    let all = endpoints_on(device, ids);
    if ids.len() > 0 {
        let first = ids.first();
        let rest = ids.drop_first();
        let head = as_seq(endpoint_on(device, first));
        let tail = endpoints_on(device, rest);
        assert forall|i: int, j: int| 0 <= i < j < rest.len() implies rest[i] != rest[j] by {
            assert(ids[i + 1] != ids[j + 1]);
        }
        lemma_endpoints_on(device, rest);
        lemma_endpoint_on(device, first);
        assert(all == head + tail);
        assert forall|k: int| 0 <= k < all.len() implies ids.contains((#[trigger] all[k]).id)
            && is_as_said(device, all[k]) by {
            if k < head.len() {
                assert(ids[0] == all[k].id);
            } else {
                assert(all[k] == tail[k - head.len()]);
                let i = choose|i: int| 0 <= i < rest.len() && rest[i] == all[k].id;
                assert(ids[i + 1] == all[k].id);
            }
        }
        assert forall|id: u16| ids.contains(id) && #[trigger] is_readable(device, id) implies exists|
            k: int,
        |
            0 <= k < all.len() && (#[trigger] all[k]).id == id by {
            if id == first {
                assert(all[0].id == id);
            } else {
                let i = choose|i: int| 0 <= i < ids.len() && ids[i] == id;
                assert(rest[i - 1] == id);
                let k = choose|k: int| 0 <= k < tail.len() && (#[trigger] tail[k]).id == id;
                assert(all[k + head.len()].id == id);
            }
        }
        assert forall|j: int, k: int| 0 <= j < k < all.len() implies (#[trigger] all[j]).id != (
        #[trigger] all[k]).id by {
            if j < head.len() {
                assert(all[k] == tail[k - head.len()]);
                assert(rest.contains(tail[k - head.len()].id));
                let i = choose|i: int| 0 <= i < rest.len() && rest[i] == all[k].id;
                assert(ids[0] != ids[i + 1]);
            } else {
                assert(all[j] == tail[j - head.len()]);
                assert(all[k] == tail[k - head.len()]);
            }
        }
    }
}

/// Whether a device has an endpoint: the root endpoint, or one in its parts list.
pub open spec fn has_endpoint(device: Device, id: u16) -> bool {
    id == 0 || (says(device, 0, 0x1D, 3) matches Some(parts) && lists_endpoint(parts, id as int))
}

proof fn lemma_added_ids(ids: Seq<u16>, parts: Seq<u64>, id: u16)
    ensures
        endpoints::with_ids(ids, parts).contains(id) ==> ids.contains(id) || exists|n: u64| #[trigger]
            parts.contains(n) && n % 0x1_0000 == id,
    decreases parts.len(),
{
    let r = endpoints::with_ids(ids, parts);
    if parts.len() > 0 && r.contains(id) {
        let front = parts.drop_last();
        let before = endpoints::with_ids(ids, front);
        lemma_added_ids(ids, front, id);
        if before.contains(id) {
            if !ids.contains(id) {
                let n = choose|n: u64| #[trigger] front.contains(n) && n % 0x1_0000 == id;
                let k = choose|k: int| 0 <= k < front.len() && front[k] == n;
                assert(parts[k] == n);
                assert(parts.contains(n));
            }
        } else {
            let k = choose|k: int| 0 <= k < r.len() && r[k] == id;
            if k < before.len() {
                assert(before[k] == id);
            }
            assert(parts[parts.len() - 1] == parts.last());
            assert(parts.contains(parts.last()));
        }
    }
}

proof fn lemma_has_endpoint(device: Device, id: u16)
    ensures
        endpoints::endpoint_ids(says(device, 0, 0x1D, 3)).contains(id) <==> has_endpoint(device, id),
{
    let parts = says(device, 0, 0x1D, 3);
    let ids = endpoints::endpoint_ids(parts);
    endpoints::endpoint_ids_are_distinct(parts);
    if let Some(value) = parts {
        lemma_numbers_of(value);
        let numbers = endpoints::numbers_of(value);
        lemma_added_ids(seq![0u16], numbers, id);
        if ids.contains(id) && id != 0 {
            assert(!seq![0u16].contains(id));
            let n = choose|n: u64| #[trigger] numbers.contains(n) && n % 0x1_0000 == id;
            assert(lists_number(value, n));
        }
        if lists_endpoint(value, id as int) {
            let n = choose|n: u64| #[trigger] lists_number(value, n) && n % 0x1_0000 == id as int;
            assert(numbers.contains(n));
            assert(ids.contains((n % 0x1_0000) as u16));
        }
    }
    if id == 0 {
        assert(ids[0] == id);
    }
}

/// Reading a device gives every endpoint that the device has and says enough of, each once, and no
/// other. Each is shown as the device says: it can be switched exactly when the On/Off cluster is
/// somewhere in its server list, it has the device types of its device type list, the actions of its
/// action list exactly when the Actions cluster is somewhere in its server list, and its label.
pub proof fn endpoints_are_as_the_device_says(device: Device)
    ensures
        ({
            let all = completed(endpoints::load_from(ProgressView::Parts), device).endpoints;
            &&& forall|k: int|
                0 <= k < all.len() ==> has_endpoint(device, (#[trigger] all[k]).id) && is_as_said(
                    device,
                    all[k],
                )
            &&& forall|id: u16|
                has_endpoint(device, id) && #[trigger] is_readable(device, id) ==> exists|k: int|
                    0 <= k < all.len() && (#[trigger] all[k]).id == id
            &&& forall|j: int, k: int|
                0 <= j < k < all.len() ==> (#[trigger] all[j]).id != (#[trigger] all[k]).id
        }),
{
    let parts = says(device, 0, 0x1D, 3);
    let ids = endpoints::endpoint_ids(parts);
    let all = completed(endpoints::load_from(ProgressView::Parts), device).endpoints;
    load_reads_all_endpoints(device);
    endpoints::endpoint_ids_are_distinct(parts);
    lemma_endpoints_on(device, ids);
    assert(all == endpoints_on(device, ids));
    assert forall|k: int| 0 <= k < all.len() implies has_endpoint(device, (#[trigger] all[k]).id)
        && is_as_said(device, all[k]) by {
        lemma_has_endpoint(device, all[k].id);
    }
    assert forall|id: u16| has_endpoint(device, id) && #[trigger] is_readable(
        device,
        id,
    ) implies exists|k: int| 0 <= k < all.len() && (#[trigger] all[k]).id == id by {
        lemma_has_endpoint(device, id);
    }
}

/// The label that is read of a device itself is that of its root endpoint.
pub proof fn own_label_is_as_the_device_says(device: Device)
    ensures
        is_label_on(
            device,
            0,
            completed(endpoints::load_from(ProgressView::OwnBridgedLabel), device).own_label,
        ),
{
    load_reads_the_label(device);
    lemma_label_on(device, 0);
}

/// Where the numbers in a parts list are different endpoints, the endpoints are read in the order of
/// the list, behind the root endpoint.
pub proof fn endpoints_are_read_in_order(value: TlvValue)
    requires
        value matches TlvValue::List(fields) && (forall|i: int|
            0 <= i < fields@.len() ==> (#[trigger] fields@[i]).value is Int) && (forall|i: int|
            0 <= i < fields@.len() ==> (#[trigger] fields@[i]).value->Int_0 % 0x1_0000 != 0) && (
        forall|i: int, j: int|
            0 <= i < j < fields@.len() ==> (#[trigger] fields@[i]).value->Int_0 % 0x1_0000 != (
            #[trigger] fields@[j]).value->Int_0 % 0x1_0000),
    ensures
        ({
            let fields = value->List_0@;
            let ids = endpoints::endpoint_ids(Some(value));
            &&& ids.len() == fields.len() + 1
            &&& ids[0] == 0
            &&& forall|i: int|
                0 <= i < fields.len() ==> ids[i + 1] == (#[trigger] fields[i]).value->Int_0
                    % 0x1_0000
        }),
{
    lemma_read_in_order(value->List_0@);
}

proof fn lemma_read_in_order(fields: Seq<TlvField>)
    requires
        forall|i: int| 0 <= i < fields.len() ==> (#[trigger] fields[i]).value is Int,
        forall|i: int|
            0 <= i < fields.len() ==> (#[trigger] fields[i]).value->Int_0 % 0x1_0000 != 0,
        forall|i: int, j: int|
            0 <= i < j < fields.len() ==> (#[trigger] fields[i]).value->Int_0 % 0x1_0000 != (
            #[trigger] fields[j]).value->Int_0 % 0x1_0000,
    ensures
        endpoints::numbers_in(fields).len() == fields.len(),
        ({
            let ids = endpoints::with_ids(seq![0u16], endpoints::numbers_in(fields));
            &&& ids.len() == fields.len() + 1
            &&& ids[0] == 0
            &&& forall|i: int|
                0 <= i < fields.len() ==> ids[i + 1] == (#[trigger] fields[i]).value->Int_0
                    % 0x1_0000
        }),
    decreases fields.len(),
{
    if fields.len() > 0 {
        let front = fields.drop_last();
        lemma_read_in_order(front);
        let numbers = endpoints::numbers_in(front);
        let before = endpoints::with_ids(seq![0u16], numbers);
        let last = fields[fields.len() - 1].value->Int_0;
        assert(endpoints::numbers_in(fields).drop_last() =~= numbers);
        let id = (last % 0x1_0000) as u16;
        if before.contains(id) {
            let k = choose|k: int| 0 <= k < before.len() && before[k] == id;
            if k > 0 {
                assert(front[k - 1] == fields[k - 1]);
                assert(before[k - 1 + 1] == front[k - 1].value->Int_0 % 0x1_0000);
            }
        }
        let ids = endpoints::with_ids(seq![0u16], endpoints::numbers_in(fields));
        assert(ids == before.push(id));
        assert forall|i: int| 0 <= i < fields.len() implies ids[i + 1] == (
        #[trigger] fields[i]).value->Int_0 % 0x1_0000 by {
            if i < front.len() {
                assert(front[i] == fields[i]);
                assert(before[i + 1] == front[i].value->Int_0 % 0x1_0000);
            }
        }
    }
}

// Calls

/// Whether a load that asks a device leads to another one with the answer of the device.
pub open spec fn leads_to(device: Device, a: EndpointLoad, b: EndpointLoad) -> bool {
    exists|path: AttributePath|
        call_ensures(EndpointLoad::request, (&a,), Some(path)) && call_ensures(
            EndpointLoad::answer,
            (a, #[trigger] device(path)),
            b,
        )
}

/// Whether these are the loads of a device, from the first to the last, which asks for nothing more.
pub open spec fn are_loads(device: Device, loads: Seq<EndpointLoad>) -> bool {
    &&& loads.len() > 0
    &&& forall|i: int|
        0 < i < loads.len() ==> leads_to(device, loads[i - 1], #[trigger] loads[i])
    &&& call_ensures(EndpointLoad::request, (&loads.last(),), None)
}

proof fn lemma_loads(device: Device, loads: Seq<EndpointLoad>, i: int)
    requires
        are_loads(device, loads),
        loads[0].deep_view().wf(),
        0 <= i < loads.len(),
    ensures
        loads[i].deep_view().wf(),
        completed(loads[i].deep_view(), device) == completed(loads[0].deep_view(), device),
    decreases i,
{
    if i > 0 {
        lemma_loads(device, loads, i - 1);
        let a = loads[i - 1];
        let b = loads[i];
        assert(leads_to(device, a, b));
        let path = choose|path: AttributePath|
            call_ensures(EndpointLoad::request, (&a,), Some(path)) && call_ensures(
                EndpointLoad::answer,
                (a, #[trigger] device(path)),
                b,
            );
        assert(a.deep_view().request() == Some(path));
        assert(b.deep_view() == a.deep_view().answered(device(path)));
    }
}

/// Asking a device until there is nothing more to ask gives its endpoints as the device says: each
/// once, with a switch exactly where the On/Off cluster is somewhere in the server list.
pub proof fn reading_a_device_gives_its_endpoints(device: Device, loads: Seq<EndpointLoad>)
    requires
        are_loads(device, loads),
        call_ensures(EndpointLoad::start, (), loads[0]) || call_ensures(
            EndpointLoad::start_with_label,
            (),
            loads[0],
        ),
    ensures
        ({
            let all = loads.last().deep_view().endpoints;
            &&& forall|k: int|
                0 <= k < all.len() ==> has_endpoint(device, (#[trigger] all[k]).id) && is_as_said(
                    device,
                    all[k],
                )
            &&& forall|id: u16|
                has_endpoint(device, id) && #[trigger] is_readable(device, id) ==> exists|k: int|
                    0 <= k < all.len() && (#[trigger] all[k]).id == id
        }),
        call_ensures(EndpointLoad::start_with_label, (), loads[0]) ==> is_label_on(
            device,
            0,
            loads.last().deep_view().own_label,
        ),
{
    let n = loads.len() - 1;
    lemma_loads(device, loads, n);
    assert(loads.last() == loads[n]);
    assert(completed(loads[n].deep_view(), device) == loads[n].deep_view());
    load_reads_the_label(device);
    endpoints_are_as_the_device_says(device);
    own_label_is_as_the_device_says(device);
}

/// A load begins with the parts list of the root endpoint or, where the label of the device is
/// wanted, with that label.
pub proof fn first_question_is_for_the_parts(
    load: EndpointLoad,
    path: Option<AttributePath>,
    with_label: EndpointLoad,
    label_path: Option<AttributePath>,
)
    requires
        call_ensures(EndpointLoad::start, (), load),
        call_ensures(EndpointLoad::request, (&load,), path),
        call_ensures(EndpointLoad::start_with_label, (), with_label),
        call_ensures(EndpointLoad::request, (&with_label,), label_path),
    ensures
        path == Some(AttributePath { endpoint: 0, cluster: 29, attribute: 3 }),
        label_path == Some(AttributePath { endpoint: 0, cluster: 57, attribute: 5 }),
{
}

} // verus!
