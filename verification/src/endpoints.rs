//! Reading the endpoints of a device, attribute by attribute.

use crate::lists;
use crate::matter::{
    AttributePath, ATTRIBUTE_ACTION_LIST, ATTRIBUTE_DEVICE_TYPE_LIST, ATTRIBUTE_NODE_LABEL,
    ATTRIBUTE_PARTS_LIST, ATTRIBUTE_SERVER_LIST, CLUSTER_ACTIONS, CLUSTER_BASIC_INFORMATION,
    CLUSTER_BRIDGED_DEVICE_BASIC_INFORMATION, CLUSTER_DESCRIPTOR, CLUSTER_ON_OFF,
};
use crate::text::chars_of;
use crate::trusted;
use crate::trusted::get_device_type_name;
use crate::types::{Action, ActionView, EndpointSummary, EndpointSummaryView};
use crate::utils;
use crate::utils::device_type_label;
use vstd::prelude::*;

verus! {

/// A value that a device has sent.
#[derive(Debug)]
pub enum TlvValue {
    Int(u64),
    Bool(bool),
    Text(String),
    Octets(Vec<u8>),
    List(Vec<TlvField>),
    Nil,
    Invalid,
}

/// A value in a list or structure, with its tag.
#[derive(Debug)]
pub struct TlvField {
    pub tag: u8,
    pub value: TlvValue,
}

// Lists of numbers

/// The numbers among fields, in their order.
pub open spec fn numbers_in(fields: Seq<TlvField>) -> Seq<u64>
    decreases fields.len(),
{
    if fields.len() == 0 {
        seq![]
    } else {
        let before = numbers_in(fields.drop_last());
        match fields.last().value {
            TlvValue::Int(n) => before.push(n),
            _ => before,
        }
    }
}

/// The numbers in a list; none in any other value.
pub open spec fn numbers_of(value: TlvValue) -> Seq<u64> {
    match value {
        TlvValue::List(fields) => numbers_in(fields@),
        _ => seq![],
    }
}

fn numbers(value: &TlvValue) -> (r: Vec<u64>)
    ensures
        r@ == numbers_of(*value),
{
    let mut r: Vec<u64> = Vec::new();
    if let TlvValue::List(fields) = value {
        let mut i: usize = 0;
        assert(fields@.take(0) =~= seq![]);
        while i < fields.len()
            invariant
                i <= fields.len(),
                r@ == numbers_in(fields@.take(i as int)),
            decreases fields.len() - i,
        {
            assert(fields@.take(i + 1).drop_last() =~= fields@.take(i as int));
            if let TlvValue::Int(n) = &fields[i].value {
                r.push(*n);
            }
            i += 1;
        }
        assert(fields@.take(i as int) =~= fields@);
    }
    r
}

/// The clusters that a server list names.
pub open spec fn clusters_of(value: TlvValue) -> Seq<u32> {
    numbers_of(value).map_values(|n: u64| (n % 0x1_0000_0000) as u32)
}

/// Reads a server list.
pub fn decode_server_list(value: &TlvValue) -> (r: Vec<u32>)
    ensures
        r@ == clusters_of(*value),
{
    let all = numbers(value);
    let mut r: Vec<u32> = Vec::new();
    let mut i: usize = 0;
    while i < all.len()
        invariant
            i <= all.len(),
            all@ == numbers_of(*value),
            r@ == clusters_of(*value).take(i as int),
        decreases all.len() - i,
    {
        r.push((all[i] % 0x1_0000_0000) as u32);
        assert(r@ =~= clusters_of(*value).take(i + 1));
        i += 1;
    }
    assert(r@ =~= clusters_of(*value));
    r
}

/// Ids with one more, unless it is there already.
pub open spec fn with_id(ids: Seq<u16>, id: u16) -> Seq<u16> {
    if ids.contains(id) {
        ids
    } else {
        ids.push(id)
    }
}

/// Ids with those of further endpoints.
pub open spec fn with_ids(ids: Seq<u16>, parts: Seq<u64>) -> Seq<u16>
    decreases parts.len(),
{
    if parts.len() == 0 {
        ids
    } else {
        with_id(with_ids(ids, parts.drop_last()), (parts.last() % 0x1_0000) as u16)
    }
}

/// The endpoints of a device: the root endpoint, and those that the parts list names, each once.
pub open spec fn endpoint_ids(parts: Option<TlvValue>) -> Seq<u16> {
    match parts {
        Some(value) => with_ids(seq![0u16], numbers_of(value)),
        None => seq![0u16],
    }
}

fn has_id(ids: &Vec<u16>, id: u16) -> (r: bool)
    ensures
        r == ids@.contains(id),
{
    let mut i: usize = 0;
    while i < ids.len()
        invariant
            i <= ids.len(),
            forall|j: int| 0 <= j < i ==> ids@[j] != id,
        decreases ids.len() - i,
    {
        if ids[i] == id {
            assert(ids@[i as int] == id);
            return true;
        }
        i += 1;
    }
    false
}

/// Collects the ids of the endpoints of a device.
pub fn collect_endpoint_ids(parts: Option<&TlvValue>) -> (r: Vec<u16>)
    ensures
        r@ == endpoint_ids(
            match parts {
                Some(value) => Some(*value),
                None => None,
            },
        ),
{
    let mut ids: Vec<u16> = Vec::new();
    ids.push(0);
    assert(ids@ =~= seq![0u16]);
    if let Some(value) = parts {
        let all = numbers(value);
        let mut i: usize = 0;
        assert(all@.take(0) =~= seq![]);
        while i < all.len()
            invariant
                i <= all.len(),
                ids@ == with_ids(seq![0u16], all@.take(i as int)),
            decreases all.len() - i,
        {
            assert(all@.take(i + 1).drop_last() =~= all@.take(i as int));
            let id: u16 = (all[i] % 0x1_0000) as u16;
            if !has_id(&ids, id) {
                ids.push(id);
            }
            i += 1;
        }
        assert(all@.take(i as int) =~= all@);
    }
    ids
}

proof fn lemma_with_ids(ids: Seq<u16>, parts: Seq<u64>)
    requires
        ids.no_duplicates(),
        ids.len() > 0,
    ensures
        with_ids(ids, parts).no_duplicates(),
        with_ids(ids, parts).len() >= ids.len(),
        with_ids(ids, parts)[0] == ids[0],
        forall|n: u64| parts.contains(n) ==> with_ids(ids, parts).contains(
            #[trigger] ((n % 0x1_0000) as u16),
        ),
    decreases parts.len(),
{
    if parts.len() > 0 {
        let front = parts.drop_last();
        lemma_with_ids(ids, front);
        let before = with_ids(ids, front);
        let id = (parts.last() % 0x1_0000) as u16;
        let r = with_ids(ids, parts);
        assert forall|n: u64| parts.contains(n) implies r.contains(
            #[trigger] ((n % 0x1_0000) as u16),
        ) by {
            let k = choose|k: int| 0 <= k < parts.len() && parts[k] == n;
            let m = (n % 0x1_0000) as u16;
            if k < front.len() {
                assert(front[k] == n);
                assert(front.contains(n));
                assert(before.contains(m));
                let j = choose|j: int| 0 <= j < before.len() && before[j] == m;
                assert(r[j] == m);
            } else if before.contains(id) {
                assert(r == before);
            } else {
                assert(r[before.len() as int] == id);
            }
        }
    }
}

/// No endpoint is read twice, the root endpoint is read first, and every endpoint that the parts
/// list names is read.
pub proof fn endpoint_ids_are_distinct(parts: Option<TlvValue>)
    ensures
        endpoint_ids(parts).no_duplicates(),
        endpoint_ids(parts).len() > 0,
        endpoint_ids(parts)[0] == 0,
        parts matches Some(value) ==> forall|n: u64|
            numbers_of(value).contains(n) ==> endpoint_ids(parts).contains(
                #[trigger] ((n % 0x1_0000) as u16),
            ),
{
    if let Some(value) = parts {
        lemma_with_ids(seq![0u16], numbers_of(value));
    }
}

// Structures

/// The value with a tag in a structure: the first, if there are several.
pub open spec fn member(field: TlvField, tag: u8) -> Option<TlvValue> {
    match field.value {
        TlvValue::List(fields) => {
            let k = lists::place(fields@, |f: TlvField| f.tag == tag);
            if k < fields@.len() {
                Some(fields@[k].value)
            } else {
                None
            }
        },
        _ => None,
    }
}

/// The number with a tag in a structure.
pub open spec fn number_member(field: TlvField, tag: u8) -> Option<u64> {
    match member(field, tag) {
        Some(TlvValue::Int(n)) => Some(n),
        _ => None,
    }
}

/// The text with a tag in a structure.
pub open spec fn text_member(field: TlvField, tag: u8) -> Option<Seq<char>> {
    match member(field, tag) {
        Some(TlvValue::Text(s)) => Some(s@),
        _ => None,
    }
}

fn find_member(field: &TlvField, tag: u8) -> (r: Option<&TlvValue>)
    ensures
        match r {
            Some(value) => member(*field, tag) == Some(*value),
            None => member(*field, tag) is None,
        },
{
    if let TlvValue::List(fields) = &field.value {
        let ghost p = |f: TlvField| f.tag == tag;
        let mut i: usize = 0;
        while i < fields.len()
            invariant
                i <= fields.len(),
                field.value == TlvValue::List(*fields),
                p == (|f: TlvField| f.tag == tag),
                forall|j: int| 0 <= j < i ==> !p(#[trigger] fields@[j]),
            decreases fields.len() - i,
        {
            if fields[i].tag == tag {
                proof {
                    lists::lemma_place_is(fields@, p, i as int);
                }
                return Some(&fields[i].value);
            }
            i += 1;
        }
        proof {
            lists::lemma_place_is(fields@, p, fields@.len() as int);
        }
    }
    None
}

fn find_number(field: &TlvField, tag: u8) -> (r: Option<u64>)
    ensures
        r == number_member(*field, tag),
{
    match find_member(field, tag) {
        Some(TlvValue::Int(n)) => Some(*n),
        _ => None,
    }
}

fn find_text(field: &TlvField, tag: u8) -> (r: Option<String>)
    ensures
        r.deep_view() == text_member(*field, tag),
{
    match find_member(field, tag) {
        Some(TlvValue::Text(s)) => Some(s.clone()),
        _ => None,
    }
}

/// How the device types among fields are shown; a field without an id is passed over.
pub open spec fn types_in(fields: Seq<TlvField>) -> Seq<Seq<char>>
    decreases fields.len(),
{
    if fields.len() == 0 {
        seq![]
    } else {
        let before = types_in(fields.drop_last());
        match number_member(fields.last(), 0) {
            Some(n) => {
                let id = (n % 0x1_0000_0000) as u32;
                before.push(utils::device_type_text(id, trusted::device_type_name(id)))
            },
            None => before,
        }
    }
}

/// How the device types in a device type list are shown.
pub open spec fn types_of(value: TlvValue) -> Seq<Seq<char>> {
    match value {
        TlvValue::List(fields) => types_in(fields@),
        _ => seq![],
    }
}

/// Reads a device type list.
pub fn decode_device_type_list(value: &TlvValue) -> (r: Vec<String>)
    ensures
        r.deep_view() == types_of(*value),
{
    let mut r: Vec<String> = Vec::new();
    assert(r.deep_view() =~= seq![]);
    if let TlvValue::List(fields) = value {
        let mut i: usize = 0;
        assert(fields@.take(0) =~= seq![]);
        while i < fields.len()
            invariant
                i <= fields.len(),
                r.deep_view() == types_in(fields@.take(i as int)),
            decreases fields.len() - i,
        {
            let ghost before = r.deep_view();
            assert(fields@.take(i + 1).drop_last() =~= fields@.take(i as int));
            if let Some(n) = find_number(&fields[i], 0) {
                let id: u32 = (n % 0x1_0000_0000) as u32;
                let label = device_type_label(id, get_device_type_name(id));
                r.push(label);
                assert(r.deep_view() =~= before.push(label@));
            }
            i += 1;
        }
        assert(fields@.take(i as int) =~= fields@);
    }
    r
}

/// The action that a structure describes.
pub open spec fn action_in(field: TlvField) -> ActionView {
    ActionView {
        action_id: match number_member(field, 0) {
            Some(n) => Some((n % 0x1_0000) as u16),
            None => None,
        },
        name: text_member(field, 1),
    }
}

/// The actions in an action list.
pub open spec fn actions_of(value: TlvValue) -> Seq<ActionView> {
    match value {
        TlvValue::List(fields) => fields@.map_values(|f: TlvField| action_in(f)),
        _ => seq![],
    }
}

/// Reads an action list.
pub fn decode_action_list(value: &TlvValue) -> (r: Vec<Action>)
    ensures
        r.deep_view() == actions_of(*value),
{
    let mut r: Vec<Action> = Vec::new();
    assert(r.deep_view() =~= seq![]);
    if let TlvValue::List(fields) = value {
        let mut i: usize = 0;
        while i < fields.len()
            invariant
                i <= fields.len(),
                *value == TlvValue::List(*fields),
                r.deep_view() == actions_of(*value).take(i as int),
            decreases fields.len() - i,
        {
            let ghost before = r.deep_view();
            let action_id = match find_number(&fields[i], 0) {
                Some(n) => Some((n % 0x1_0000) as u16),
                None => None,
            };
            let action = Action { action_id, name: find_text(&fields[i], 1) };
            r.push(action);
            assert(r.deep_view() =~= before.push(action.deep_view()));
            assert(r.deep_view() =~= actions_of(*value).take(i + 1));
            i += 1;
        }
        assert(r.deep_view() =~= actions_of(*value));
    }
    r
}

/// The label in an answer: a text that is not empty.
pub open spec fn label_in(answer: Option<TlvValue>) -> Option<Seq<char>> {
    match answer {
        Some(TlvValue::Text(s)) => if s@.len() > 0 {
            Some(s@)
        } else {
            None
        },
        _ => None,
    }
}

fn read_label(answer: &Option<TlvValue>) -> (r: Option<String>)
    ensures
        r.deep_view() == label_in(*answer),
{
    match answer {
        Some(TlvValue::Text(s)) => {
            if chars_of(s.as_str()).len() > 0 {
                Some(s.clone())
            } else {
                None
            }
        },
        _ => None,
    }
}

// Loading

/// What is read next of the endpoint at hand, with what has been read of it.
pub enum Progress {
    OwnBridgedLabel,
    OwnBasicLabel,
    Parts,
    Server,
    Types { clusters: Vec<u32> },
    BridgedLabel { clusters: Vec<u32>, types: Vec<String> },
    BasicLabel { clusters: Vec<u32>, types: Vec<String> },
    Actions { clusters: Vec<u32>, types: Vec<String>, label: Option<String> },
}

/// The contents of a [`Progress`].
#[verifier::ext_equal]
pub enum ProgressView {
    OwnBridgedLabel,
    OwnBasicLabel,
    Parts,
    Server,
    Types { clusters: Seq<u32> },
    BridgedLabel { clusters: Seq<u32>, types: Seq<Seq<char>> },
    BasicLabel { clusters: Seq<u32>, types: Seq<Seq<char>> },
    Actions { clusters: Seq<u32>, types: Seq<Seq<char>>, label: Option<Seq<char>> },
}

impl DeepView for Progress {
    type V = ProgressView;

    open spec fn deep_view(&self) -> ProgressView {
        match self {
            Progress::OwnBridgedLabel => ProgressView::OwnBridgedLabel,
            Progress::OwnBasicLabel => ProgressView::OwnBasicLabel,
            Progress::Parts => ProgressView::Parts,
            Progress::Server => ProgressView::Server,
            Progress::Types { clusters } => ProgressView::Types { clusters: clusters@ },
            Progress::BridgedLabel { clusters, types } => ProgressView::BridgedLabel {
                clusters: clusters@,
                types: types.deep_view(),
            },
            Progress::BasicLabel { clusters, types } => ProgressView::BasicLabel {
                clusters: clusters@,
                types: types.deep_view(),
            },
            Progress::Actions { clusters, types, label } => ProgressView::Actions {
                clusters: clusters@,
                types: types.deep_view(),
                label: label.deep_view(),
            },
        }
    }
}

/// The endpoints of a device while they are being read, one attribute after the other. An endpoint
/// of which something cannot be read is left out.
pub struct EndpointLoad {
    pub progress: Progress,
    pub own_label: Option<String>,
    pub ids: Vec<u16>,
    pub index: usize,
    pub endpoints: Vec<EndpointSummary>,
}

/// The contents of an [`EndpointLoad`].
#[verifier::ext_equal]
pub struct EndpointLoadView {
    pub progress: ProgressView,
    pub own_label: Option<Seq<char>>,
    pub ids: Seq<u16>,
    pub index: nat,
    pub endpoints: Seq<EndpointSummaryView>,
}

impl DeepView for EndpointLoad {
    type V = EndpointLoadView;

    open spec fn deep_view(&self) -> EndpointLoadView {
        EndpointLoadView {
            progress: self.progress.deep_view(),
            own_label: self.own_label.deep_view(),
            ids: self.ids@,
            index: self.index as nat,
            endpoints: self.endpoints.deep_view(),
        }
    }
}

/// Where a load that begins with so much progress stands.
pub open spec fn load_from(progress: ProgressView) -> EndpointLoadView {
    EndpointLoadView { progress, own_label: None, ids: seq![], index: 0, endpoints: seq![] }
}

impl EndpointLoadView {
    /// Whether the endpoint at hand is one of those that are to be read.
    pub open spec fn wf(self) -> bool {
        self.index <= self.ids.len() && match self.progress {
            ProgressView::OwnBridgedLabel => true,
            ProgressView::OwnBasicLabel => true,
            ProgressView::Parts => true,
            ProgressView::Server => true,
            _ => self.index < self.ids.len(),
        }
    }

    /// The attribute that is to be read next; none when all is done.
    pub open spec fn request(self) -> Option<AttributePath> {
        let id = self.ids[self.index as int];
        match self.progress {
            ProgressView::OwnBridgedLabel => Some(bridged_label_path(0)),
            ProgressView::OwnBasicLabel => Some(basic_label_path(0)),
            ProgressView::Parts => Some(descriptor_path(0, ATTRIBUTE_PARTS_LIST)),
            ProgressView::Server => if self.index < self.ids.len() {
                Some(descriptor_path(id, ATTRIBUTE_SERVER_LIST))
            } else {
                None
            },
            ProgressView::Types { .. } => Some(descriptor_path(id, ATTRIBUTE_DEVICE_TYPE_LIST)),
            ProgressView::BridgedLabel { .. } => Some(bridged_label_path(id)),
            ProgressView::BasicLabel { .. } => Some(basic_label_path(id)),
            ProgressView::Actions { .. } => Some(action_list_path(id)),
        }
    }

    /// The load once the endpoint at hand is done with.
    pub open spec fn passed(self) -> EndpointLoadView {
        EndpointLoadView {
            progress: ProgressView::Server,
            index: self.index + 1,
            ..self
        }
    }

    /// The load once the endpoint at hand has been read.
    pub open spec fn read(
        self,
        clusters: Seq<u32>,
        types: Seq<Seq<char>>,
        label: Option<Seq<char>>,
        actions: Seq<ActionView>,
    ) -> EndpointLoadView {
        let endpoint = summary_of(self.ids[self.index as int], clusters, types, label, actions);
        EndpointLoadView { endpoints: self.endpoints.push(endpoint), ..self }.passed()
    }

    /// The load once the label of the endpoint at hand is known.
    pub open spec fn labelled(
        self,
        clusters: Seq<u32>,
        types: Seq<Seq<char>>,
        label: Option<Seq<char>>,
    ) -> EndpointLoadView {
        if clusters.contains(CLUSTER_ACTIONS) {
            EndpointLoadView { progress: ProgressView::Actions { clusters, types, label }, ..self }
        } else {
            self.read(clusters, types, label, seq![])
        }
    }

    /// The load after the device has answered, or has failed to.
    pub open spec fn answered(self, answer: Option<TlvValue>) -> EndpointLoadView {
        match self.progress {
            ProgressView::OwnBridgedLabel => match label_in(answer) {
                Some(label) => EndpointLoadView {
                    progress: ProgressView::Parts,
                    own_label: Some(label),
                    ..self
                },
                None => EndpointLoadView { progress: ProgressView::OwnBasicLabel, ..self },
            },
            ProgressView::OwnBasicLabel => EndpointLoadView {
                progress: ProgressView::Parts,
                own_label: label_in(answer),
                ..self
            },
            ProgressView::Parts => EndpointLoadView {
                progress: ProgressView::Server,
                ids: endpoint_ids(answer),
                index: 0,
                ..self
            },
            ProgressView::Server => match answer {
                Some(value) => EndpointLoadView {
                    progress: ProgressView::Types { clusters: clusters_of(value) },
                    ..self
                },
                None => self.passed(),
            },
            ProgressView::Types { clusters } => match answer {
                Some(value) => EndpointLoadView {
                    progress: ProgressView::BridgedLabel { clusters, types: types_of(value) },
                    ..self
                },
                None => self.passed(),
            },
            ProgressView::BridgedLabel { clusters, types } => match label_in(answer) {
                Some(label) => self.labelled(clusters, types, Some(label)),
                None => EndpointLoadView {
                    progress: ProgressView::BasicLabel { clusters, types },
                    ..self
                },
            },
            ProgressView::BasicLabel { clusters, types } => self.labelled(
                clusters,
                types,
                label_in(answer),
            ),
            ProgressView::Actions { clusters, types, label } => match answer {
                Some(value) => self.read(clusters, types, label, actions_of(value)),
                None => self.passed(),
            },
        }
    }
}

/// The label of a device behind a bridge.
pub open spec fn bridged_label_path(endpoint: u16) -> AttributePath {
    AttributePath {
        endpoint,
        cluster: CLUSTER_BRIDGED_DEVICE_BASIC_INFORMATION,
        attribute: ATTRIBUTE_NODE_LABEL,
    }
}

/// The label of a node.
pub open spec fn basic_label_path(endpoint: u16) -> AttributePath {
    AttributePath {
        endpoint,
        cluster: CLUSTER_BASIC_INFORMATION,
        attribute: ATTRIBUTE_NODE_LABEL,
    }
}

/// An attribute of the descriptor of an endpoint.
pub open spec fn descriptor_path(endpoint: u16, attribute: u32) -> AttributePath {
    AttributePath { endpoint, cluster: CLUSTER_DESCRIPTOR, attribute }
}

/// The action list of an endpoint.
pub open spec fn action_list_path(endpoint: u16) -> AttributePath {
    AttributePath { endpoint, cluster: CLUSTER_ACTIONS, attribute: ATTRIBUTE_ACTION_LIST }
}

/// What is shown of an endpoint of which all this has been read.
pub open spec fn summary_of(
    id: u16,
    clusters: Seq<u32>,
    types: Seq<Seq<char>>,
    label: Option<Seq<char>>,
    actions: Seq<ActionView>,
) -> EndpointSummaryView {
    EndpointSummaryView {
        id,
        label,
        device_types: types,
        has_on_off: clusters.contains(CLUSTER_ON_OFF),
        on_off_state: None,
        actions,
    }
}

fn has_cluster(clusters: &Vec<u32>, cluster: u32) -> (r: bool)
    ensures
        r == clusters@.contains(cluster),
{
    let mut i: usize = 0;
    while i < clusters.len()
        invariant
            i <= clusters.len(),
            forall|j: int| 0 <= j < i ==> clusters@[j] != cluster,
        decreases clusters.len() - i,
    {
        if clusters[i] == cluster {
            assert(clusters@[i as int] == cluster);
            return true;
        }
        i += 1;
    }
    false
}

impl EndpointLoad {
    /// Starts to read the endpoints of a device.
    pub fn start() -> (r: EndpointLoad)
        ensures
            r.deep_view() == load_from(ProgressView::Parts),
            r.deep_view().wf(),
    {
        let r = EndpointLoad {
            progress: Progress::Parts,
            own_label: None,
            ids: Vec::new(),
            index: 0,
            endpoints: Vec::new(),
        };
        assert(r.deep_view() =~= load_from(ProgressView::Parts));
        r
    }

    /// Starts to read the label of a device, and then its endpoints.
    pub fn start_with_label() -> (r: EndpointLoad)
        ensures
            r.deep_view() == load_from(ProgressView::OwnBridgedLabel),
            r.deep_view().wf(),
    {
        let r = EndpointLoad {
            progress: Progress::OwnBridgedLabel,
            own_label: None,
            ids: Vec::new(),
            index: 0,
            endpoints: Vec::new(),
        };
        assert(r.deep_view() =~= load_from(ProgressView::OwnBridgedLabel));
        r
    }

    /// The attribute that is to be read next; none when all is done.
    pub fn request(&self) -> (r: Option<AttributePath>)
        requires
            self.deep_view().wf(),
        ensures
            r == self.deep_view().request(),
    {
        let (endpoint, cluster, attribute): (u16, u32, u32) = match &self.progress {
            Progress::OwnBridgedLabel =>
                (0, CLUSTER_BRIDGED_DEVICE_BASIC_INFORMATION, ATTRIBUTE_NODE_LABEL),
            Progress::OwnBasicLabel => (0, CLUSTER_BASIC_INFORMATION, ATTRIBUTE_NODE_LABEL),
            Progress::Parts => (0, CLUSTER_DESCRIPTOR, ATTRIBUTE_PARTS_LIST),
            Progress::Server => {
                if self.index >= self.ids.len() {
                    return None;
                }
                (self.ids[self.index], CLUSTER_DESCRIPTOR, ATTRIBUTE_SERVER_LIST)
            },
            Progress::Types { .. } =>
                (self.ids[self.index], CLUSTER_DESCRIPTOR, ATTRIBUTE_DEVICE_TYPE_LIST),
            Progress::BridgedLabel { .. } => (
                self.ids[self.index],
                CLUSTER_BRIDGED_DEVICE_BASIC_INFORMATION,
                ATTRIBUTE_NODE_LABEL,
            ),
            Progress::BasicLabel { .. } =>
                (self.ids[self.index], CLUSTER_BASIC_INFORMATION, ATTRIBUTE_NODE_LABEL),
            Progress::Actions { .. } =>
                (self.ids[self.index], CLUSTER_ACTIONS, ATTRIBUTE_ACTION_LIST),
        };
        Some(AttributePath { endpoint, cluster, attribute })
    }

    fn read(
        self,
        clusters: Vec<u32>,
        types: Vec<String>,
        label: Option<String>,
        actions: Vec<Action>,
    ) -> (r: EndpointLoad)
        requires
            self.index < self.ids.len(),
        ensures
            r.deep_view() == self.deep_view().read(
                clusters@,
                types.deep_view(),
                label.deep_view(),
                actions.deep_view(),
            ),
    {
        let endpoint = EndpointSummary {
            id: self.ids[self.index],
            label,
            device_types: types,
            has_on_off: has_cluster(&clusters, CLUSTER_ON_OFF),
            on_off_state: None,
            actions,
        };
        let mut endpoints = self.endpoints;
        endpoints.push(endpoint);
        assert(endpoints.deep_view() =~= self.endpoints.deep_view().push(endpoint.deep_view()));
        EndpointLoad {
            progress: Progress::Server,
            own_label: self.own_label,
            ids: self.ids,
            index: self.index + 1,
            endpoints,
        }
    }

    fn labelled(self, clusters: Vec<u32>, types: Vec<String>, label: Option<String>) -> (r:
        EndpointLoad)
        requires
            self.index < self.ids.len(),
        ensures
            r.deep_view() == self.deep_view().labelled(
                clusters@,
                types.deep_view(),
                label.deep_view(),
            ),
    {
        if has_cluster(&clusters, CLUSTER_ACTIONS) {
            EndpointLoad { progress: Progress::Actions { clusters, types, label }, ..self }
        } else {
            let none: Vec<Action> = Vec::new();
            assert(none.deep_view() =~= seq![]);
            self.read(clusters, types, label, none)
        }
    }

    fn passed(self) -> (r: EndpointLoad)
        requires
            self.index < self.ids.len(),
        ensures
            r.deep_view() == self.deep_view().passed(),
    {
        EndpointLoad { progress: Progress::Server, index: self.index + 1, ..self }
    }

    /// Goes on with the answer of the device, or without it where the device has not answered.
    pub fn answer(self, answer: Option<TlvValue>) -> (r: EndpointLoad)
        requires
            self.deep_view().wf(),
            self.deep_view().request() is Some,
        ensures
            r.deep_view() == self.deep_view().answered(answer),
            r.deep_view().wf(),
    {
        let EndpointLoad { progress, own_label, ids, index, endpoints } = self;
        match progress {
            Progress::OwnBridgedLabel => match read_label(&answer) {
                Some(label) => EndpointLoad {
                    progress: Progress::Parts,
                    own_label: Some(label),
                    ids,
                    index,
                    endpoints,
                },
                None => EndpointLoad {
                    progress: Progress::OwnBasicLabel,
                    own_label,
                    ids,
                    index,
                    endpoints,
                },
            },
            Progress::OwnBasicLabel => EndpointLoad {
                progress: Progress::Parts,
                own_label: read_label(&answer),
                ids,
                index,
                endpoints,
            },
            Progress::Parts => EndpointLoad {
                progress: Progress::Server,
                own_label,
                ids: collect_endpoint_ids(answer.as_ref()),
                index: 0,
                endpoints,
            },
            Progress::Server => match answer {
                Some(value) => EndpointLoad {
                    progress: Progress::Types { clusters: decode_server_list(&value) },
                    own_label,
                    ids,
                    index,
                    endpoints,
                },
                None => EndpointLoad {
                    progress: Progress::Server,
                    own_label,
                    ids,
                    index,
                    endpoints,
                }.passed(),
            },
            Progress::Types { clusters } => match answer {
                Some(value) => EndpointLoad {
                    progress: Progress::BridgedLabel {
                        clusters,
                        types: decode_device_type_list(&value),
                    },
                    own_label,
                    ids,
                    index,
                    endpoints,
                },
                None => EndpointLoad {
                    progress: Progress::Server,
                    own_label,
                    ids,
                    index,
                    endpoints,
                }.passed(),
            },
            Progress::BridgedLabel { clusters, types } => match read_label(&answer) {
                Some(label) => EndpointLoad {
                    progress: Progress::Server,
                    own_label,
                    ids,
                    index,
                    endpoints,
                }.labelled(clusters, types, Some(label)),
                None => EndpointLoad {
                    progress: Progress::BasicLabel { clusters, types },
                    own_label,
                    ids,
                    index,
                    endpoints,
                },
            },
            Progress::BasicLabel { clusters, types } => {
                let label = read_label(&answer);
                EndpointLoad {
                    progress: Progress::Server,
                    own_label,
                    ids,
                    index,
                    endpoints,
                }.labelled(clusters, types, label)
            },
            Progress::Actions { clusters, types, label } => match answer {
                Some(value) => {
                    let actions = decode_action_list(&value);
                    EndpointLoad {
                        progress: Progress::Server,
                        own_label,
                        ids,
                        index,
                        endpoints,
                    }.read(clusters, types, label, actions)
                },
                None => EndpointLoad {
                    progress: Progress::Server,
                    own_label,
                    ids,
                    index,
                    endpoints,
                }.passed(),
            },
        }
    }
}

} // verus!
