//! One command to one endpoint of a saved device, by their names.

use crate::lists;
use crate::matter;
use crate::matter::{
    build_action_dialog_with, Invocation, InvocationView, MatterError, CLUSTER_ACTIONS,
    CLUSTER_ON_OFF, COMMAND_OFF, COMMAND_ON, COMMAND_TOGGLE,
};
use crate::number;
use crate::number::decimal;
use crate::state::{
    AppState, AppStateView, EndpointAlias, EndpointAliasView, KnownDevice, KnownDeviceView,
};
use crate::text;
use crate::text::{chars_of, eq_ignore_ascii_case, find, join, substring, trim};
use crate::types::{
    ActionOption, ActionOptionView, EndpointSummary, EndpointSummaryView,
};
use vstd::prelude::*;

verus! {

/// Why no command is sent.
#[derive(Debug)]
pub enum InvokerError {
    MissingDeviceName,
    MissingEndpointName,
    MissingAction,
    TooManyArguments,
    DeviceNotFound { name: String },
    EndpointNotFound { device: String, name: String },
    EndpointGone { id: u16, device: String },
    NoOnOff,
    NoActions,
    ActionNotFound { requested: String, available: String },
    Matter(MatterError),
}

/// The contents of an [`InvokerError`].
#[verifier::ext_equal]
pub enum InvokerErrorView {
    MissingDeviceName,
    MissingEndpointName,
    MissingAction,
    TooManyArguments,
    DeviceNotFound { name: Seq<char> },
    EndpointNotFound { device: Seq<char>, name: Seq<char> },
    EndpointGone { id: u16, device: Seq<char> },
    NoOnOff,
    NoActions,
    ActionNotFound { requested: Seq<char>, available: Seq<char> },
    Matter(MatterError),
}

impl DeepView for InvokerError {
    type V = InvokerErrorView;

    open spec fn deep_view(&self) -> InvokerErrorView {
        match self {
            InvokerError::MissingDeviceName => InvokerErrorView::MissingDeviceName,
            InvokerError::MissingEndpointName => InvokerErrorView::MissingEndpointName,
            InvokerError::MissingAction => InvokerErrorView::MissingAction,
            InvokerError::TooManyArguments => InvokerErrorView::TooManyArguments,
            InvokerError::DeviceNotFound { name } => InvokerErrorView::DeviceNotFound {
                name: name@,
            },
            InvokerError::EndpointNotFound { device, name } => InvokerErrorView::EndpointNotFound {
                device: device@,
                name: name@,
            },
            InvokerError::EndpointGone { id, device } => InvokerErrorView::EndpointGone {
                id: *id,
                device: device@,
            },
            InvokerError::NoOnOff => InvokerErrorView::NoOnOff,
            InvokerError::NoActions => InvokerErrorView::NoActions,
            InvokerError::ActionNotFound {
                requested,
                available,
            } => InvokerErrorView::ActionNotFound {
                requested: requested@,
                available: available@,
            },
            InvokerError::Matter(e) => InvokerErrorView::Matter(*e),
        }
    }
}

impl InvokerErrorView {
    /// The reason in words.
    pub open spec fn text(self) -> Seq<char> {
        match self {
            InvokerErrorView::MissingDeviceName => "missing device name"@,
            InvokerErrorView::MissingEndpointName => "missing endpoint name"@,
            InvokerErrorView::MissingAction => "missing action"@,
            InvokerErrorView::TooManyArguments =>
                "usage: invoker <device name> <endpoint name> <action>"@,
            InvokerErrorView::DeviceNotFound { name } => "device not found in state: "@ + name,
            InvokerErrorView::EndpointNotFound { device, name } =>
                "endpoint not found in state for device \""@ + device + "\": "@ + name,
            InvokerErrorView::EndpointGone { id, device } => "endpoint "@ + number::decimal_text(
                id as nat,
            ) + " is saved for \""@ + device + "\" but was not found on the device"@,
            InvokerErrorView::NoOnOff => "endpoint does not support On/Off commands"@,
            InvokerErrorView::NoActions => "endpoint has no Actions cluster entries"@,
            InvokerErrorView::ActionNotFound { requested, available } => "action not found: "@
                + requested + ". Available actions: "@ + available,
            InvokerErrorView::Matter(e) => e.text(),
        }
    }
}

impl InvokerError {
    /// The reason in words.
    pub fn message(&self) -> (r: String)
        ensures
            r@ == self.deep_view().text(),
    {
        match self {
            InvokerError::MissingDeviceName => "missing device name".to_string(),
            InvokerError::MissingEndpointName => "missing endpoint name".to_string(),
            InvokerError::MissingAction => "missing action".to_string(),
            InvokerError::TooManyArguments =>
                "usage: invoker <device name> <endpoint name> <action>".to_string(),
            InvokerError::DeviceNotFound { name } => {
                let mut r: String = "device not found in state: ".to_string();
                r.append(name.as_str());
                r
            },
            InvokerError::EndpointNotFound { device, name } => {
                let mut r: String = "endpoint not found in state for device \"".to_string();
                r.append(device.as_str());
                r.append("\": ");
                r.append(name.as_str());
                r
            },
            InvokerError::EndpointGone { id, device } => {
                let mut r: String = "endpoint ".to_string();
                r.append(decimal(*id as u64).as_str());
                r.append(" is saved for \"");
                r.append(device.as_str());
                r.append("\" but was not found on the device");
                r
            },
            InvokerError::NoOnOff => "endpoint does not support On/Off commands".to_string(),
            InvokerError::NoActions => "endpoint has no Actions cluster entries".to_string(),
            InvokerError::ActionNotFound { requested, available } => {
                let mut r: String = "action not found: ".to_string();
                r.append(requested.as_str());
                r.append(". Available actions: ");
                r.append(available.as_str());
                r
            },
            InvokerError::Matter(e) => e.message(),
        }
    }
}

// Names

/// Whether two names are the same, but for their case and for whitespace around them.
pub open spec fn names_match(left: Seq<char>, right: Seq<char>) -> bool {
    text::same_but_for_case(text::trimmed(left), text::trimmed(right))
}

/// Whether two names are the same, but for their case and for whitespace around them.
pub fn same_name(left: &str, right: &str) -> (r: bool)
    ensures
        r == names_match(left@, right@),
{
    eq_ignore_ascii_case(trim(left).as_str(), trim(right).as_str())
}

/// Names match as equals do: every name matches itself, in either order, and two names that match a
/// third match each other.
pub proof fn names_match_is_an_equivalence(a: Seq<char>, b: Seq<char>, c: Seq<char>)
    ensures
        names_match(a, a),
        names_match(a, b) ==> names_match(b, a),
        names_match(a, b) && names_match(b, c) ==> names_match(a, c),
        names_match(a, text::trimmed(a)),
{
    text::trimmed_is_idempotent(a);
    let x = text::trimmed(a);
    let y = text::trimmed(b);
    let z = text::trimmed(c);
    if names_match(a, b) {
        assert forall|i: int| 0 <= i < y.len() implies text::lower(#[trigger] y[i]) == text::lower(
            x[i],
        ) by {
            assert(text::lower(x[i]) == text::lower(y[i]));
        }
        if names_match(b, c) {
            assert forall|i: int| 0 <= i < x.len() implies text::lower(#[trigger] x[i])
                == text::lower(z[i]) by {
                assert(text::lower(y[i]) == text::lower(z[i]));
            }
        }
    }
}

// Arguments

/// What is to be done: a device, an endpoint of it and an action, each by its name.
#[derive(Debug)]
pub struct Request {
    pub device: String,
    pub endpoint: String,
    pub action: String,
}

/// The contents of a [`Request`].
#[verifier::ext_equal]
pub struct RequestView {
    pub device: Seq<char>,
    pub endpoint: Seq<char>,
    pub action: Seq<char>,
}

impl DeepView for Request {
    type V = RequestView;

    open spec fn deep_view(&self) -> RequestView {
        RequestView {
            device: self.device@,
            endpoint: self.endpoint@,
            action: self.action@,
        }
    }
}

/// What arguments ask for: they are exactly three.
pub open spec fn requested(args: Seq<Seq<char>>) -> Result<RequestView, InvokerErrorView> {
    if args.len() == 0 {
        Err(InvokerErrorView::MissingDeviceName)
    } else if args.len() == 1 {
        Err(InvokerErrorView::MissingEndpointName)
    } else if args.len() == 2 {
        Err(InvokerErrorView::MissingAction)
    } else if args.len() == 3 {
        Ok(RequestView { device: args[0], endpoint: args[1], action: args[2] })
    } else {
        Err(InvokerErrorView::TooManyArguments)
    }
}

/// Reads the arguments behind the name of the program.
pub fn parse_arguments(args: &Vec<String>) -> (r: Result<Request, InvokerError>)
    ensures
        match r {
            Ok(request) => requested(args.deep_view()) == Ok::<RequestView, InvokerErrorView>(
                request.deep_view(),
            ),
            Err(e) => requested(args.deep_view()) == Err::<RequestView, InvokerErrorView>(
                e.deep_view(),
            ),
        },
{
    let n: usize = args.len();
    if n == 0 {
        Err(InvokerError::MissingDeviceName)
    } else if n == 1 {
        Err(InvokerError::MissingEndpointName)
    } else if n == 2 {
        Err(InvokerError::MissingAction)
    } else if n == 3 {
        assert(args.deep_view()[0] == args@[0]@);
        assert(args.deep_view()[1] == args@[1]@);
        assert(args.deep_view()[2] == args@[2]@);
        Ok(Request { device: args[0].clone(), endpoint: args[1].clone(), action: args[2].clone() })
    } else {
        Err(InvokerError::TooManyArguments)
    }
}

// Resolving

/// Where the first device with a name stands.
pub open spec fn device_place(devices: Seq<KnownDeviceView>, name: Seq<char>) -> int {
    lists::place(devices, |d: KnownDeviceView| names_match(d.label, name))
}

/// Where the first alias with a name among those of a node stands.
pub open spec fn alias_place(
    aliases: Seq<EndpointAliasView>,
    node_id: u64,
    name: Seq<char>,
) -> int {
    lists::place(
        aliases,
        |a: EndpointAliasView| a.node_id == node_id && names_match(a.label, name),
    )
}

/// The saved device and the saved endpoint that a request names.
pub open spec fn resolved(state: AppStateView, request: RequestView) -> Result<
    (KnownDeviceView, EndpointAliasView),
    InvokerErrorView,
> {
    let i = device_place(state.devices, request.device);
    if i >= state.devices.len() {
        Err(InvokerErrorView::DeviceNotFound { name: request.device })
    } else {
        let device = state.devices[i];
        let j = alias_place(state.endpoint_aliases, device.node_id, request.endpoint);
        if j >= state.endpoint_aliases.len() {
            Err(
                InvokerErrorView::EndpointNotFound {
                    device: device.label,
                    name: request.endpoint,
                },
            )
        } else {
            Ok((device, state.endpoint_aliases[j]))
        }
    }
}

fn find_device(devices: &Vec<KnownDevice>, name: &str) -> (r: usize)
    ensures
        r == device_place(devices.deep_view(), name@),
        r <= devices@.len(),
{
    let ghost all = devices.deep_view();
    let ghost p = |d: KnownDeviceView| names_match(d.label, name@);
    let mut i: usize = 0;
    while i < devices.len()
        invariant
            i <= devices.len(),
            all == devices.deep_view(),
            p == (|d: KnownDeviceView| names_match(d.label, name@)),
            forall|j: int| 0 <= j < i ==> !p(#[trigger] all[j]),
        decreases devices.len() - i,
    {
        assert(all[i as int] == devices[i as int].deep_view());
        if same_name(devices[i].label.as_str(), name) {
            proof {
                lists::lemma_place_is(all, p, i as int);
            }
            return i;
        }
        i += 1;
    }
    proof {
        lists::lemma_place_is(all, p, all.len() as int);
    }
    i
}

fn find_named_alias(aliases: &Vec<EndpointAlias>, node_id: u64, name: &str) -> (r: usize)
    ensures
        r == alias_place(aliases.deep_view(), node_id, name@),
        r <= aliases@.len(),
{
    let ghost all = aliases.deep_view();
    let ghost p = |a: EndpointAliasView| a.node_id == node_id && names_match(a.label, name@);
    let mut i: usize = 0;
    while i < aliases.len()
        invariant
            i <= aliases.len(),
            all == aliases.deep_view(),
            p == (|a: EndpointAliasView| a.node_id == node_id && names_match(a.label, name@)),
            forall|j: int| 0 <= j < i ==> !p(#[trigger] all[j]),
        decreases aliases.len() - i,
    {
        assert(all[i as int] == aliases[i as int].deep_view());
        if aliases[i].node_id == node_id && same_name(aliases[i].label.as_str(), name) {
            proof {
                lists::lemma_place_is(all, p, i as int);
            }
            return i;
        }
        i += 1;
    }
    proof {
        lists::lemma_place_is(all, p, all.len() as int);
    }
    i
}

/// Finds the saved device and the saved endpoint that a request names.
pub fn resolve(state: &AppState, request: &Request) -> (r: Result<
    (KnownDevice, EndpointAlias),
    InvokerError,
>)
    ensures
        match r {
            Ok(found) => resolved(state.deep_view(), request.deep_view()) == Ok::<
                (KnownDeviceView, EndpointAliasView),
                InvokerErrorView,
            >((found.0.deep_view(), found.1.deep_view())),
            Err(e) => resolved(state.deep_view(), request.deep_view()) == Err::<
                (KnownDeviceView, EndpointAliasView),
                InvokerErrorView,
            >(e.deep_view()),
        },
{
    let i: usize = find_device(&state.devices, request.device.as_str());
    if i >= state.devices.len() {
        return Err(InvokerError::DeviceNotFound { name: request.device.clone() });
    }
    assert(state.devices.deep_view()[i as int] == state.devices@[i as int].deep_view());
    let device = state.devices[i].clone();
    let j: usize = find_named_alias(
        &state.endpoint_aliases,
        device.node_id,
        request.endpoint.as_str(),
    );
    if j >= state.endpoint_aliases.len() {
        return Err(
            InvokerError::EndpointNotFound {
                device: device.label,
                name: request.endpoint.clone(),
            },
        );
    }
    assert(state.endpoint_aliases.deep_view()[j as int]
        == state.endpoint_aliases@[j as int].deep_view());
    let saved = &state.endpoint_aliases[j];
    let alias = EndpointAlias {
        node_id: saved.node_id,
        endpoint_id: saved.endpoint_id,
        label: saved.label.clone(),
    };
    Ok((device, alias))
}

/// Where the endpoint with an id stands.
pub open spec fn endpoint_place(endpoints: Seq<EndpointSummaryView>, id: u16) -> int {
    lists::place(endpoints, |e: EndpointSummaryView| e.id == id)
}

/// Finds the endpoint with an id among those that a device has.
pub fn find_endpoint<'a>(endpoints: &'a Vec<EndpointSummary>, id: u16, device: &str) -> (r: Result<
    &'a EndpointSummary,
    InvokerError,
>)
    ensures
        match r {
            Ok(endpoint) => {
                let k = endpoint_place(endpoints.deep_view(), id);
                k < endpoints@.len() && endpoint.deep_view() == endpoints.deep_view()[k]
            },
            Err(e) => endpoint_place(endpoints.deep_view(), id) == endpoints@.len()
                && e.deep_view() == (InvokerErrorView::EndpointGone { id, device: device@ }),
        },
{
    let ghost all = endpoints.deep_view();
    let ghost p = |e: EndpointSummaryView| e.id == id;
    let mut i: usize = 0;
    while i < endpoints.len()
        invariant
            i <= endpoints.len(),
            all == endpoints.deep_view(),
            p == (|e: EndpointSummaryView| e.id == id),
            forall|j: int| 0 <= j < i ==> !p(#[trigger] all[j]),
        decreases endpoints.len() - i,
    {
        assert(all[i as int] == endpoints[i as int].deep_view());
        if endpoints[i].id == id {
            proof {
                lists::lemma_place_is(all, p, i as int);
            }
            return Ok(&endpoints[i]);
        }
        i += 1;
    }
    proof {
        lists::lemma_place_is(all, p, all.len() as int);
    }
    Err(InvokerError::EndpointGone { id, device: device.to_string() })
}

// Commands

/// The On/Off command that an action asks for.
pub open spec fn on_off(action: Seq<char>) -> Option<u32> {
    let word = text::trimmed(action);
    if text::same_but_for_case(word, "on"@) {
        Some(COMMAND_ON)
    } else if text::same_but_for_case(word, "off"@) {
        Some(COMMAND_OFF)
    } else if text::same_but_for_case(word, "toggle"@) {
        Some(COMMAND_TOGGLE)
    } else {
        None
    }
}

/// The On/Off command that an action asks for; an error where the endpoint has none.
pub fn on_off_command(endpoint: &EndpointSummary, requested: &str) -> (r: Result<
    Option<u32>,
    InvokerError,
>)
    ensures
        match r {
            Ok(command) => command == on_off(requested@) && (command is Some ==> endpoint.has_on_off),
            Err(e) => on_off(requested@) is Some && !endpoint.has_on_off && e.deep_view()
                == InvokerErrorView::NoOnOff,
        },
{
    let word = trim(requested);
    let command: u32 = if eq_ignore_ascii_case(word.as_str(), "on") {
        COMMAND_ON
    } else if eq_ignore_ascii_case(word.as_str(), "off") {
        COMMAND_OFF
    } else if eq_ignore_ascii_case(word.as_str(), "toggle") {
        COMMAND_TOGGLE
    } else {
        return Ok(None);
    };
    if !endpoint.has_on_off {
        return Err(InvokerError::NoOnOff);
    }
    Ok(Some(command))
}

/// The verb and the name in the label of an option.
pub open spec fn verb_and_name(label: Seq<char>) -> Option<(Seq<char>, Seq<char>)> {
    match text::found(label, ": "@) {
        Some(at) => Some((label.take(at), label.skip(at + 2))),
        None => None,
    }
}

/// Whether an option is for the action with a name.
pub open spec fn is_for(option: ActionOptionView, name: Seq<char>) -> bool {
    match verb_and_name(option.label) {
        Some((_, n)) => names_match(n, name),
        None => false,
    }
}

/// Whether an option is the instant one for the action with a name.
pub open spec fn is_instant_for(option: ActionOptionView, name: Seq<char>) -> bool {
    match verb_and_name(option.label) {
        Some((verb, n)) => names_match(verb, "Instant"@) && names_match(n, name),
        None => false,
    }
}

/// The option that is asked for: the first with this label, else the only instant one for the
/// action with this name, else the only one for it.
pub open spec fn chosen(options: Seq<ActionOptionView>, requested: Seq<char>) -> Option<int> {
    let k = lists::place(options, |o: ActionOptionView| names_match(o.label, requested));
    if k < options.len() {
        Some(k)
    } else {
        match lists::only(options, |o: ActionOptionView| is_instant_for(o, requested)) {
            Some(k) => Some(k),
            None => lists::only(options, |o: ActionOptionView| is_for(o, requested)),
        }
    }
}

fn split_label(label: &str) -> (r: Option<(String, String)>)
    ensures
        match r {
            Some(parts) => verb_and_name(label@) == Some((parts.0@, parts.1@)),
            None => verb_and_name(label@) is None,
        },
{
    let v = chars_of(label);
    let colon = chars_of(": ");
    proof {
        reveal_strlit(": ");
    }
    match find(v.as_slice(), colon.as_slice()) {
        Some(at) => {
            let end: usize = v.len();
            let verb = substring(v.as_slice(), 0, at);
            let name = substring(v.as_slice(), at + 2, end);
            assert(verb@ =~= label@.take(at as int));
            assert(name@ =~= label@.skip(at + 2));
            Some((verb, name))
        },
        None => None,
    }
}

fn option_is_for(option: &ActionOption, requested: &str, instant: bool) -> (r: bool)
    ensures
        r == if instant {
            is_instant_for(option.deep_view(), requested@)
        } else {
            is_for(option.deep_view(), requested@)
        },
{
    match split_label(option.label.as_str()) {
        Some(parts) => (!instant || same_name(parts.0.as_str(), "Instant")) && same_name(
            parts.1.as_str(),
            requested,
        ),
        None => false,
    }
}

fn find_only(options: &Vec<ActionOption>, requested: &str, instant: bool) -> (r: Option<usize>)
    ensures
        ({
            let p = if instant {
                |o: ActionOptionView| is_instant_for(o, requested@)
            } else {
                |o: ActionOptionView| is_for(o, requested@)
            };
            match r {
                Some(k) => lists::only(options.deep_view(), p) == Some(k as int) && k
                    < options@.len(),
                None => lists::only(options.deep_view(), p) is None,
            }
        }),
{
    let ghost all = options.deep_view();
    let ghost p = if instant {
        |o: ActionOptionView| is_instant_for(o, requested@)
    } else {
        |o: ActionOptionView| is_for(o, requested@)
    };
    let mut only: Option<usize> = None;
    let mut i: usize = 0;
    while i < options.len()
        invariant
            i <= options.len(),
            all == options.deep_view(),
            p == if instant {
                |o: ActionOptionView| is_instant_for(o, requested@)
            } else {
                |o: ActionOptionView| is_for(o, requested@)
            },
            only matches Some(k) ==> k < i && p(all[k as int]),
            forall|j: int| 0 <= j < i && only != Some(j as usize) ==> !p(#[trigger] all[j]),
        decreases options.len() - i,
    {
        assert(all[i as int] == options[i as int].deep_view());
        if option_is_for(&options[i], requested, instant) {
            assert(p(all[i as int]));
            match only {
                Some(k) => {
                    proof {
                        lists::lemma_not_only(all, p, k as int, i as int);
                    }
                    return None;
                },
                None => {
                    only = Some(i);
                },
            }
        } else {
            assert(!p(all[i as int]));
        }
        i += 1;
    }
    proof {
        match only {
            Some(k) => {
                assert(lists::is_only(all, p, k as int));
                lists::lemma_only(all, p, k as int);
            },
            None => {
                assert forall|k: int| !lists::is_only(all, p, k) by {
                    if 0 <= k < all.len() {
                        assert(!p(all[k]));
                    }
                }
            },
        }
    }
    only
}

/// The labels of options.
pub open spec fn labels(options: Seq<ActionOptionView>) -> Seq<Seq<char>> {
    options.map_values(|o: ActionOptionView| o.label)
}

fn option_labels(options: &Vec<ActionOption>) -> (r: Vec<String>)
    ensures
        r.deep_view() == labels(options.deep_view()),
{
    let ghost all = labels(options.deep_view());
    let mut r: Vec<String> = Vec::new();
    let mut i: usize = 0;
    while i < options.len()
        invariant
            i <= options.len(),
            all == labels(options.deep_view()),
            r.deep_view() == all.take(i as int),
        decreases options.len() - i,
    {
        let ghost before = r.deep_view();
        assert(options.deep_view()[i as int] == options@[i as int].deep_view());
        r.push(options[i].label.clone());
        assert(r.deep_view() =~= before.push(all[i as int]));
        assert(r.deep_view() =~= all.take(i + 1));
        i += 1;
    }
    assert(all.take(i as int) =~= all);
    r
}

/// The option that is asked for, or why there is none.
pub open spec fn option_for(options: Seq<ActionOptionView>, requested: Seq<char>) -> Result<
    ActionOptionView,
    InvokerErrorView,
> {
    if options.len() == 0 {
        Err(InvokerErrorView::NoActions)
    } else {
        match chosen(options, requested) {
            Some(k) => Ok(options[k]),
            None => Err(
                InvokerErrorView::ActionNotFound {
                    requested,
                    available: text::joined(labels(options), ", "@),
                },
            ),
        }
    }
}

/// Finds the option that is asked for.
pub fn find_action_option<'a>(options: &'a Vec<ActionOption>, requested: &str) -> (r: Result<
    &'a ActionOption,
    InvokerError,
>)
    ensures
        match r {
            Ok(option) => option_for(options.deep_view(), requested@) == Ok::<
                ActionOptionView,
                InvokerErrorView,
            >(option.deep_view()),
            Err(e) => option_for(options.deep_view(), requested@) == Err::<
                ActionOptionView,
                InvokerErrorView,
            >(e.deep_view()),
        },
{
    if options.len() == 0 {
        return Err(InvokerError::NoActions);
    }
    let ghost all = options.deep_view();
    let ghost p = |o: ActionOptionView| names_match(o.label, requested@);
    let mut i: usize = 0;
    while i < options.len()
        invariant
            i <= options.len(),
            options.len() > 0,
            all == options.deep_view(),
            p == (|o: ActionOptionView| names_match(o.label, requested@)),
            forall|j: int| 0 <= j < i ==> !p(#[trigger] all[j]),
        decreases options.len() - i,
    {
        assert(all[i as int] == options[i as int].deep_view());
        if same_name(options[i].label.as_str(), requested) {
            proof {
                lists::lemma_place_is(all, p, i as int);
            }
            return Ok(&options[i]);
        }
        i += 1;
    }
    proof {
        lists::lemma_place_is(all, p, all.len() as int);
    }
    if let Some(k) = find_only(options, requested, true) {
        assert(all[k as int] == options[k as int].deep_view());
        return Ok(&options[k]);
    }
    if let Some(k) = find_only(options, requested, false) {
        assert(all[k as int] == options[k as int].deep_view());
        return Ok(&options[k]);
    }
    Err(
        InvokerError::ActionNotFound {
            requested: requested.to_string(),
            available: join(&option_labels(options), ", "),
        },
    )
}

/// The command for an action on an endpoint, and how it is called: an On/Off command, else one of
/// the options for its actions.
pub open spec fn command(
    endpoint: EndpointSummaryView,
    action: Seq<char>,
    invokes: Seq<u32>,
) -> Result<(InvocationView, Seq<char>), InvokerErrorView> {
    match on_off(action) {
        Some(id) => if endpoint.has_on_off {
            Ok(
                (
                    InvocationView {
                        endpoint: endpoint.id,
                        cluster: CLUSTER_ON_OFF,
                        command: id,
                        payload: seq![],
                    },
                    text::trimmed(action),
                ),
            )
        } else {
            Err(InvokerErrorView::NoOnOff)
        },
        None => match matter::action_dialog(endpoint, 0, invokes) {
            Err(e) => Err(InvokerErrorView::Matter(e)),
            Ok(dialog) => match option_for(dialog.options, action) {
                Err(e) => Err(e),
                Ok(option) => Ok(
                    (
                        InvocationView {
                            endpoint: endpoint.id,
                            cluster: CLUSTER_ACTIONS,
                            command: option.command_id,
                            payload: option.payload,
                        },
                        option.label,
                    ),
                ),
            },
        },
    }
}

/// The command for an action on an endpoint, with the ids of the invocations.
pub fn command_with(endpoint: &EndpointSummary, action: &str, invokes: &Vec<u32>) -> (r: Result<
    (Invocation, String),
    InvokerError,
>)
    requires
        invokes@.len() >= endpoint.actions@.len(),
    ensures
        match r {
            Ok(c) => command(endpoint.deep_view(), action@, invokes@) == Ok::<
                (InvocationView, Seq<char>),
                InvokerErrorView,
            >((c.0.deep_view(), c.1@)),
            Err(e) => command(endpoint.deep_view(), action@, invokes@) == Err::<
                (InvocationView, Seq<char>),
                InvokerErrorView,
            >(e.deep_view()),
        },
{
    match on_off_command(endpoint, action) {
        Err(e) => Err(e),
        Ok(Some(id)) => {
            let payload: Vec<u8> = Vec::new();
            assert(payload@ =~= seq![]);
            Ok(
                (
                    Invocation {
                        endpoint: endpoint.id,
                        cluster: CLUSTER_ON_OFF,
                        command: id,
                        payload,
                    },
                    trim(action),
                ),
            )
        },
        Ok(None) => match build_action_dialog_with(endpoint, 0, invokes) {
            Err(e) => Err(InvokerError::Matter(e)),
            Ok(dialog) => match find_action_option(&dialog.options, action) {
                Err(e) => Err(e),
                Ok(option) => Ok(
                    (
                        Invocation {
                            endpoint: endpoint.id,
                            cluster: CLUSTER_ACTIONS,
                            command: option.command_id,
                            payload: copy_bytes(&option.payload),
                        },
                        option.label.clone(),
                    ),
                ),
            },
        },
    }
}

fn copy_bytes(bytes: &Vec<u8>) -> (r: Vec<u8>)
    ensures
        r@ == bytes@,
{
    let r = bytes.clone();
    assert(r@ =~= bytes@);
    r
}

/// The command for an action on an endpoint. Options get ids of invocations that are made now.
pub fn command_for(endpoint: &EndpointSummary, action: &str) -> (r: Result<
    (Invocation, String),
    InvokerError,
>)
    ensures
        exists|invokes: Seq<u32>|
            invokes.len() == endpoint.actions@.len() && match r {
                Ok(c) => #[trigger] command(endpoint.deep_view(), action@, invokes) == Ok::<
                    (InvocationView, Seq<char>),
                    InvokerErrorView,
                >((c.0.deep_view(), c.1@)),
                Err(e) => command(endpoint.deep_view(), action@, invokes) == Err::<
                    (InvocationView, Seq<char>),
                    InvokerErrorView,
                >(e.deep_view()),
            },
{
    let invokes = matter::invoke_ids(endpoint.actions.len());
    command_with(endpoint, action, &invokes)
}

/// What is said of a command that has been sent.
pub fn sent_message(command: &str, device: &str, endpoint: &str) -> (r: String)
    ensures
        r@ == "Sent \""@ + command@ + "\" to "@ + device@ + " / "@ + endpoint@ + "."@,
{
    let mut r: String = "Sent \"".to_string();
    r.append(command);
    r.append("\" to ");
    r.append(device);
    r.append(" / ");
    r.append(endpoint);
    r.append(".");
    r
}

} // verus!
