//! What the command-line client finds under a name, and what it sends.

use crate::flow_laws;
use crate::invoker;
use crate::invoker::{InvokerError, InvokerErrorView, Request, RequestView};
use crate::lists;
use crate::matter;
use crate::matter::Invocation;
use crate::state::{
    AppState, AppStateView, EndpointAlias, EndpointAliasView, KnownDevice, KnownDeviceView,
};
use crate::text;
use crate::text_laws;
use crate::types::{ActionOptionView, ActionView, EndpointSummary, EndpointSummaryView};
use crate::ui_laws;
use vstd::prelude::*;

verus! {

/// Whether two names are the same, but for whitespace around them and for the case of ASCII letters.
pub open spec fn same_words(a: Seq<char>, b: Seq<char>) -> bool {
    let x = text::trimmed(a);
    let y = text::trimmed(b);
    x.len() == y.len() && forall|i: int|
        0 <= i < x.len() ==> text_laws::same_letter(#[trigger] x[i], y[i])
}

/// Names match exactly when they are the same words.
pub proof fn names_match_as_words(a: Seq<char>, b: Seq<char>)
    ensures
        invoker::names_match(a, b) <==> same_words(a, b),
{
    text_laws::case_is_all_that_may_differ(text::trimmed(a), text::trimmed(b));
}

/// Exactly three arguments make a request: the device, the endpoint and the action, in this order.
pub proof fn three_arguments_make_a_request(args: Seq<Seq<char>>)
    ensures
        invoker::requested(args) is Ok <==> args.len() == 3,
        invoker::requested(args) matches Ok(request) ==> request.device == args[0]
            && request.endpoint == args[1] && request.action == args[2],
{
}

/// Whether `i` is the first device with a name.
pub open spec fn is_device(devices: Seq<KnownDeviceView>, name: Seq<char>, i: int) -> bool {
    &&& 0 <= i < devices.len()
    &&& same_words(devices[i].label, name)
    &&& forall|j: int| 0 <= j < i ==> !same_words((#[trigger] devices[j]).label, name)
}

/// Whether `i` is the first alias with a name among those of a node.
pub open spec fn is_alias(
    aliases: Seq<EndpointAliasView>,
    node_id: u64,
    name: Seq<char>,
    i: int,
) -> bool {
    &&& 0 <= i < aliases.len()
    &&& aliases[i].node_id == node_id
    &&& same_words(aliases[i].label, name)
    &&& forall|j: int|
        0 <= j < i && (#[trigger] aliases[j]).node_id == node_id ==> !same_words(
            aliases[j].label,
            name,
        )
}

/// Whether a device has no endpoint with a name.
pub open spec fn lacks_endpoint(
    aliases: Seq<EndpointAliasView>,
    node_id: u64,
    name: Seq<char>,
) -> bool {
    forall|j: int|
        0 <= j < aliases.len() && (#[trigger] aliases[j]).node_id == node_id ==> !same_words(
            aliases[j].label,
            name,
        )
}

/// Whether there is no device with a name.
pub open spec fn lacks_device(devices: Seq<KnownDeviceView>, name: Seq<char>) -> bool {
    forall|i: int| 0 <= i < devices.len() ==> !same_words((#[trigger] devices[i]).label, name)
}

/// A request is about the first device with the name that it gives, and about the first endpoint of
/// this very device with the name that it gives. Where there is none, that is what is said.
pub proof fn request_is_about_what_it_names(s: AppStateView, request: RequestView)
    ensures
        lacks_device(s.devices, request.device) ==> invoker::resolved(s, request) == Err::<
            (KnownDeviceView, EndpointAliasView),
            InvokerErrorView,
        >(InvokerErrorView::DeviceNotFound { name: request.device }),
        forall|i: int| #[trigger]
            is_device(s.devices, request.device, i) && lacks_endpoint(
                s.endpoint_aliases,
                s.devices[i].node_id,
                request.endpoint,
            ) ==> invoker::resolved(s, request) == Err::<
                (KnownDeviceView, EndpointAliasView),
                InvokerErrorView,
            >(
                InvokerErrorView::EndpointNotFound {
                    device: s.devices[i].label,
                    name: request.endpoint,
                },
            ),
        forall|i: int, j: int| #[trigger]
            is_device(s.devices, request.device, i) && #[trigger] is_alias(
                s.endpoint_aliases,
                s.devices[i].node_id,
                request.endpoint,
                j,
            ) ==> invoker::resolved(s, request) == Ok::<
                (KnownDeviceView, EndpointAliasView),
                InvokerErrorView,
            >((s.devices[i], s.endpoint_aliases[j])),
{
    let p = |d: KnownDeviceView| invoker::names_match(d.label, request.device);
    assert forall|i: int| 0 <= i < s.devices.len() implies p(#[trigger] s.devices[i])
        == same_words(s.devices[i].label, request.device) by {
        names_match_as_words(s.devices[i].label, request.device);
    }
    if lacks_device(s.devices, request.device) {
        lists::lemma_place_is(s.devices, p, s.devices.len() as int);
    }
    assert forall|i: int| #[trigger] is_device(s.devices, request.device, i) implies
        invoker::device_place(s.devices, request.device) == i by {
        lists::lemma_place_is(s.devices, p, i);
    }
    assert forall|i: int| #[trigger]
        is_device(s.devices, request.device, i) && lacks_endpoint(
            s.endpoint_aliases,
            s.devices[i].node_id,
            request.endpoint,
        ) implies invoker::alias_place(
        s.endpoint_aliases,
        s.devices[i].node_id,
        request.endpoint,
    ) == s.endpoint_aliases.len() by {
        lemma_alias_words(s.endpoint_aliases, s.devices[i].node_id, request.endpoint);
    }
    assert forall|i: int, j: int| #[trigger]
        is_device(s.devices, request.device, i) && #[trigger] is_alias(
            s.endpoint_aliases,
            s.devices[i].node_id,
            request.endpoint,
            j,
        ) implies invoker::alias_place(s.endpoint_aliases, s.devices[i].node_id, request.endpoint)
        == j by {
        lemma_alias_words(s.endpoint_aliases, s.devices[i].node_id, request.endpoint);
    }
}

proof fn lemma_alias_words(aliases: Seq<EndpointAliasView>, node_id: u64, name: Seq<char>)
    ensures
        lacks_endpoint(aliases, node_id, name) ==> invoker::alias_place(aliases, node_id, name)
            == aliases.len(),
        forall|j: int| #[trigger]
            is_alias(aliases, node_id, name, j) ==> invoker::alias_place(aliases, node_id, name)
                == j,
{
    let q = |a: EndpointAliasView| a.node_id == node_id && invoker::names_match(a.label, name);
    assert forall|j: int| 0 <= j < aliases.len() implies q(#[trigger] aliases[j]) == (
    aliases[j].node_id == node_id && same_words(aliases[j].label, name)) by {
        names_match_as_words(aliases[j].label, name);
    }
    if lacks_endpoint(aliases, node_id, name) {
        lists::lemma_place_is(aliases, q, aliases.len() as int);
    }
    assert forall|j: int| #[trigger] is_alias(aliases, node_id, name, j) implies
        invoker::alias_place(aliases, node_id, name) == j by {
        lists::lemma_place_is(aliases, q, j);
    }
}

/// The endpoint that is found on a device is the first with the id that is looked for.
pub proof fn endpoint_is_found_by_its_id(endpoints: Seq<EndpointSummaryView>, id: u16)
    ensures
        ({
            let k = invoker::endpoint_place(endpoints, id);
            &&& 0 <= k <= endpoints.len()
            &&& k < endpoints.len() ==> endpoints[k].id == id
            &&& forall|i: int| 0 <= i < k ==> (#[trigger] endpoints[i]).id != id
        }),
{
    let p = |e: EndpointSummaryView| e.id == id;
    lists::lemma_place(endpoints, p);
    let k = invoker::endpoint_place(endpoints, id);
    assert forall|i: int| 0 <= i < k implies (#[trigger] endpoints[i]).id != id by {
        assert(!p(endpoints[i]));
    }
}

proof fn lemma_literal(s: Seq<char>)
    requires
        s.len() > 0,
        !text::is_space(s.first()),
        !text::is_space(s.last()),
    ensures
        text::trimmed(s) == s,
{
}

/// The words `on`, `off` and `toggle` switch the endpoint that is meant, if it can be switched.
pub proof fn words_switch_the_endpoint(
    e: EndpointSummaryView,
    action: Seq<char>,
    invokes: Seq<u32>,
)
    ensures
        ({
            let r = invoker::command(e, action, invokes);
            let on = same_words(action, "on"@);
            let off = same_words(action, "off"@);
            let toggle = same_words(action, "toggle"@);
            &&& (on || off || toggle) && !e.has_on_off ==> (r matches Err(error) && error
                == InvokerErrorView::NoOnOff)
            &&& (on || off || toggle) && e.has_on_off ==> (r matches Ok((invocation, said)) && {
                &&& invocation.endpoint == e.id
                &&& invocation.cluster == 0x06
                &&& invocation.payload.len() == 0
                &&& on ==> invocation.command == 1
                &&& off ==> invocation.command == 0
                &&& toggle ==> invocation.command == 2
                &&& said == text::trimmed(action)
            })
        }),
{
    reveal_strlit("on");
    reveal_strlit("off");
    reveal_strlit("toggle");
    lemma_literal("on"@);
    lemma_literal("off"@);
    lemma_literal("toggle"@);
    let word = text::trimmed(action);
    text_laws::case_is_all_that_may_differ(word, "on"@);
    text_laws::case_is_all_that_may_differ(word, "off"@);
    text_laws::case_is_all_that_may_differ(word, "toggle"@);
}

proof fn lemma_verb(j: int)
    requires
        0 <= j < 7,
    ensures
        ({
            let verb = flow_laws::action_verb(j);
            &&& verb.len() > 0
            &&& !verb.contains(':')
            &&& same_words(verb, "Instant"@) <==> j == 0
        }),
{
    reveal_strlit("Instant");
    reveal_strlit("Start");
    reveal_strlit("Stop");
    reveal_strlit("Pause");
    reveal_strlit("Resume");
    reveal_strlit("Enable");
    reveal_strlit("Disable");
    let verb = flow_laws::action_verb(j);
    lemma_literal("Instant"@);
    lemma_literal(verb);
    if j == 6 {
        assert(!text_laws::same_letter(verb[0], "Instant"@[0]));
    }
}

proof fn lemma_label_parts(verb: Seq<char>, name: Seq<char>)
    requires
        !verb.contains(':'),
    ensures
        invoker::verb_and_name(verb + ": "@ + name) == Some((verb, name)),
{
    reveal_strlit(": ");
    let label = verb + ": "@ + name;
    let n = verb.len() as int;
    assert(label.subrange(n, n + 2) =~= ": "@);
    assert forall|j: int| 0 <= j < n implies !#[trigger] text::occurs_at(label, ": "@, j) by {
        if text::occurs_at(label, ": "@, j) {
            assert(label.subrange(j, j + 2)[0] == label[j]);
            assert(verb[j] == ':');
        }
    }
    assert(text::first_occurrence(label, ": "@, n));
    let k = choose|k: int| text::first_occurrence(label, ": "@, k);
    if k < n {
        assert(text::occurs_at(label, ": "@, k));
    } else if n < k {
        assert(text::occurs_at(label, ": "@, n));
    }
    assert(label.take(n) =~= verb);
    assert(label.skip(n + 2) =~= name);
}

/// The name under which an action is offered.
pub open spec fn offered_name(action: ActionView) -> Seq<char> {
    match action.name {
        Some(name) => name,
        None => "unnamed"@,
    }
}

/// Whether a command is the one with the number `j` on an action of an endpoint.
pub open spec fn is_command_on(
    r: Result<(matter::InvocationView, Seq<char>), InvokerErrorView>,
    e: EndpointSummaryView,
    i: int,
    j: int,
) -> bool {
    r matches Ok((invocation, said)) && {
        &&& invocation.endpoint == e.id
        &&& invocation.cluster == 0x25
        &&& invocation.command == flow_laws::action_command(j)
        &&& invocation.payload.len() == 10
        &&& e.actions[i].action_id matches Some(id) && id == invocation.payload[2] + 256
            * invocation.payload[3]
        &&& said == flow_laws::action_verb(j) + ": "@ + offered_name(e.actions[i])
    }
}

/// Whether a text is none of the words that switch an endpoint.
pub open spec fn is_no_switch(action: Seq<char>) -> bool {
    !same_words(action, "on"@) && !same_words(action, "off"@) && !same_words(action, "toggle"@)
}

proof fn lemma_no_switch(action: Seq<char>)
    requires
        is_no_switch(action),
    ensures
        invoker::on_off(action) is None,
{
    reveal_strlit("on");
    reveal_strlit("off");
    reveal_strlit("toggle");
    lemma_literal("on"@);
    lemma_literal("off"@);
    lemma_literal("toggle"@);
    let word = text::trimmed(action);
    text_laws::case_is_all_that_may_differ(word, "on"@);
    text_laws::case_is_all_that_may_differ(word, "off"@);
    text_laws::case_is_all_that_may_differ(word, "toggle"@);
}

/// What an option says is asked for by its label: a verb, a colon and the name of an action. The
/// command is sent that the first option with this label stands for.
pub proof fn label_asks_for_its_command(
    e: EndpointSummaryView,
    action: Seq<char>,
    invokes: Seq<u32>,
    i: int,
    j: int,
)
    requires
        is_no_switch(action),
        forall|k: int|
            0 <= k < e.actions.len() ==> (#[trigger] e.actions[k]).action_id is Some,
        0 <= i < e.actions.len(),
        0 <= j < 7,
        same_words(flow_laws::action_verb(j) + ": "@ + offered_name(e.actions[i]), action),
        forall|k: int, l: int|
            #![trigger flow_laws::action_verb(l), e.actions[k]]
            0 <= k < e.actions.len() && 0 <= l < 7 && 7 * k + l < 7 * i + j ==> !same_words(
                flow_laws::action_verb(l) + ": "@ + offered_name(e.actions[k]),
                action,
            ),
    ensures
        is_command_on(invoker::command(e, action, invokes), e, i, j),
{
    lemma_no_switch(action);
    flow_laws::options_are_those_of_the_actions(e.actions, invokes);
    let options = matter::action_options(e.actions, invokes)->Ok_0;
    let p = |o: ActionOptionView| invoker::names_match(o.label, action);
    let n = 7 * i + j;
    assert(flow_laws::is_option(options[7 * i + j], e.actions[i], j, invokes[i]));
    names_match_as_words(options[n].label, action);
    assert forall|m: int| 0 <= m < n implies !p(#[trigger] options[m]) by {
        let k = m / 7;
        let l = m % 7;
        assert(m == 7 * k + l);
        assert(flow_laws::is_option(options[7 * k + l], e.actions[k], l, invokes[k]));
        names_match_as_words(options[m].label, action);
        assert(!same_words(
            flow_laws::action_verb(l) + ": "@ + offered_name(e.actions[k]),
            action,
        ));
    }
    lists::lemma_place_is(options, p, n);
}

/// The name of an action alone asks for the instant command on it, where it is the name of no other
/// action and the label of no option.
pub proof fn name_asks_for_the_instant_command(
    e: EndpointSummaryView,
    action: Seq<char>,
    invokes: Seq<u32>,
    i: int,
)
    requires
        is_no_switch(action),
        forall|k: int|
            0 <= k < e.actions.len() ==> (#[trigger] e.actions[k]).action_id is Some,
        0 <= i < e.actions.len(),
        same_words(offered_name(e.actions[i]), action),
        forall|k: int|
            0 <= k < e.actions.len() && k != i ==> !same_words(
                offered_name(#[trigger] e.actions[k]),
                action,
            ),
        forall|k: int, l: int|
            #![trigger flow_laws::action_verb(l), e.actions[k]]
            0 <= k < e.actions.len() && 0 <= l < 7 ==> !same_words(
                flow_laws::action_verb(l) + ": "@ + offered_name(e.actions[k]),
                action,
            ),
    ensures
        is_command_on(invoker::command(e, action, invokes), e, i, 0),
{
    lemma_no_switch(action);
    flow_laws::options_are_those_of_the_actions(e.actions, invokes);
    let options = matter::action_options(e.actions, invokes)->Ok_0;
    let p = |o: ActionOptionView| invoker::names_match(o.label, action);
    let q = |o: ActionOptionView| invoker::is_instant_for(o, action);
    let n = 7 * i + 0;
    assert forall|m: int| 0 <= m < options.len() implies !p(#[trigger] options[m]) && (q(
        options[m],
    ) <==> m == n) by {
        let k = m / 7;
        let l = m % 7;
        assert(m == 7 * k + l);
        assert(flow_laws::is_option(options[7 * k + l], e.actions[k], l, invokes[k]));
        let verb = flow_laws::action_verb(l);
        let name = offered_name(e.actions[k]);
        names_match_as_words(options[m].label, action);
        assert(!same_words(verb + ": "@ + name, action));
        lemma_verb(l);
        lemma_label_parts(verb, name);
        names_match_as_words(verb, "Instant"@);
        names_match_as_words(name, action);
    }
    lists::lemma_place_is(options, p, options.len() as int);
    assert(lists::is_only(options, q, n));
    lists::lemma_only(options, q, n);
    assert(flow_laws::is_option(options[7 * i + 0], e.actions[i], 0, invokes[i]));
}

/// A word that is neither a label nor the name of an action asks for nothing: where there are actions,
/// what is available is said, and where there are none, that is said.
pub proof fn other_words_ask_for_nothing(
    e: EndpointSummaryView,
    action: Seq<char>,
    invokes: Seq<u32>,
)
    requires
        is_no_switch(action),
        forall|k: int|
            0 <= k < e.actions.len() ==> (#[trigger] e.actions[k]).action_id is Some,
        forall|k: int|
            0 <= k < e.actions.len() ==> !same_words(
                offered_name(#[trigger] e.actions[k]),
                action,
            ),
        forall|k: int, l: int|
            #![trigger flow_laws::action_verb(l), e.actions[k]]
            0 <= k < e.actions.len() && 0 <= l < 7 ==> !same_words(
                flow_laws::action_verb(l) + ": "@ + offered_name(e.actions[k]),
                action,
            ),
    ensures
        invoker::command(e, action, invokes) matches Err(error) && {
            &&& e.actions.len() == 0 ==> error == InvokerErrorView::NoActions
            &&& e.actions.len() > 0 ==> (error matches InvokerErrorView::ActionNotFound {
                requested,
                available,
            } && requested == action && (forall|labels: Seq<Seq<char>>|
                labels.len() == 7 * e.actions.len() && (forall|k: int, l: int|
                    #![trigger flow_laws::action_verb(l), e.actions[k]]
                    0 <= k < e.actions.len() && 0 <= l < 7 ==> labels[7 * k + l]
                        == flow_laws::action_verb(l) + ": "@ + offered_name(e.actions[k]))
                    ==> available == #[trigger] ui_laws::listed(labels)))
        },
{
    lemma_no_switch(action);
    flow_laws::options_are_those_of_the_actions(e.actions, invokes);
    let options = matter::action_options(e.actions, invokes)->Ok_0;
    let p = |o: ActionOptionView| invoker::names_match(o.label, action);
    let q = |o: ActionOptionView| invoker::is_instant_for(o, action);
    let s = |o: ActionOptionView| invoker::is_for(o, action);
    assert forall|m: int| 0 <= m < options.len() implies !p(#[trigger] options[m]) && !q(options[m])
        && !s(options[m]) by {
        let k = m / 7;
        let l = m % 7;
        assert(m == 7 * k + l);
        assert(flow_laws::is_option(options[7 * k + l], e.actions[k], l, invokes[k]));
        let verb = flow_laws::action_verb(l);
        let name = offered_name(e.actions[k]);
        names_match_as_words(options[m].label, action);
        assert(!same_words(verb + ": "@ + name, action));
        lemma_verb(l);
        lemma_label_parts(verb, name);
        names_match_as_words(name, action);
    }
    lists::lemma_place_is(options, p, options.len() as int);
    assert forall|k: int| !lists::is_only(options, q, k) by {
        if 0 <= k < options.len() {
            assert(!q(options[k]));
        }
    }
    assert forall|k: int| !lists::is_only(options, s, k) by {
        if 0 <= k < options.len() {
            assert(!s(options[k]));
        }
    }
    assert forall|labels: Seq<Seq<char>>|
        e.actions.len() > 0 && labels.len() == 7 * e.actions.len() && (forall|k: int, l: int|
            #![trigger flow_laws::action_verb(l), e.actions[k]]
            0 <= k < e.actions.len() && 0 <= l < 7 ==> labels[7 * k + l] == flow_laws::action_verb(
                l,
            ) + ": "@ + offered_name(e.actions[k])) implies text::joined(
        invoker::labels(options),
        ", "@,
    ) == #[trigger] ui_laws::listed(labels) by {
        assert forall|m: int| 0 <= m < labels.len() implies labels[m] == #[trigger] invoker::labels(
            options,
        )[m] by {
            let k = m / 7;
            let l = m % 7;
            assert(m == 7 * k + l);
            assert(flow_laws::is_option(options[7 * k + l], e.actions[k], l, invokes[k]));
            let verb = flow_laws::action_verb(l);
            assert(labels[7 * k + l] == verb + ": "@ + offered_name(e.actions[k]));
        }
        assert(labels =~= invoker::labels(options));
        ui_laws::lemma_listed(labels);
    }
}

// From the arguments to the command

/// Whatever is sent goes to what the arguments name: to the device that is remembered under the first
/// of them, and to the endpoint of this device that is remembered under the second.
pub proof fn command_goes_where_the_arguments_say(
    args: &Vec<String>,
    state: &AppState,
    endpoints: &Vec<EndpointSummary>,
    invokes: &Vec<u32>,
    name: &str,
    action: &str,
    asked: Result<Request, InvokerError>,
    found: Result<(KnownDevice, EndpointAlias), InvokerError>,
    endpoint: Result<&EndpointSummary, InvokerError>,
    r: Result<(Invocation, String), InvokerError>,
)
    requires
        call_ensures(invoker::parse_arguments, (args,), asked),
        asked is Ok,
        call_ensures(invoker::resolve, (state, &asked->Ok_0), found),
        found is Ok,
        call_ensures(
            invoker::find_endpoint,
            (endpoints, found->Ok_0.1.endpoint_id, name),
            endpoint,
        ),
        endpoint is Ok,
        action@ == asked->Ok_0.action@,
        call_ensures(invoker::command_with, (endpoint->Ok_0, action, invokes), r),
        r is Ok,
    ensures
        ({
            let (device, alias) = found->Ok_0;
            let (invocation, said) = r->Ok_0;
            &&& args@.len() == 3
            &&& state.deep_view().devices.contains(device.deep_view())
            &&& same_words(device.label@, args@[0]@)
            &&& state.deep_view().endpoint_aliases.contains(alias.deep_view())
            &&& same_words(alias.label@, args@[1]@)
            &&& alias.node_id == device.node_id
            &&& action@ == args@[2]@
            &&& invocation.endpoint == alias.endpoint_id
            &&& invocation.cluster == 6 || invocation.cluster == 37
        }),
{
    let all = args.deep_view();
    assert(all.len() == args@.len());
    assert(forall|i: int| 0 <= i < all.len() ==> #[trigger] all[i] == args@[i]@);
    let s = state.deep_view();
    let request = asked->Ok_0.deep_view();
    request_is_about_what_it_names(s, request);
    let p = |d: KnownDeviceView| invoker::names_match(d.label, request.device);
    lists::lemma_place(s.devices, p);
    let (device, alias) = found->Ok_0;
    let d = device.deep_view();
    let a = alias.deep_view();
    names_match_as_words(d.label, request.device);
    names_match_as_words(a.label, request.endpoint);
    let q = |x: EndpointAliasView|
        x.node_id == d.node_id && invoker::names_match(x.label, request.endpoint);
    lists::lemma_place(s.endpoint_aliases, q);
    endpoint_is_found_by_its_id(endpoints.deep_view(), alias.endpoint_id);
}

/// What is said of an error names what is missing, and what is said of a command names the command,
/// the device and the endpoint.
pub proof fn messages_name_what_they_are_about(
    e: InvokerError,
    r: String,
    command: &str,
    device: &str,
    endpoint: &str,
    sent: String,
)
    requires
        call_ensures(InvokerError::message, (&e,), r),
        call_ensures(invoker::sent_message, (command, device, endpoint), sent),
    ensures
        sent@ == "Sent \""@ + command@ + "\" to "@ + device@ + " / "@ + endpoint@ + "."@,
        match e.deep_view() {
            InvokerErrorView::MissingDeviceName => r@ == "missing device name"@,
            InvokerErrorView::MissingEndpointName => r@ == "missing endpoint name"@,
            InvokerErrorView::MissingAction => r@ == "missing action"@,
            InvokerErrorView::DeviceNotFound { name } => r@ == "device not found in state: "@ + name,
            InvokerErrorView::EndpointNotFound { device, name } => r@
                == "endpoint not found in state for device \""@ + device + "\": "@ + name,
            InvokerErrorView::ActionNotFound { requested, available } => r@
                == "action not found: "@ + requested + ". Available actions: "@ + available,
            _ => true,
        },
{
}

} // verus!
