//! Addresses, names and selections.

use crate::lists;
use crate::number;
use crate::number::{decimal, hex, parse_number};
use crate::state::{AppState, EndpointAlias, EndpointAliasView, KnownDevice, KnownDeviceView};
use crate::text;
use crate::text::{chars_of, index_of, join, precedes, split, stands_at, substring};
use crate::trusted;
use crate::trusted::get_device_type_name;
use crate::types::{EndpointSummary, EndpointSummaryView, IpAddress, IpAddressView};
use vstd::prelude::*;

verus! {

// Addresses

/// The address of this machine, which stands in for a missing one.
pub open spec fn loopback() -> IpAddressView {
    IpAddressView { v4: true, text: "127.0.0.1"@ }
}

/// The address that is used of several: the first of version 4, else the first.
pub open spec fn preferred(addresses: Seq<IpAddressView>) -> IpAddressView {
    let p = |a: IpAddressView| a.v4;
    if lists::any(addresses, p) {
        addresses[lists::place(addresses, p)]
    } else if addresses.len() > 0 {
        addresses[0]
    } else {
        loopback()
    }
}

/// An address and a port; an address of version 6 stands in brackets.
pub open spec fn socket_text(address: IpAddressView, port: u16) -> Seq<char> {
    if address.v4 {
        address.text + ":"@ + number::decimal_text(port as nat)
    } else {
        "["@ + address.text + "]:"@ + number::decimal_text(port as nat)
    }
}

fn socket_address(v4: bool, ip: &str, port: u16) -> (r: String)
    ensures
        r@ == socket_text(IpAddressView { v4, text: ip@ }, port),
{
    let mut r: String = String::new();
    if v4 {
        r.append(ip);
        r.append(":");
    } else {
        r.append("[");
        r.append(ip);
        r.append("]:");
    }
    r.append(decimal(port as u64).as_str());
    assert(r@ =~= socket_text(IpAddressView { v4, text: ip@ }, port));
    r
}

/// The socket address under which a device is reached.
pub fn first_socket_addr(addresses: &Vec<IpAddress>, port: u16) -> (r: String)
    ensures
        r@ == socket_text(preferred(addresses.deep_view()), port),
{
    let ghost all = addresses.deep_view();
    let ghost p = |a: IpAddressView| a.v4;
    let mut i: usize = 0;
    while i < addresses.len()
        invariant
            i <= addresses.len(),
            all == addresses.deep_view(),
            p == (|a: IpAddressView| a.v4),
            forall|j: int| 0 <= j < i ==> !p(#[trigger] all[j]),
        decreases addresses.len() - i,
    {
        if addresses[i].v4 {
            proof {
                lists::lemma_place_is(all, p, i as int);
                lists::lemma_place(all, p);
                assert(all[i as int] == addresses[i as int].deep_view());
            }
            return socket_address(true, addresses[i].text.as_str(), port);
        }
        assert(!p(all[i as int]));
        i += 1;
    }
    proof {
        lists::lemma_place_is(all, p, all.len() as int);
        lists::lemma_place(all, p);
    }
    if addresses.len() > 0 {
        assert(!p(all[0]));
        assert(all[0] == addresses[0].deep_view());
        socket_address(false, addresses[0].text.as_str(), port)
    } else {
        socket_address(true, "127.0.0.1", port)
    }
}

/// Whether one address stands behind another: those of version 4 come first, and among those of one
/// version the order is that of their texts.
pub open spec fn stands_behind(a: IpAddressView, b: IpAddressView) -> bool {
    if a.v4 == b.v4 {
        text::comes_before(b.text, a.text)
    } else {
        b.v4
    }
}

/// An address put in its place among sorted ones.
pub open spec fn with_address(sorted: Seq<IpAddressView>, ip: IpAddressView) -> Seq<IpAddressView> {
    sorted.insert(lists::place(sorted, |a: IpAddressView| stands_behind(a, ip)), ip)
}

/// Addresses in their order.
pub open spec fn sorted_addresses(ips: Seq<IpAddressView>) -> Seq<IpAddressView>
    decreases ips.len(),
{
    if ips.len() == 0 {
        seq![]
    } else {
        with_address(sorted_addresses(ips.drop_last()), ips.last())
    }
}

/// Whether addresses stand in their order.
pub open spec fn in_order(ips: Seq<IpAddressView>) -> bool {
    forall|i: int, j: int|
        0 <= i < j < ips.len() ==> !stands_behind(#[trigger] ips[i], #[trigger] ips[j])
}

fn put_address(sorted: &mut Vec<IpAddress>, ip: IpAddress)
    ensures
        final(sorted).deep_view() == with_address(old(sorted).deep_view(), ip.deep_view()),
{
    let ghost all = sorted.deep_view();
    let ghost x = ip.deep_view();
    let ghost p = |a: IpAddressView| stands_behind(a, x);
    let mut i: usize = 0;
    while i < sorted.len()
        invariant
            i <= sorted.len(),
            all == sorted.deep_view(),
            *sorted == *old(sorted),
            x == ip.deep_view(),
            p == (|a: IpAddressView| stands_behind(a, x)),
            forall|j: int| 0 <= j < i ==> !p(#[trigger] all[j]),
        decreases sorted.len() - i,
    {
        let behind = if sorted[i].v4 == ip.v4 {
            precedes(ip.text.as_str(), sorted[i].text.as_str())
        } else {
            ip.v4
        };
        assert(all[i as int] == sorted[i as int].deep_view());
        assert(behind == p(all[i as int]));
        if behind {
            proof {
                lists::lemma_place_is(all, p, i as int);
            }
            sorted.insert(i, ip);
            assert(sorted.deep_view() =~= all.insert(i as int, x));
            return;
        }
        i += 1;
    }
    proof {
        lists::lemma_place_is(all, p, all.len() as int);
    }
    sorted.push(ip);
    assert(sorted.deep_view() =~= all.insert(all.len() as int, x));
}

/// Sorts addresses.
pub fn sort_ips(ips: Vec<IpAddress>) -> (r: Vec<IpAddress>)
    ensures
        r.deep_view() == sorted_addresses(ips.deep_view()),
{
    let mut rest: Vec<IpAddress> = ips;
    let mut r: Vec<IpAddress> = Vec::new();
    let ghost all = ips.deep_view();
    let ghost mut n: int = 0;
    assert(all.take(0) =~= seq![]);
    assert(all.skip(0) =~= all);
    assert(r.deep_view() =~= seq![]);
    while rest.len() > 0
        invariant
            0 <= n <= all.len(),
            rest.deep_view() == all.skip(n),
            r.deep_view() == sorted_addresses(all.take(n)),
        decreases rest.len(),
    {
        let ghost before = rest@;
        assert(before.len() == rest.deep_view().len());
        assert forall|i: int| 0 <= i < before.len() implies #[trigger] before[i].deep_view()
            == all[n + i] by {
            assert(rest.deep_view()[i] == before[i].deep_view());
            assert(all.skip(n)[i] == all[n + i]);
        }
        let ip = rest.remove(0);
        assert(ip.deep_view() == all[n]);
        assert(rest.deep_view() =~= all.skip(n + 1)) by {
            assert forall|i: int| 0 <= i < rest@.len() implies #[trigger] rest.deep_view()[i]
                == all.skip(n + 1)[i] by {
                assert(rest@[i] == before[i + 1]);
            }
        }
        put_address(&mut r, ip);
        assert(all.take(n + 1).drop_last() =~= all.take(n));
        proof {
            n = n + 1;
        }
    }
    assert(all.skip(n).len() == 0);
    assert(all.take(n) =~= all);
    r
}

proof fn lemma_with_address(sorted: Seq<IpAddressView>, ip: IpAddressView)
    requires
        in_order(sorted),
    ensures
        in_order(with_address(sorted, ip)),
        with_address(sorted, ip).to_multiset() == sorted.to_multiset().insert(ip),
{
    let p = |a: IpAddressView| stands_behind(a, ip);
    lists::lemma_place(sorted, p);
    let k = lists::place(sorted, p);
    let r = with_address(sorted, ip);
    vstd::seq_lib::to_multiset_insert(sorted, k, ip);
    assert forall|i: int, j: int| 0 <= i < j < r.len() implies !stands_behind(
        #[trigger] r[i],
        #[trigger] r[j],
    ) by {
        if i < k && j == k {
            assert(!p(sorted[i]));
        } else if i == k {
            let a = sorted[k];
            let b = sorted[j - 1];
            assert(p(a));
            if k < j - 1 {
                assert(!stands_behind(sorted[k], sorted[j - 1]));
            } else {
                text::order_is_total(a.text, a.text);
            }
            lemma_behind_is_an_order(ip, a, b);
        } else {
            let m = if i < k {
                i
            } else {
                i - 1
            };
            let n = if j < k {
                j
            } else {
                j - 1
            };
            assert(!stands_behind(sorted[m], sorted[n]));
        }
    }
}

proof fn lemma_behind_is_an_order(x: IpAddressView, a: IpAddressView, b: IpAddressView)
    requires
        stands_behind(a, x),
        !stands_behind(a, b),
    ensures
        !stands_behind(x, b),
{
    text::order_is_total(a.text, b.text);
    text::order_is_total(x.text, b.text);
    text::order_is_total(a.text, x.text);
    if stands_behind(x, b) && x.v4 == b.v4 && a.v4 == x.v4 {
        text::order_is_transitive(b.text, x.text, a.text);
    }
}

/// Sorting keeps every address, as often as it was there, and puts them in order.
pub proof fn sorted_addresses_are_the_same_in_order(ips: Seq<IpAddressView>)
    ensures
        in_order(sorted_addresses(ips)),
        sorted_addresses(ips).to_multiset() == ips.to_multiset(),
    decreases ips.len(),
{
    if ips.len() == 0 {
        assert(sorted_addresses(ips) =~= ips);
    } else {
        sorted_addresses_are_the_same_in_order(ips.drop_last());
        lemma_with_address(sorted_addresses(ips.drop_last()), ips.last());
        vstd::seq_lib::to_multiset_build(ips.drop_last(), ips.last());
        assert(ips.drop_last().push(ips.last()) =~= ips);
    }
}

// Names

/// `s` without the `t` that it ends with, as often as it does.
pub open spec fn without_endings(s: Seq<char>, t: Seq<char>) -> Seq<char>
    decreases s.len(),
{
    if t.len() > 0 && text::ends_with(s, t) {
        without_endings(s.take(s.len() - t.len()), t)
    } else {
        s
    }
}

fn strip_endings(v: &Vec<char>, to: usize, t: &str) -> (r: usize)
    requires
        to <= v@.len(),
    ensures
        r <= to,
        v@.take(r as int) == without_endings(v@.take(to as int), t@),
{
    let ending = chars_of(t);
    let mut end: usize = to;
    while ending.len() > 0 && end >= ending.len() && stands_at(
        v.as_slice(),
        ending.as_slice(),
        end - ending.len(),
    )
        invariant
            to <= v@.len(),
            end <= to,
            ending@ == t@,
            without_endings(v@.take(to as int), t@) == without_endings(v@.take(end as int), t@),
        decreases end,
    {
        let ghost s = v@.take(end as int);
        assert(s.subrange(s.len() - t@.len(), s.len() as int) =~= v@.subrange(
            end - t@.len(),
            end as int,
        ));
        assert(s.take(s.len() - t@.len()) =~= v@.take(end - t@.len()));
        end = end - ending.len();
    }
    proof {
        let s = v@.take(end as int);
        if t@.len() > 0 && s.len() >= t@.len() {
            assert(s.subrange(s.len() - t@.len(), s.len() as int) =~= v@.subrange(
                end - t@.len(),
                end as int,
            ));
        }
    }
    end
}

/// The name of an instance of a service: what stands before the first dot, once the endings that
/// every service has are gone.
pub open spec fn service_name(fullname: Seq<char>) -> Seq<char> {
    let s = without_endings(
        without_endings(without_endings(fullname, ".local."@), "._udp"@),
        "._tcp"@,
    );
    s.take(text::span_before(s, '.'))
}

/// The name of an instance of a service.
pub fn trim_service_name(fullname: &str) -> (r: String)
    ensures
        r@ == service_name(fullname@),
{
    let v = chars_of(fullname);
    assert(v@.take(v@.len() as int) =~= v@);
    let a: usize = strip_endings(&v, v.len(), ".local.");
    let b: usize = strip_endings(&v, a, "._udp");
    let c: usize = strip_endings(&v, b, "._tcp");
    let s = chars_of(substring(v.as_slice(), 0, c).as_str());
    assert(s@ =~= v@.take(c as int));
    assert(s@.skip(0) =~= s@);
    let end: usize = index_of(s.as_slice(), '.', 0);
    assert(s@.subrange(0, end as int) =~= s@.take(end as int));
    substring(s.as_slice(), 0, end)
}

/// The vendor and the product in the text that a device announces: what stands before and what
/// stands behind the first plus sign, up to the next one.
pub open spec fn vendor_and_product(raw: Option<Seq<char>>) -> (
    Option<Seq<char>>,
    Option<Seq<char>>,
) {
    match raw {
        Some(value) => {
            let parts = text::pieces(value, '+');
            (
                Some(parts[0]),
                if parts.len() > 1 {
                    Some(parts[1])
                } else {
                    None
                },
            )
        },
        None => (None, None),
    }
}

/// Parts the vendor from the product.
pub fn parse_vendor_product(raw: Option<&str>) -> (r: (Option<String>, Option<String>))
    ensures
        (r.0.deep_view(), r.1.deep_view()) == vendor_and_product(
            match raw {
                Some(value) => Some(value@),
                None => None,
            },
        ),
{
    match raw {
        Some(value) => {
            let parts = split(chars_of(value).as_slice(), '+');
            let ghost all = parts.deep_view();
            assert(all.len() >= 1);
            assert(all[0] == parts@[0]@);
            let first = Some(parts[0].clone());
            let second = if parts.len() > 1 {
                assert(all[1] == parts@[1]@);
                Some(parts[1].clone())
            } else {
                None
            };
            (first, second)
        },
        None => (None, None),
    }
}

/// The id of a device type: in hexadecimal behind `0x`, else in decimal.
pub open spec fn device_type_id(raw: Seq<char>) -> Option<nat> {
    let read = if text::begins_with(raw, "0x"@) {
        number::number_of(raw.skip(2), 16, u32::MAX as nat)
    } else {
        number::number_of(raw, 10, u32::MAX as nat)
    };
    match read {
        Ok(id) => Some(id),
        Err(_) => None,
    }
}

/// How a device type is shown: by its name, or by its id where it has no name.
pub open spec fn device_type_text(id: u32, name: Option<Seq<char>>) -> Seq<char> {
    match name {
        Some(name) => name,
        None => "0x"@ + number::hex_text(id as nat),
    }
}

/// How a device type is shown.
pub fn device_type_label(id: u32, name: Option<String>) -> (r: String)
    ensures
        r@ == device_type_text(id, name.deep_view()),
{
    match name {
        Some(name) => name,
        None => {
            let mut r: String = "0x".to_string();
            r.append(hex(id).as_str());
            r
        },
    }
}

/// Reads the id of a device type.
pub fn parse_device_type_id(raw: &str) -> (r: Option<u32>)
    ensures
        match r {
            Some(id) => device_type_id(raw@) == Some(id as nat),
            None => device_type_id(raw@) is None,
        },
{
    let v = chars_of(raw);
    let prefix = chars_of("0x");
    proof {
        reveal_strlit("0x");
    }
    let read = if stands_at(v.as_slice(), prefix.as_slice(), 0) {
        let rest = substring(v.as_slice(), 2, v.len());
        assert(rest@ =~= raw@.skip(2));
        parse_number(rest.as_str(), 16, u32::MAX as u64)
    } else {
        parse_number(raw, 10, u32::MAX as u64)
    };
    match read {
        Ok(id) => Some(id as u32),
        Err(_) => None,
    }
}

/// The name of the device type that a device announces.
pub fn parse_device_type_name(raw: &str) -> (r: Option<String>)
    ensures
        r.deep_view() == match device_type_id(raw@) {
            Some(id) => Some(device_type_text(id as u32, trusted::device_type_name(id as u32))),
            None => None,
        },
{
    match parse_device_type_id(raw) {
        Some(id) => Some(device_type_label(id, get_device_type_name(id))),
        None => None,
    }
}

/// The device types of an endpoint, as they are shown.
pub open spec fn device_types_text(device_types: Seq<Seq<char>>) -> Seq<char> {
    if device_types.len() == 0 {
        "unknown type"@
    } else {
        text::joined(device_types, ", "@)
    }
}

/// The device types of an endpoint, as they are shown.
pub fn format_device_types(device_types: &Vec<String>) -> (r: String)
    ensures
        r@ == device_types_text(device_types.deep_view()),
{
    if device_types.len() == 0 {
        "unknown type".to_string()
    } else {
        join(device_types, ", ")
    }
}

// Lists of what is known

/// The devices with one more, or with another one in the place of that with the same node id.
pub open spec fn with_device(
    devices: Seq<KnownDeviceView>,
    device: KnownDeviceView,
) -> Seq<KnownDeviceView> {
    let p = |d: KnownDeviceView| d.node_id == device.node_id;
    let k = lists::place(devices, p);
    if k < devices.len() {
        devices.update(k, device)
    } else {
        devices.push(device)
    }
}

/// Adds a device, or replaces the one with its node id.
pub fn upsert_known_device(devices: &mut Vec<KnownDevice>, device: KnownDevice)
    ensures
        final(devices).deep_view() == with_device(old(devices).deep_view(), device.deep_view()),
{
    let ghost all = devices.deep_view();
    let ghost x = device.deep_view();
    let ghost p = |d: KnownDeviceView| d.node_id == x.node_id;
    let mut i: usize = 0;
    while i < devices.len()
        invariant
            i <= devices.len(),
            all == devices.deep_view(),
            *devices == *old(devices),
            x == device.deep_view(),
            p == (|d: KnownDeviceView| d.node_id == x.node_id),
            forall|j: int| 0 <= j < i ==> !p(#[trigger] all[j]),
        decreases devices.len() - i,
    {
        assert(all[i as int] == devices[i as int].deep_view());
        if devices[i].node_id == device.node_id {
            proof {
                lists::lemma_place_is(all, p, i as int);
            }
            devices.set(i, device);
            assert(devices.deep_view() =~= all.update(i as int, x));
            return;
        }
        i += 1;
    }
    proof {
        lists::lemma_place_is(all, p, all.len() as int);
    }
    devices.push(device);
    assert(devices.deep_view() =~= all.push(x));
}

/// Whether an alias is that of an endpoint of a node.
pub open spec fn names_endpoint(a: EndpointAliasView, node_id: u64, endpoint_id: u16) -> bool {
    a.node_id == node_id && a.endpoint_id == endpoint_id
}

/// The aliases with one more, or with another one in the place of that of the same endpoint.
pub open spec fn with_alias(
    aliases: Seq<EndpointAliasView>,
    alias: EndpointAliasView,
) -> Seq<EndpointAliasView> {
    let p = |a: EndpointAliasView| names_endpoint(a, alias.node_id, alias.endpoint_id);
    let k = lists::place(aliases, p);
    if k < aliases.len() {
        aliases.update(k, alias)
    } else {
        aliases.push(alias)
    }
}

/// Adds an alias, or replaces that of the same endpoint.
pub fn upsert_endpoint_alias(aliases: &mut Vec<EndpointAlias>, alias: EndpointAlias)
    ensures
        final(aliases).deep_view() == with_alias(old(aliases).deep_view(), alias.deep_view()),
{
    let ghost all = aliases.deep_view();
    let ghost x = alias.deep_view();
    let ghost p = |a: EndpointAliasView| names_endpoint(a, x.node_id, x.endpoint_id);
    let mut i: usize = 0;
    while i < aliases.len()
        invariant
            i <= aliases.len(),
            all == aliases.deep_view(),
            *aliases == *old(aliases),
            x == alias.deep_view(),
            p == (|a: EndpointAliasView| names_endpoint(a, x.node_id, x.endpoint_id)),
            forall|j: int| 0 <= j < i ==> !p(#[trigger] all[j]),
        decreases aliases.len() - i,
    {
        assert(all[i as int] == aliases[i as int].deep_view());
        if aliases[i].node_id == alias.node_id && aliases[i].endpoint_id == alias.endpoint_id {
            proof {
                lists::lemma_place_is(all, p, i as int);
            }
            aliases.set(i, alias);
            assert(aliases.deep_view() =~= all.update(i as int, x));
            return;
        }
        i += 1;
    }
    proof {
        lists::lemma_place_is(all, p, all.len() as int);
    }
    aliases.push(alias);
    assert(aliases.deep_view() =~= all.push(x));
}

/// The alias of an endpoint, if it has one: the first that names it.
pub open spec fn alias_of(
    aliases: Seq<EndpointAliasView>,
    node_id: u64,
    endpoint_id: u16,
) -> Option<EndpointAliasView> {
    let k = lists::place(aliases, |a: EndpointAliasView| names_endpoint(a, node_id, endpoint_id));
    if k < aliases.len() {
        Some(aliases[k])
    } else {
        None
    }
}

/// An endpoint under its alias, or as it is where it has none.
pub open spec fn under_alias(
    aliases: Seq<EndpointAliasView>,
    node_id: u64,
    endpoint: EndpointSummaryView,
) -> EndpointSummaryView {
    match alias_of(aliases, node_id, endpoint.id) {
        Some(alias) => EndpointSummaryView { label: Some(alias.label), ..endpoint },
        None => endpoint,
    }
}

/// The endpoints of a node, each under its alias.
pub open spec fn under_aliases(
    aliases: Seq<EndpointAliasView>,
    node_id: u64,
    endpoints: Seq<EndpointSummaryView>,
) -> Seq<EndpointSummaryView> {
    endpoints.map_values(|e: EndpointSummaryView| under_alias(aliases, node_id, e))
}

fn find_alias(aliases: &Vec<EndpointAlias>, node_id: u64, endpoint_id: u16) -> (r: Option<String>)
    ensures
        r.deep_view() == match alias_of(aliases.deep_view(), node_id, endpoint_id) {
            Some(alias) => Some(alias.label),
            None => None,
        },
{
    let ghost all = aliases.deep_view();
    let ghost p = |a: EndpointAliasView| names_endpoint(a, node_id, endpoint_id);
    let mut i: usize = 0;
    while i < aliases.len()
        invariant
            i <= aliases.len(),
            all == aliases.deep_view(),
            p == (|a: EndpointAliasView| names_endpoint(a, node_id, endpoint_id)),
            forall|j: int| 0 <= j < i ==> !p(#[trigger] all[j]),
        decreases aliases.len() - i,
    {
        assert(all[i as int] == aliases[i as int].deep_view());
        if aliases[i].node_id == node_id && aliases[i].endpoint_id == endpoint_id {
            proof {
                lists::lemma_place_is(all, p, i as int);
            }
            return Some(aliases[i].label.clone());
        }
        i += 1;
    }
    proof {
        lists::lemma_place_is(all, p, all.len() as int);
    }
    None
}

/// Puts the endpoints of a node under their aliases.
pub fn apply_endpoint_aliases(
    state: &AppState,
    node_id: u64,
    endpoints: &mut Vec<EndpointSummary>,
)
    ensures
        final(endpoints).deep_view() == under_aliases(
            state.endpoint_aliases.deep_view(),
            node_id,
            old(endpoints).deep_view(),
        ),
{
    let ghost aliases = state.endpoint_aliases.deep_view();
    let ghost before = endpoints.deep_view();
    let ghost after = under_aliases(aliases, node_id, before);
    let mut i: usize = 0;
    while i < endpoints.len()
        invariant
            i <= endpoints.len(),
            endpoints.deep_view().len() == endpoints.len(),
            before.len() == endpoints.len(),
            aliases == state.endpoint_aliases.deep_view(),
            before == old(endpoints).deep_view(),
            after == under_aliases(aliases, node_id, before),
            endpoints.deep_view() == after.take(i as int) + before.skip(i as int),
        decreases endpoints.len() - i,
    {
        let ghost now = endpoints.deep_view();
        assert(now[i as int] == endpoints[i as int].deep_view());
        assert(now[i as int] == before[i as int]);
        if let Some(label) = find_alias(&state.endpoint_aliases, node_id, endpoints[i].id) {
            endpoints[i].label = Some(label);
        }
        assert(endpoints[i as int].deep_view() == after[i as int]);
        assert(endpoints.deep_view() =~= after.take(i + 1) + before.skip(i + 1)) by {
            assert forall|j: int| 0 <= j < endpoints@.len() && j != i implies
                #[trigger] endpoints.deep_view()[j] == now[j] by {}
        }
        i += 1;
    }
    assert(after.take(i as int) + before.skip(i as int) =~= after);
}

// Selections

/// The selection that stays when a list has a new length.
pub fn clamp_selection(current: usize, len: usize) -> (r: usize)
    ensures
        r == if len == 0 {
            0
        } else if current < len {
            current as int
        } else {
            len - 1
        },
{
    if len == 0 {
        0
    } else if current < len - 1 {
        current
    } else {
        len - 1
    }
}

/// The next selection in a list; the last entry stays selected.
pub fn next_index(current: usize, len: usize) -> (r: usize)
    requires
        len > 0 ==> current < usize::MAX,
    ensures
        r == if len == 0 {
            0
        } else if current + 1 < len {
            current + 1
        } else {
            len - 1
        },
{
    if len == 0 {
        0
    } else if current + 1 < len - 1 {
        current + 1
    } else {
        len - 1
    }
}

} // verus!
