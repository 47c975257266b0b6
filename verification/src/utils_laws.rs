//! What holds of sorted addresses and of the lists of what is known.

use crate::lists;
use crate::number;
use crate::state;
use crate::state::{EndpointAlias, EndpointAliasView, KnownDevice, KnownDeviceView};
use crate::text;
use crate::types::{EndpointSummaryView, IpAddress, IpAddressView};
use crate::utils;
use vstd::prelude::*;

verus! {

// Addresses

/// A device is reached at the first of its addresses of version 4; where there is none, at the first
/// of its addresses, in brackets; and where there is no address at all, at this machine. The port
/// stands behind a colon.
pub proof fn device_is_reached_at_an_address_of_its_own(addresses: Seq<IpAddressView>, port: u16)
    ensures
        ({
            let r = utils::socket_text(utils::preferred(addresses), port);
            let behind = number::decimal_text(port as nat);
            &&& forall|i: int|
                0 <= i < addresses.len() && (#[trigger] addresses[i]).v4 && (forall|j: int|
                    0 <= j < i ==> !(#[trigger] addresses[j]).v4) ==> r == addresses[i].text + ":"@
                    + behind
            &&& addresses.len() > 0 && (forall|i: int|
                0 <= i < addresses.len() ==> !(#[trigger] addresses[i]).v4) ==> r == "["@
                + addresses[0].text + "]:"@ + behind
            &&& addresses.len() == 0 ==> r == "127.0.0.1"@ + ":"@ + behind
        }),
{
    let p = |a: IpAddressView| a.v4;
    lists::lemma_place(addresses, p);
    assert forall|i: int|
        0 <= i < addresses.len() && (#[trigger] addresses[i]).v4 && (forall|j: int|
            0 <= j < i ==> !(#[trigger] addresses[j]).v4) implies utils::preferred(addresses)
        == addresses[i] by {
        assert(p(addresses[i]));
        lists::lemma_place_is(addresses, p, i);
    }
    if forall|i: int| 0 <= i < addresses.len() ==> !(#[trigger] addresses[i]).v4 {
        assert(!lists::any(addresses, p));
        if addresses.len() > 0 {
            assert(!addresses[0].v4);
        }
    }
}

/// In sorted addresses none of version 6 stands before one of version 4, and those of one version
/// stand in the order of their texts.
pub proof fn version_four_comes_first(ips: Seq<IpAddressView>, i: int, j: int)
    requires
        0 <= i < j < utils::sorted_addresses(ips).len(),
    ensures
        ({
            let a = utils::sorted_addresses(ips)[i];
            let b = utils::sorted_addresses(ips)[j];
            &&& b.v4 ==> a.v4
            &&& a.v4 == b.v4 ==> a.text == b.text || text::comes_before(a.text, b.text)
        }),
{
    utils::sorted_addresses_are_the_same_in_order(ips);
    let a = utils::sorted_addresses(ips)[i];
    let b = utils::sorted_addresses(ips)[j];
    assert(!utils::stands_behind(a, b));
    text::order_is_total(a.text, b.text);
}

proof fn lemma_first_is_least(ips: Seq<IpAddressView>, ip: IpAddressView)
    requires
        utils::in_order(ips),
        ips.contains(ip),
    ensures
        !utils::stands_behind(ips[0], ip),
{
    let i = choose|i: int| 0 <= i < ips.len() && ips[i] == ip;
    if i > 0 {
        assert(!utils::stands_behind(ips[0], ips[i]));
    } else {
        text::order_is_total(ip.text, ip.text);
    }
}

proof fn lemma_sorted_once(a: Seq<IpAddressView>, b: Seq<IpAddressView>)
    requires
        utils::in_order(a),
        utils::in_order(b),
        a.to_multiset() == b.to_multiset(),
    ensures
        a == b,
    decreases a.len(),
{
    a.to_multiset_ensures();
    b.to_multiset_ensures();
    if a.len() > 0 {
        let x = a[0];
        let y = b[0];
        assert(a.contains(x));
        assert(b.contains(y));
        assert(b.to_multiset().count(x) > 0);
        assert(a.to_multiset().count(y) > 0);
        lemma_first_is_least(a, y);
        lemma_first_is_least(b, x);
        text::order_is_total(x.text, y.text);
        assert(x == y);
        assert(a.remove(0) =~= a.drop_first());
        assert(b.remove(0) =~= b.drop_first());
        assert(a.drop_first().to_multiset() =~= b.drop_first().to_multiset());
        assert(utils::in_order(a.drop_first())) by {
            assert forall|i: int, j: int| 0 <= i < j < a.drop_first().len() implies
                !utils::stands_behind(
                #[trigger] a.drop_first()[i],
                #[trigger] a.drop_first()[j],
            ) by {
                assert(!utils::stands_behind(a[i + 1], a[j + 1]));
            }
        }
        assert(utils::in_order(b.drop_first())) by {
            assert forall|i: int, j: int| 0 <= i < j < b.drop_first().len() implies
                !utils::stands_behind(
                #[trigger] b.drop_first()[i],
                #[trigger] b.drop_first()[j],
            ) by {
                assert(!utils::stands_behind(b[i + 1], b[j + 1]));
            }
        }
        lemma_sorted_once(a.drop_first(), b.drop_first());
        assert(a =~= seq![x] + a.drop_first());
        assert(b =~= seq![y] + b.drop_first());
    } else {
        assert(a =~= b);
    }
}

/// The order in which addresses have been found does not matter once they are sorted.
pub proof fn order_of_discovery_does_not_matter(a: Seq<IpAddressView>, b: Seq<IpAddressView>)
    requires
        a.to_multiset() == b.to_multiset(),
    ensures
        utils::sorted_addresses(a) == utils::sorted_addresses(b),
{
    utils::sorted_addresses_are_the_same_in_order(a);
    utils::sorted_addresses_are_the_same_in_order(b);
    lemma_sorted_once(utils::sorted_addresses(a), utils::sorted_addresses(b));
}

/// Of sorted addresses the first is the one that is used.
pub proof fn first_sorted_address_is_preferred(ips: Seq<IpAddressView>)
    requires
        ips.len() > 0,
    ensures
        utils::sorted_addresses(ips).len() == ips.len(),
        utils::preferred(utils::sorted_addresses(ips)) == utils::sorted_addresses(ips)[0],
{
    let s = utils::sorted_addresses(ips);
    utils::sorted_addresses_are_the_same_in_order(ips);
    ips.to_multiset_ensures();
    s.to_multiset_ensures();
    let p = |a: IpAddressView| a.v4;
    lists::lemma_place(s, p);
    let k = lists::place(s, p);
    if lists::any(s, p) && k > 0 {
        assert(!p(s[0]));
        assert(!utils::stands_behind(s[0], s[k]));
    }
}

// Names

/// The name of an instance of a service has no dot in it.
pub proof fn service_name_has_no_dot(fullname: Seq<char>)
    ensures
        forall|i: int|
            0 <= i < utils::service_name(fullname).len() ==> #[trigger] utils::service_name(
                fullname,
            )[i] != '.',
{
    let s = utils::without_endings(
        utils::without_endings(utils::without_endings(fullname, ".local."@), "._udp"@),
        "._tcp"@,
    );
    text::lemma_span_before(s, '.');
}

// Known devices and aliases

/// A device that gets the next node id is added to the others and replaces none.
pub proof fn commissioning_adds_a_device(devices: Seq<KnownDeviceView>, device: KnownDeviceView)
    requires
        device.node_id == state::next_id(devices),
    ensures
        utils::with_device(devices, device) == devices.push(device),
{
    let p = |d: KnownDeviceView| d.node_id == device.node_id;
    state::next_id_is_fresh(devices);
    assert forall|i: int| 0 <= i < devices.len() implies !p(#[trigger] devices[i]) by {
        assert(devices[i].node_id < state::next_id(devices));
    }
    lists::lemma_place_is(devices, p, devices.len() as int);
}

/// A device that has been added is found under its node id, and every other device stays as it was.
pub proof fn added_device_is_known(devices: Seq<KnownDeviceView>, device: KnownDeviceView)
    ensures
        ({
            let next = utils::with_device(devices, device);
            let k = lists::place(next, |d: KnownDeviceView| d.node_id == device.node_id);
            &&& k < next.len()
            &&& next[k] == device
            &&& next.filter(|d: KnownDeviceView| d.node_id != device.node_id) == devices.filter(
                |d: KnownDeviceView| d.node_id != device.node_id,
            )
        }),
{
    let p = |d: KnownDeviceView| d.node_id == device.node_id;
    let other = |d: KnownDeviceView| d.node_id != device.node_id;
    let next = utils::with_device(devices, device);
    let k = lists::place(devices, p);
    lists::lemma_place(devices, p);
    assert forall|i: int| 0 <= i < k implies !p(#[trigger] next[i]) by {
        assert(next[i] == devices[i]);
    }
    lists::lemma_place_is(next, p, k);
    if k < devices.len() {
        let head = devices.take(k);
        let tail = devices.skip(k + 1);
        assert(devices =~= head + seq![devices[k]] + tail);
        assert(next =~= head + seq![device] + tail);
        Seq::filter_distributes_over_add(head + seq![devices[k]], tail, other);
        Seq::filter_distributes_over_add(head, seq![devices[k]], other);
        Seq::filter_distributes_over_add(head + seq![device], tail, other);
        Seq::filter_distributes_over_add(head, seq![device], other);
        assert(seq![devices[k]].filter(other) =~= seq![device].filter(other)) by {
            reveal_with_fuel(Seq::filter, 2);
            assert(seq![devices[k]].drop_last() =~= seq![]);
            assert(seq![device].drop_last() =~= seq![]);
            assert(p(devices[k]));
        }
    } else {
        reveal(Seq::filter);
        assert(next.drop_last() =~= devices);
    }
}

/// Whether no two devices have the same node id.
pub open spec fn distinct_ids(devices: Seq<KnownDeviceView>) -> bool {
    forall|i: int, j: int|
        0 <= i < j < devices.len() ==> (#[trigger] devices[i]).node_id != (
        #[trigger] devices[j]).node_id
}

/// Adding a device does not make two devices share a node id.
pub proof fn node_ids_stay_distinct(devices: Seq<KnownDeviceView>, device: KnownDeviceView)
    requires
        distinct_ids(devices),
    ensures
        distinct_ids(utils::with_device(devices, device)),
{
    let p = |d: KnownDeviceView| d.node_id == device.node_id;
    lists::lemma_place(devices, p);
    let k = lists::place(devices, p);
    let next = utils::with_device(devices, device);
    assert forall|i: int, j: int| 0 <= i < j < next.len() implies (#[trigger] next[i]).node_id != (
    #[trigger] next[j]).node_id by {
        if k < devices.len() {
            assert(p(devices[k]));
            assert(devices[i].node_id != devices[j].node_id);
        } else if j == devices.len() {
            assert(!p(devices[i]));
        }
    }
}

/// Whether no two aliases are for the same endpoint.
pub open spec fn distinct_endpoints(aliases: Seq<EndpointAliasView>) -> bool {
    forall|i: int, j: int|
        0 <= i < j < aliases.len() ==> !utils::names_endpoint(
            #[trigger] aliases[i],
            (#[trigger] aliases[j]).node_id,
            aliases[j].endpoint_id,
        )
}

/// Adding an alias does not make two aliases name the same endpoint.
pub proof fn aliases_stay_distinct(aliases: Seq<EndpointAliasView>, alias: EndpointAliasView)
    requires
        distinct_endpoints(aliases),
    ensures
        distinct_endpoints(utils::with_alias(aliases, alias)),
{
    let p = |a: EndpointAliasView| utils::names_endpoint(a, alias.node_id, alias.endpoint_id);
    lists::lemma_place(aliases, p);
    let k = lists::place(aliases, p);
    let next = utils::with_alias(aliases, alias);
    assert forall|i: int, j: int| 0 <= i < j < next.len() implies !utils::names_endpoint(
        #[trigger] next[i],
        (#[trigger] next[j]).node_id,
        next[j].endpoint_id,
    ) by {
        if k < aliases.len() {
            assert(p(aliases[k]));
            assert(!utils::names_endpoint(
                aliases[i],
                aliases[j].node_id,
                aliases[j].endpoint_id,
            ));
        } else if j == aliases.len() {
            assert(!p(aliases[i]));
        }
    }
}

/// An alias that has been added is the one that its endpoint has, and every other endpoint keeps
/// the alias that it had.
pub proof fn added_alias_is_used(
    aliases: Seq<EndpointAliasView>,
    alias: EndpointAliasView,
    node_id: u64,
    endpoint_id: u16,
)
    ensures
        utils::alias_of(utils::with_alias(aliases, alias), node_id, endpoint_id)
            == if utils::names_endpoint(alias, node_id, endpoint_id) {
            Some(alias)
        } else {
            utils::alias_of(aliases, node_id, endpoint_id)
        },
{
    let p = |a: EndpointAliasView| utils::names_endpoint(a, alias.node_id, alias.endpoint_id);
    let q = |a: EndpointAliasView| utils::names_endpoint(a, node_id, endpoint_id);
    let next = utils::with_alias(aliases, alias);
    let k = lists::place(aliases, p);
    let m = lists::place(aliases, q);
    lists::lemma_place(aliases, p);
    lists::lemma_place(aliases, q);
    if utils::names_endpoint(alias, node_id, endpoint_id) {
        assert forall|i: int| 0 <= i < k implies !q(#[trigger] next[i]) by {
            assert(next[i] == aliases[i]);
            assert(!p(aliases[i]));
        }
        lists::lemma_place_is(next, q, k);
    } else {
        assert forall|i: int| 0 <= i < m implies !q(#[trigger] next[i]) by {
            if i != k {
                assert(next[i] == aliases[i]);
                assert(!q(aliases[i]));
            }
        }
        if m < aliases.len() {
            assert(q(aliases[m]));
            if k < aliases.len() {
                assert(p(aliases[k]));
            }
            assert(next[m] == aliases[m]);
            lists::lemma_place_is(next, q, m);
        } else {
            assert forall|i: int| 0 <= i < next.len() implies !q(#[trigger] next[i]) by {
                if i != k && i < aliases.len() {
                    assert(next[i] == aliases[i]);
                    assert(!q(aliases[i]));
                }
            }
            lists::lemma_place_is(next, q, next.len() as int);
        }
    }
}

/// Putting endpoints under their aliases a second time changes nothing.
pub proof fn aliases_apply_once(
    aliases: Seq<EndpointAliasView>,
    node_id: u64,
    endpoints: Seq<EndpointSummaryView>,
)
    ensures
        utils::under_aliases(aliases, node_id, utils::under_aliases(aliases, node_id, endpoints))
            == utils::under_aliases(aliases, node_id, endpoints),
{
    assert(utils::under_aliases(
        aliases,
        node_id,
        utils::under_aliases(aliases, node_id, endpoints),
    ) =~= utils::under_aliases(aliases, node_id, endpoints));
}

// Selections

/// A selection stays where it is as long as its list is long enough, and is the last entry
/// otherwise.
pub proof fn selection_stays_in_its_list(current: usize, len: usize, r: usize)
    requires
        call_ensures(utils::clamp_selection, (current, len), r),
    ensures
        len > 0 ==> r < len,
        current < len ==> r == current,
        0 < len <= current ==> r + 1 == len,
        len == 0 ==> r == 0,
{
}

/// The next selection is one further, but never beyond the last entry.
pub proof fn next_selection_is_one_further(current: usize, len: usize, r: usize)
    requires
        call_ensures(utils::next_index, (current, len), r),
    ensures
        len > 0 ==> r < len,
        current + 1 < len ==> r == current + 1,
        0 < len <= current + 1 ==> r + 1 == len,
        len == 0 ==> r == 0,
{
}

/// Sorting addresses neither adds nor loses one, and those of version 4 come first.
pub proof fn sorting_keeps_every_address(ips: Vec<IpAddress>, r: Vec<IpAddress>)
    requires
        call_ensures(utils::sort_ips, (ips,), r),
    ensures
        r.deep_view().to_multiset() == ips.deep_view().to_multiset(),
        r@.len() == ips@.len(),
        forall|i: int, j: int|
            0 <= i < j < r@.len() && (#[trigger] r@[j]).v4 ==> (#[trigger] r@[i]).v4,
{
    let before = ips.deep_view();
    let after = r.deep_view();
    utils::sorted_addresses_are_the_same_in_order(before);
    assert(after.len() == r@.len());
    assert(before.len() == ips@.len());
    before.to_multiset_ensures();
    after.to_multiset_ensures();
    assert forall|i: int, j: int| 0 <= i < j < r@.len() && (#[trigger] r@[j]).v4 implies (
    #[trigger] r@[i]).v4 by {
        version_four_comes_first(before, i, j);
        assert(after[i] == r@[i].deep_view());
        assert(after[j] == r@[j].deep_view());
    }
}

/// One device type is shown as it is, and two with a comma between them; where there is none, that is
/// said.
pub proof fn device_types_are_shown(types: Vec<String>, r: String)
    requires
        call_ensures(utils::format_device_types, (&types,), r),
    ensures
        types@.len() == 0 ==> r@ == "unknown type"@,
        types@.len() == 1 ==> r@ == types@[0]@,
        types@.len() == 2 ==> r@ == types@[0]@ + ", "@ + types@[1]@,
{
    let all = types.deep_view();
    assert(all.len() == types@.len());
    assert(forall|i: int| 0 <= i < all.len() ==> #[trigger] all[i] == types@[i]@);
    reveal_with_fuel(text::joined, 3);
    if all.len() == 2 {
        assert(all.drop_last()[0] == all[0]);
    }
}

// Places

/// A device takes the place of the one with its node id, and a new one comes last. All others stay
/// where they are.
pub proof fn device_takes_its_place(devices: &mut Vec<KnownDevice>, device: KnownDevice, k: int)
    requires
        call_ensures(utils::upsert_known_device, (devices, device), ()),
        0 <= k <= old(devices)@.len(),
        k < old(devices)@.len() ==> old(devices)@[k].node_id == device.node_id,
        forall|i: int| 0 <= i < k ==> (#[trigger] old(devices)@[i]).node_id != device.node_id,
    ensures
        k < old(devices)@.len() ==> final(devices).deep_view() == old(devices).deep_view().update(
            k,
            device.deep_view(),
        ),
        k == old(devices)@.len() ==> final(devices).deep_view() == old(devices).deep_view().push(
            device.deep_view(),
        ),
{
    let all = old(devices).deep_view();
    assert(all.len() == old(devices)@.len());
    assert forall|i: int| 0 <= i < k implies (#[trigger] all[i]).node_id != device.node_id by {
        assert(all[i] == old(devices)@[i].deep_view());
    }
    if k < all.len() {
        assert(all[k] == old(devices)@[k].deep_view());
    }
    lists::lemma_place_is(all, |d: KnownDeviceView| d.node_id == device.deep_view().node_id, k);
}

/// An alias takes the place of that of the same endpoint, and a new one comes last. All others stay
/// where they are.
pub proof fn alias_takes_its_place(aliases: &mut Vec<EndpointAlias>, alias: EndpointAlias, k: int)
    requires
        call_ensures(utils::upsert_endpoint_alias, (aliases, alias), ()),
        0 <= k <= old(aliases)@.len(),
        k < old(aliases)@.len() ==> old(aliases)@[k].node_id == alias.node_id
            && old(aliases)@[k].endpoint_id == alias.endpoint_id,
        forall|i: int|
            0 <= i < k ==> (#[trigger] old(aliases)@[i]).node_id != alias.node_id
                || old(aliases)@[i].endpoint_id != alias.endpoint_id,
    ensures
        k < old(aliases)@.len() ==> final(aliases).deep_view() == old(aliases).deep_view().update(
            k,
            alias.deep_view(),
        ),
        k == old(aliases)@.len() ==> final(aliases).deep_view() == old(aliases).deep_view().push(
            alias.deep_view(),
        ),
{
    let all = old(aliases).deep_view();
    let x = alias.deep_view();
    assert(all.len() == old(aliases)@.len());
    assert forall|i: int| 0 <= i < k implies !utils::names_endpoint(
        #[trigger] all[i],
        x.node_id,
        x.endpoint_id,
    ) by {
        assert(all[i] == old(aliases)@[i].deep_view());
    }
    if k < all.len() {
        assert(all[k] == old(aliases)@[k].deep_view());
    }
    lists::lemma_place_is(
        all,
        |a: EndpointAliasView| utils::names_endpoint(a, x.node_id, x.endpoint_id),
        k,
    );
}

} // verus!
