//! What a scan tells of the devices on the network.

use crate::app_model;
use crate::app_model::{AppView, KeyCode, StepView};
use crate::flow_laws;
use crate::listing;
use crate::lists;
use crate::network;
use crate::network::{BrowseEvent, ServiceRecord, ServiceRecordView};
use crate::number;
use crate::number_laws;
use crate::state::{AppState, AppStateView, KnownDeviceView};
use crate::text;
use crate::trusted;
use crate::types::{CommissionableDevice, CommissionedDevice, IpAddressView};
use crate::utils;
use vstd::prelude::*;

verus! {

/// Whether addresses are those that a service announces, each as often as there; the order does not
/// count.
pub open spec fn same_addresses(a: Seq<IpAddressView>, b: Seq<IpAddressView>) -> bool {
    a.to_multiset() == b.to_multiset()
}

/// Whether a name is what stands before the first dot of the full name of a service.
pub open spec fn is_service_name(name: Seq<char>, fullname: Seq<char>) -> bool {
    &&& !name.contains('.')
    &&& name.len() <= fullname.len()
    &&& fullname.take(name.len() as int) == name
    &&& name.len() < fullname.len() ==> fullname[name.len() as int] == '.'
}

proof fn lemma_service_name(fullname: Seq<char>)
    ensures
        is_service_name(utils::service_name(fullname), fullname),
{
    text::lemma_span_before(fullname, '.');
    let n = text::span_before(fullname, '.');
    let name = fullname.take(n);
    let rest = fullname.skip(n);
    assert(fullname =~= name + rest);
    assert(!name.contains('.'));
    service_name_ends_at_the_first_dot(name, rest);
}

/// A commissioned device is found at the addresses and at the port that its service announces, under
/// the name of the service. It is known exactly where a device is remembered that was last seen at
/// this socket address, and is then the first of those.
pub proof fn commissioned_device_is_as_announced(record: ServiceRecordView, s: AppStateView)
    ensures
        ({
            let device = network::commissioned(record, s);
            let address = utils::socket_text(utils::preferred(device.addresses), device.port);
            &&& device.port == record.port
            &&& same_addresses(device.addresses, record.addresses)
            &&& is_service_name(device.display_name, record.fullname)
            &&& match device.known {
                Some(known) => exists|k: int|
                    0 <= k < s.devices.len() && #[trigger] s.devices[k] == known
                        && known.last_address == address && forall|i: int|
                        0 <= i < k ==> (#[trigger] s.devices[i]).last_address != address,
                None => forall|i: int|
                    0 <= i < s.devices.len() ==> (#[trigger] s.devices[i]).last_address != address,
            }
        }),
{
    utils::sorted_addresses_are_the_same_in_order(record.addresses);
    let addresses = utils::sorted_addresses(record.addresses);
    let address = utils::socket_text(utils::preferred(addresses), record.port);
    let p = |d: KnownDeviceView| d.last_address == address;
    lists::lemma_place(s.devices, p);
    let k = lists::place(s.devices, p);
    lemma_service_name(record.fullname);
    if k < s.devices.len() {
        assert(s.devices[k].last_address == address);
        assert forall|i: int| 0 <= i < k implies (#[trigger] s.devices[i]).last_address != address by {
            assert(!p(s.devices[i]));
        }
    } else {
        assert forall|i: int| 0 <= i < s.devices.len() implies (
        #[trigger] s.devices[i]).last_address != address by {
            assert(!p(s.devices[i]));
        }
    }
}

/// A device that has been found and is known is opened where it was remembered to be: at the address
/// under which the scan has found it.
pub proof fn found_device_is_opened_where_it_is<C>(
    a: AppView<C>,
    record: ServiceRecordView,
    s: AppStateView,
)
    requires
        flow_laws::selects_commissioned(a),
        a.commissioned[a.selected_commissioned as int] == network::commissioned(record, s),
        network::commissioned(record, s).known is Some,
    ensures
        app_model::task_result(flow_laws::press(a, KeyCode::Enter)).1 matches Ok(
            StepView::Open(opened),
        ) && s.devices.contains(opened) && opened.last_address == utils::socket_text(
            utils::preferred(utils::sorted_addresses(record.addresses)),
            record.port,
        ),
{
    commissioned_device_is_as_announced(record, s);
    flow_laws::selected_device_is_opened(a);
}

/// A device that waits to be commissioned is found at the addresses and at the port that its service
/// announces, with the discriminator, the vendor, the product and the type that it announces, under
/// the name that it announces or, where it announces none, under that of its service.
pub proof fn commissionable_device_is_as_announced(record: ServiceRecordView)
    ensures
        ({
            let device = network::commissionable(record);
            &&& device.port == record.port
            &&& same_addresses(device.addresses, record.addresses)
            &&& device.discriminator == record.discriminator
            &&& record.device_name matches Some(name) ==> device.display_name == name
            &&& record.device_name is None ==> is_service_name(
                device.display_name,
                record.fullname,
            )
            &&& (device.vendor_id, device.product_id) == utils::vendor_and_product(
                record.vendor_product,
            )
            &&& record.device_type is None ==> device.device_type == "Unknown"@
            &&& record.device_type matches Some(raw) ==> device.device_type == match utils::device_type_id(
                raw,
            ) {
                None => "Unknown"@,
                Some(id) => match trusted::device_type_name(id as u32) {
                    Some(name) => name,
                    None => "0x"@ + number::hex_text(id),
                },
            }
        }),
{
    utils::sorted_addresses_are_the_same_in_order(record.addresses);
    lemma_service_name(record.fullname);
    if let Some(raw) = record.device_type {
        if let Some(id) = utils::device_type_id(raw) {
            lemma_id_fits(raw);
        }
    }
}

proof fn lemma_id_fits(raw: Seq<char>)
    ensures
        utils::device_type_id(raw) matches Some(id) ==> id <= u32::MAX,
{
    number_laws::read_numbers_fit(raw, 10, u32::MAX as nat);
    number_laws::read_numbers_fit(raw.skip(2), 16, u32::MAX as nat);
}

/// What a scan has found is what was announced: as many devices as services, in the same order, each
/// as its own service announces it.
pub proof fn scan_finds_what_is_announced(
    s: &AppState,
    waiting: Vec<ServiceRecord>,
    operational: Vec<ServiceRecord>,
    r: (Vec<CommissionableDevice>, Vec<CommissionedDevice>),
)
    requires
        call_ensures(network::scan_network, (s, waiting, operational), r),
    ensures
        r.0@.len() == waiting@.len(),
        r.1@.len() == operational@.len(),
        forall|i: int|
            0 <= i < r.0@.len() ==> {
                &&& (#[trigger] r.0@[i]).port == waiting@[i].port
                &&& same_addresses(r.0@[i].addresses.deep_view(), waiting@[i].addresses.deep_view())
                &&& r.0@[i].discriminator.deep_view() == waiting@[i].discriminator.deep_view()
            },
        forall|i: int|
            0 <= i < r.1@.len() ==> {
                &&& (#[trigger] r.1@[i]).port == operational@[i].port
                &&& same_addresses(
                    r.1@[i].addresses.deep_view(),
                    operational@[i].addresses.deep_view(),
                )
                &&& is_service_name(r.1@[i].display_name@, operational@[i].fullname@)
            },
{
    let a = r.0.deep_view();
    let b = r.1.deep_view();
    assert(a.len() == waiting.deep_view().len());
    assert(b.len() == operational.deep_view().len());
    assert forall|i: int| 0 <= i < r.0@.len() implies {
        &&& (#[trigger] r.0@[i]).port == waiting@[i].port
        &&& same_addresses(r.0@[i].addresses.deep_view(), waiting@[i].addresses.deep_view())
        &&& r.0@[i].discriminator.deep_view() == waiting@[i].discriminator.deep_view()
    } by {
        let record = waiting.deep_view()[i];
        assert(record == waiting@[i].deep_view());
        assert(a[i] == r.0@[i].deep_view());
        assert(a[i] == network::commissionable(record));
        commissionable_device_is_as_announced(record);
    }
    assert forall|i: int| 0 <= i < r.1@.len() implies {
        &&& (#[trigger] r.1@[i]).port == operational@[i].port
        &&& same_addresses(r.1@[i].addresses.deep_view(), operational@[i].addresses.deep_view())
        &&& is_service_name(r.1@[i].display_name@, operational@[i].fullname@)
    } by {
        let record = operational.deep_view()[i];
        assert(record == operational@[i].deep_view());
        assert(b[i] == r.1@[i].deep_view());
        assert(b[i] == network::commissioned(record, s.deep_view()));
        commissioned_device_is_as_announced(record, s.deep_view());
    }
}

/// Turning a service into a commissioned device keeps the port and the addresses that it announces.
pub proof fn service_becomes_the_device_behind_it(
    record: ServiceRecord,
    s: &AppState,
    r: CommissionedDevice,
)
    requires
        call_ensures(network::to_commissioned_device, (record, s), r),
    ensures
        r.port == record.port,
        same_addresses(r.addresses.deep_view(), record.addresses.deep_view()),
        is_service_name(r.display_name@, record.fullname@),
{
    commissioned_device_is_as_announced(record.deep_view(), s.deep_view());
}

// Names of services

/// Whether a text is empty or begins with a dot.
pub open spec fn is_dotted(s: Seq<char>) -> bool {
    s.len() == 0 || s[0] == '.'
}

proof fn lemma_endings(name: Seq<char>, rest: Seq<char>, t: Seq<char>) -> (r: Seq<char>)
    requires
        !name.contains('.'),
        is_dotted(rest),
        t.len() > 0,
        t[0] == '.',
    ensures
        is_dotted(r),
        utils::without_endings(name + rest, t) == name + r,
    decreases rest.len(),
{
    let s = name + rest;
    if text::ends_with(s, t) {
        let at = s.len() - t.len();
        assert(s.subrange(at, at + t.len())[0] == s[at]);
        if at < name.len() {
            assert(name[at] == '.');
        }
        let shorter = rest.take(rest.len() - t.len());
        assert(s.take(at) =~= name + shorter);
        lemma_endings(name, shorter, t)
    } else {
        rest
    }
}

/// The name of a service is what stands before the first dot.
pub proof fn service_name_ends_at_the_first_dot(name: Seq<char>, rest: Seq<char>)
    requires
        !name.contains('.'),
        is_dotted(rest),
    ensures
        utils::service_name(name + rest) == name,
{
    reveal_strlit(".local.");
    reveal_strlit("._udp");
    reveal_strlit("._tcp");
    let a = lemma_endings(name, rest, ".local."@);
    let b = lemma_endings(name, a, "._udp"@);
    let c = lemma_endings(name, b, "._tcp"@);
    let s = name + c;
    text::lemma_span_before(s, '.');
    let n = text::span_before(s, '.');
    if n < name.len() {
        assert(name[n] == '.');
    } else if n > name.len() {
        assert(s[name.len() as int] == '.');
    }
    assert(s.take(name.len() as int) =~= name);
}

// Vendors and products

/// The vendor is what stands before the plus sign, the product what stands behind it; without a plus
/// sign there is a vendor alone.
pub proof fn vendor_and_product_are_parted(vendor: Seq<char>, product: Seq<char>)
    requires
        !vendor.contains('+'),
        !product.contains('+'),
    ensures
        utils::vendor_and_product(Some(vendor + seq!['+'] + product)) == (
            Some(vendor),
            Some(product),
        ),
        utils::vendor_and_product(Some(vendor)) == (Some(vendor), None::<Seq<char>>),
        utils::vendor_and_product(None) == (None::<Seq<char>>, None::<Seq<char>>),
{
    let s = vendor + seq!['+'] + product;
    let n = vendor.len() as int;
    text::lemma_span_before(vendor, '+');
    text::lemma_span_before(product, '+');
    text::lemma_span_before(s, '+');
    let k = text::span_before(s, '+');
    assert(s[n] == '+');
    if k < n {
        assert(vendor[k] == '+');
    }
    assert(k == n);
    assert(s.take(n) =~= vendor);
    assert(s.skip(n + 1) =~= product);
    if text::span_before(vendor, '+') < n {
        assert(vendor[text::span_before(vendor, '+')] == '+');
    }
    if text::span_before(product, '+') < product.len() {
        assert(product[text::span_before(product, '+')] == '+');
    }
    assert(text::pieces(product, '+') =~= seq![product]);
    assert(text::pieces(s, '+') =~= seq![vendor, product]);
}

proof fn lemma_first_piece(a: Seq<char>, b: Seq<char>)
    requires
        !a.contains('+'),
    ensures
        text::pieces(a + seq!['+'] + b, '+') == seq![a] + text::pieces(b, '+'),
{
    let s = a + seq!['+'] + b;
    let n = a.len() as int;
    text::lemma_span_before(s, '+');
    let k = text::span_before(s, '+');
    assert(s[n] == '+');
    if k < n {
        assert(a[k] == '+');
    }
    assert(s.take(n) =~= a);
    assert(s.skip(n + 1) =~= b);
}

/// What stands behind a second plus sign belongs neither to the vendor nor to the product.
pub proof fn more_than_a_product_is_left_out(
    vendor: Seq<char>,
    product: Seq<char>,
    more: Seq<char>,
    raw: &str,
    r: (Option<String>, Option<String>),
)
    requires
        !vendor.contains('+'),
        !product.contains('+'),
        raw@ == vendor + seq!['+'] + (product + seq!['+'] + more),
        call_ensures(utils::parse_vendor_product, (Some(raw),), r),
    ensures
        r.0 matches Some(v) && v@ == vendor,
        r.1 matches Some(p) && p@ == product,
{
    lemma_first_piece(vendor, product + seq!['+'] + more);
    lemma_first_piece(product, more);
}

// Browsing

/// A service that is resolved changes nothing of the others, and so does one that is removed: what is
/// known afterwards is the service that was resolved and what was known before under other names.
pub proof fn other_services_stay(
    found: Seq<ServiceRecordView>,
    event: BrowseEvent,
    other: ServiceRecordView,
)
    requires
        network::by_name(found),
    ensures
        match event {
            BrowseEvent::Resolved(record) => network::after_event(found, event) matches Ok(next) && (
            next.contains(other) <==> other == record.deep_view() || (found.contains(other)
                && other.fullname != record.fullname@)),
            BrowseEvent::Removed(fullname) => network::after_event(found, event) matches Ok(next) && (
            next.contains(other) <==> found.contains(other) && other.fullname != fullname@),
            BrowseEvent::Other | BrowseEvent::TimedOut => network::after_event(found, event) == Ok::<
                Seq<ServiceRecordView>,
                Seq<char>,
            >(found),
            BrowseEvent::Failed(message) => network::after_event(found, event) == Err::<
                Seq<ServiceRecordView>,
                Seq<char>,
            >(message@),
        },
{
    match event {
        BrowseEvent::Resolved(record) => {
            lemma_resolved(found, record.deep_view(), other);
        },
        BrowseEvent::Removed(fullname) => {
            lemma_removed(found, fullname@, other);
        },
        _ => {},
    }
}

proof fn lemma_name_once(found: Seq<ServiceRecordView>, i: int, j: int)
    requires
        network::by_name(found),
        0 <= i < found.len(),
        0 <= j < found.len(),
        found[i].fullname == found[j].fullname,
    ensures
        i == j,
{
    if i < j {
        text::order_is_total(found[i].fullname, found[j].fullname);
    } else if j < i {
        text::order_is_total(found[j].fullname, found[i].fullname);
    }
}

proof fn lemma_resolved(
    found: Seq<ServiceRecordView>,
    record: ServiceRecordView,
    other: ServiceRecordView,
)
    requires
        network::by_name(found),
    ensures
        network::with_service(found, record).contains(other) <==> other == record || (
        found.contains(other) && other.fullname != record.fullname),
{
    let next = network::with_service(found, record);
    let p = |r: ServiceRecordView| r.fullname == record.fullname;
    let q = |r: ServiceRecordView| text::comes_before(record.fullname, r.fullname);
    lists::lemma_place(found, p);
    lists::lemma_place(found, q);
    let k = network::place_of(found, record.fullname);
    let at = lists::place(found, q);
    if k < found.len() {
        assert(next[k] == record);
    } else {
        assert(next[at] == record);
    }
    if next.contains(other) && other != record {
        let i = choose|i: int| 0 <= i < next.len() && next[i] == other;
        if k < found.len() {
            assert(found[i] == other);
            if other.fullname == record.fullname {
                lemma_name_once(found, i, k);
            }
        } else {
            let j = if i < at {
                i
            } else {
                i - 1
            };
            assert(found[j] == other);
            assert(!p(found[j]));
        }
    }
    if found.contains(other) && other.fullname != record.fullname {
        let i = choose|i: int| 0 <= i < found.len() && found[i] == other;
        if k < found.len() {
            assert(next[i] == other);
        } else {
            assert(next[if i < at {
                i
            } else {
                i + 1
            }] == other);
        }
    }
}

proof fn lemma_removed(
    found: Seq<ServiceRecordView>,
    fullname: Seq<char>,
    other: ServiceRecordView,
)
    requires
        network::by_name(found),
    ensures
        network::without_service(found, fullname).contains(other) <==> found.contains(other)
            && other.fullname != fullname,
{
    let next = network::without_service(found, fullname);
    let p = |r: ServiceRecordView| r.fullname == fullname;
    lists::lemma_place(found, p);
    let k = network::place_of(found, fullname);
    if next.contains(other) {
        let i = choose|i: int| 0 <= i < next.len() && next[i] == other;
        let j = if k < found.len() && i >= k {
            i + 1
        } else {
            i
        };
        assert(found[j] == other);
        if other.fullname == fullname {
            if k < found.len() {
                lemma_name_once(found, j, k);
            } else {
                assert(!p(found[j]));
            }
        }
    }
    if found.contains(other) && other.fullname != fullname {
        let i = choose|i: int| 0 <= i < found.len() && found[i] == other;
        if k < found.len() && i > k {
            assert(next[i - 1] == other);
        } else {
            assert(next[i] == other);
        }
    }
}

/// A scan ends after three seconds. Until then it waits for every event, a quarter of a second at
/// most, and never beyond its end.
pub proof fn scan_ends_in_time(elapsed: u64)
    ensures
        match network::time_to_wait(elapsed) {
            Some(wait) => 0 < wait <= 250_000_000 && elapsed + wait <= 3_000_000_000 && (wait
                < 250_000_000 ==> elapsed + wait == 3_000_000_000),
            None => elapsed >= 3_000_000_000,
        },
{
}

// Listings

/// Whether the key of a property has a description.
pub open spec fn is_described(key: Seq<char>) -> bool {
    key == "D"@ || key == "V"@ || key == "P"@ || key == "CM"@ || key == "CRA"@ || key == "T"@
}

/// A property is listed with its key, its value and what the key stands for, in brackets; of another
/// key nothing more is said.
pub proof fn properties_are_described(key: &str, value: &str, described: String, r: String)
    requires
        call_ensures(listing::property_description, (key,), described),
        call_ensures(listing::property_line, (key, value), r),
    ensures
        r@ == "    - "@ + key@ + ": "@ + value@ + described@,
        described@.len() > 0 <==> is_described(key@),
        is_described(key@) ==> described@.take(2) == " ("@ && described@.last() == ')',
        key@ == "D"@ ==> described@ == " (Discriminator)"@,
        key@ == "V"@ ==> described@ == " (Vendor ID)"@,
        key@ == "P"@ ==> described@ == " (Product ID)"@,
        key@ == "CM"@ ==> described@ == " (Commissioning Mode)"@,
        key@ == "CRA"@ ==> described@ == " (Commissioning Rotating ID)"@,
        key@ == "T"@ ==> described@ == " (TCP Supported)"@,
{
    reveal_strlit("");
    reveal_strlit(" (");
    reveal_strlit("D");
    reveal_strlit("V");
    reveal_strlit("P");
    reveal_strlit("CM");
    reveal_strlit("CRA");
    reveal_strlit("T");
    reveal_strlit(" (Discriminator)");
    reveal_strlit(" (Vendor ID)");
    reveal_strlit(" (Product ID)");
    reveal_strlit(" (Commissioning Mode)");
    reveal_strlit(" (Commissioning Rotating ID)");
    reveal_strlit(" (TCP Supported)");
    assert("D"@[0] != "V"@[0] && "D"@[0] != "P"@[0] && "D"@[0] != "T"@[0]);
    assert("V"@[0] != "P"@[0] && "V"@[0] != "T"@[0] && "P"@[0] != "T"@[0]);
    assert("CM"@.len() == 2 && "CRA"@.len() == 3);
    assert(is_described(key@) ==> described@.take(2) =~= " ("@);
}

/// How long a scan waits is what is left of it, a quarter of a second at most.
pub proof fn waiting_ends_with_the_scan(elapsed: u64, r: Option<u64>)
    requires
        call_ensures(network::wait_time, (elapsed,), r),
    ensures
        r is Some <==> elapsed < 3_000_000_000,
        r matches Some(wait) ==> 0 < wait <= 250_000_000 && elapsed + wait <= 3_000_000_000 && (wait
            < 250_000_000 ==> elapsed + wait == 3_000_000_000),
{
    scan_ends_in_time(elapsed);
}

/// Devices that wait announce themselves over UDP, commissioned ones over TCP, and neither is taken for
/// the other.
pub proof fn services_are_told_apart(waiting: String, operational: String)
    requires
        call_ensures(network::commissionable_service, (), waiting),
        call_ensures(network::commissioned_service, (), operational),
    ensures
        waiting@ == "_matterc._udp.local."@,
        operational@ == "_matter._tcp.local."@,
        waiting@ != operational@,
{
    reveal_strlit("_matterc._udp.local.");
    reveal_strlit("_matter._tcp.local.");
    assert("_matterc._udp.local."@[7] != "_matter._tcp.local."@[7]);
}

} // verus!
