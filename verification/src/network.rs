//! The devices on the local network, from what they announce.

use crate::lists;
use crate::state::{AppState, AppStateView, KnownDevice, KnownDeviceView};
use crate::text;
use crate::text::{precedes, same_text};
use crate::trusted;
use crate::types::{
    CommissionableDevice, CommissionableDeviceView, CommissionedDevice, CommissionedDeviceView,
    IpAddress, IpAddressView,
};
use crate::utils;
use crate::utils::{
    first_socket_addr, parse_device_type_name, parse_vendor_product, sort_ips, trim_service_name,
};
use vstd::prelude::*;

verus! {

/// How long a scan takes, in nanoseconds.
pub const SCAN_TIMEOUT: u64 = 3_000_000_000;

/// How long a scan waits for one event, in nanoseconds.
pub const EVENT_TIMEOUT: u64 = 250_000_000;

/// A service that a device announces, with those of its properties that are looked at: the name of
/// the device, its type, its vendor and product, and its discriminator.
#[derive(Debug)]
pub struct ServiceRecord {
    pub fullname: String,
    pub addresses: Vec<IpAddress>,
    pub port: u16,
    pub device_name: Option<String>,
    pub device_type: Option<String>,
    pub vendor_product: Option<String>,
    pub discriminator: Option<String>,
}

/// The contents of a [`ServiceRecord`].
#[verifier::ext_equal]
pub struct ServiceRecordView {
    pub fullname: Seq<char>,
    pub addresses: Seq<IpAddressView>,
    pub port: u16,
    pub device_name: Option<Seq<char>>,
    pub device_type: Option<Seq<char>>,
    pub vendor_product: Option<Seq<char>>,
    pub discriminator: Option<Seq<char>>,
}

impl DeepView for ServiceRecord {
    type V = ServiceRecordView;

    open spec fn deep_view(&self) -> ServiceRecordView {
        ServiceRecordView {
            fullname: self.fullname@,
            addresses: self.addresses.deep_view(),
            port: self.port,
            device_name: self.device_name.deep_view(),
            device_type: self.device_type.deep_view(),
            vendor_product: self.vendor_product.deep_view(),
            discriminator: self.discriminator.deep_view(),
        }
    }
}

// Browsing

/// What happens while services are browsed.
pub enum BrowseEvent {
    Resolved(ServiceRecord),
    Removed(String),
    Other,
    TimedOut,
    Failed(String),
}

/// How long to wait for the next event, so many nanoseconds after the start; not at all when the
/// time is up.
pub open spec fn time_to_wait(elapsed: u64) -> Option<u64> {
    if elapsed >= SCAN_TIMEOUT {
        None
    } else if SCAN_TIMEOUT - elapsed < EVENT_TIMEOUT {
        Some((SCAN_TIMEOUT - elapsed) as u64)
    } else {
        Some(EVENT_TIMEOUT)
    }
}

/// How long to wait for the next event, so many nanoseconds after the start; not at all when the
/// time is up.
pub fn wait_time(elapsed: u64) -> (r: Option<u64>)
    ensures
        r == time_to_wait(elapsed),
{
    if elapsed >= SCAN_TIMEOUT {
        None
    } else if SCAN_TIMEOUT - elapsed < EVENT_TIMEOUT {
        Some(SCAN_TIMEOUT - elapsed)
    } else {
        Some(EVENT_TIMEOUT)
    }
}

/// Whether services stand in the order of their names, each name once.
pub open spec fn by_name(found: Seq<ServiceRecordView>) -> bool {
    forall|i: int, j: int|
        0 <= i < j < found.len() ==> text::comes_before(
            (#[trigger] found[i]).fullname,
            (#[trigger] found[j]).fullname,
        )
}

/// Where a service of this name stands; the number of services where none has it.
pub open spec fn place_of(found: Seq<ServiceRecordView>, fullname: Seq<char>) -> int {
    lists::place(found, |r: ServiceRecordView| r.fullname == fullname)
}

/// The services with one more, or with another one in the place of that with its name.
pub open spec fn with_service(
    found: Seq<ServiceRecordView>,
    record: ServiceRecordView,
) -> Seq<ServiceRecordView> {
    let k = place_of(found, record.fullname);
    if k < found.len() {
        found.update(k, record)
    } else {
        found.insert(
            lists::place(
                found,
                |r: ServiceRecordView| text::comes_before(record.fullname, r.fullname),
            ),
            record,
        )
    }
}

/// The services without that of this name.
pub open spec fn without_service(found: Seq<ServiceRecordView>, fullname: Seq<char>) -> Seq<
    ServiceRecordView,
> {
    let k = place_of(found, fullname);
    if k < found.len() {
        found.remove(k)
    } else {
        found
    }
}

/// The services that are known after an event; an error where browsing has failed.
pub open spec fn after_event(found: Seq<ServiceRecordView>, event: BrowseEvent) -> Result<
    Seq<ServiceRecordView>,
    Seq<char>,
> {
    match event {
        BrowseEvent::Resolved(record) => Ok(with_service(found, record.deep_view())),
        BrowseEvent::Removed(fullname) => Ok(without_service(found, fullname@)),
        BrowseEvent::Other => Ok(found),
        BrowseEvent::TimedOut => Ok(found),
        BrowseEvent::Failed(message) => Err(message@),
    }
}

fn find_service(found: &Vec<ServiceRecord>, fullname: &str) -> (r: usize)
    ensures
        r == place_of(found.deep_view(), fullname@),
        r <= found@.len(),
{
    let ghost all = found.deep_view();
    let ghost p = |r: ServiceRecordView| r.fullname == fullname@;
    let mut i: usize = 0;
    while i < found.len()
        invariant
            i <= found.len(),
            all == found.deep_view(),
            p == (|r: ServiceRecordView| r.fullname == fullname@),
            forall|j: int| 0 <= j < i ==> !p(#[trigger] all[j]),
        decreases found.len() - i,
    {
        assert(all[i as int] == found[i as int].deep_view());
        if same_text(found[i].fullname.as_str(), fullname) {
            proof {
                lists::lemma_place_is(all, p, i as int);
            }
            return i;
        }
        i += 1;
    }
    proof {
        lists::lemma_place_is(all, p, all.len() as int);
    }
    i
}

fn insertion_place(found: &Vec<ServiceRecord>, fullname: &str) -> (r: usize)
    ensures
        r == lists::place(
            found.deep_view(),
            |r: ServiceRecordView| text::comes_before(fullname@, r.fullname),
        ),
        r <= found@.len(),
{
    let ghost all = found.deep_view();
    let ghost p = |r: ServiceRecordView| text::comes_before(fullname@, r.fullname);
    let mut i: usize = 0;
    while i < found.len()
        invariant
            i <= found.len(),
            all == found.deep_view(),
            p == (|r: ServiceRecordView| text::comes_before(fullname@, r.fullname)),
            forall|j: int| 0 <= j < i ==> !p(#[trigger] all[j]),
        decreases found.len() - i,
    {
        assert(all[i as int] == found[i as int].deep_view());
        if precedes(fullname, found[i].fullname.as_str()) {
            proof {
                lists::lemma_place_is(all, p, i as int);
            }
            return i;
        }
        i += 1;
    }
    proof {
        lists::lemma_place_is(all, p, all.len() as int);
    }
    i
}

/// Takes note of what happens while services are browsed.
pub fn browse_devices(found: &mut Vec<ServiceRecord>, event: BrowseEvent) -> (r: Result<
    (),
    String,
>)
    ensures
        match r {
            Ok(()) => after_event(old(found).deep_view(), event) == Ok::<
                Seq<ServiceRecordView>,
                Seq<char>,
            >(final(found).deep_view()),
            Err(message) => after_event(old(found).deep_view(), event) == Err::<
                Seq<ServiceRecordView>,
                Seq<char>,
            >(message@) && *final(found) == *old(found),
        },
{
    let ghost all = found.deep_view();
    match event {
        BrowseEvent::Resolved(record) => {
            let ghost view = record.deep_view();
            let k: usize = find_service(found, record.fullname.as_str());
            if k < found.len() {
                found.set(k, record);
                assert(found.deep_view() =~= all.update(k as int, view));
            } else {
                let at: usize = insertion_place(found, record.fullname.as_str());
                found.insert(at, record);
                assert(found.deep_view() =~= all.insert(at as int, view));
            }
            Ok(())
        },
        BrowseEvent::Removed(fullname) => {
            let k: usize = find_service(found, fullname.as_str());
            if k < found.len() {
                found.remove(k);
                assert(found.deep_view() =~= all.remove(k as int));
            }
            Ok(())
        },
        BrowseEvent::Other => Ok(()),
        BrowseEvent::TimedOut => Ok(()),
        BrowseEvent::Failed(message) => Err(message),
    }
}

/// Whatever happens, the services stand in the order of their names, each name once; the service
/// that was resolved last under a name is the one that is known under it, and one that was removed
/// is not known any more.
pub proof fn services_stay_in_order(found: Seq<ServiceRecordView>, event: BrowseEvent)
    requires
        by_name(found),
    ensures
        after_event(found, event) matches Ok(next) ==> by_name(next),
        event matches BrowseEvent::Resolved(record) ==> {
            let next = with_service(found, record.deep_view());
            next.contains(record.deep_view())
        },
        event matches BrowseEvent::Removed(fullname) ==> {
            let next = without_service(found, fullname@);
            place_of(next, fullname@) == next.len()
        },
{
    match event {
        BrowseEvent::Resolved(record) => {
            lemma_with_service(found, record.deep_view());
        },
        BrowseEvent::Removed(fullname) => {
            lemma_without_service(found, fullname@);
        },
        _ => {},
    }
}

proof fn lemma_with_service(found: Seq<ServiceRecordView>, record: ServiceRecordView)
    requires
        by_name(found),
    ensures
        by_name(with_service(found, record)),
        with_service(found, record).contains(record),
{
    let name = record.fullname;
    let p = |r: ServiceRecordView| r.fullname == name;
    let q = |r: ServiceRecordView| text::comes_before(name, r.fullname);
    let k = place_of(found, name);
    lists::lemma_place(found, p);
    lists::lemma_place(found, q);
    let next = with_service(found, record);
    if k < found.len() {
        assert(p(found[k]));
        assert(next[k] == record);
        assert forall|i: int, j: int| 0 <= i < j < next.len() implies text::comes_before(
            (#[trigger] next[i]).fullname,
            (#[trigger] next[j]).fullname,
        ) by {
            assert(next[i].fullname == found[i].fullname);
            assert(next[j].fullname == found[j].fullname);
        }
    } else {
        let at = lists::place(found, q);
        assert(next[at] == record);
        assert forall|i: int, j: int| 0 <= i < j < next.len() implies text::comes_before(
            (#[trigger] next[i]).fullname,
            (#[trigger] next[j]).fullname,
        ) by {
            if j == at {
                assert(!q(found[i]));
                assert(!p(found[i]));
                text::order_is_total(found[i].fullname, name);
            } else if i == at {
                assert(q(found[at]));
                if at < j - 1 {
                    assert(text::comes_before(found[at].fullname, found[j - 1].fullname));
                    text::order_is_transitive(name, found[at].fullname, found[j - 1].fullname);
                }
            } else {
                let m = if i < at {
                    i
                } else {
                    i - 1
                };
                let n = if j < at {
                    j
                } else {
                    j - 1
                };
                assert(text::comes_before(found[m].fullname, found[n].fullname));
            }
        }
    }
}

proof fn lemma_without_service(found: Seq<ServiceRecordView>, name: Seq<char>)
    requires
        by_name(found),
    ensures
        by_name(without_service(found, name)),
        place_of(without_service(found, name), name) == without_service(found, name).len(),
{
    let p = |r: ServiceRecordView| r.fullname == name;
    let k = place_of(found, name);
    lists::lemma_place(found, p);
    let next = without_service(found, name);
    if k < found.len() {
        assert(p(found[k]));
        assert forall|i: int, j: int| 0 <= i < j < next.len() implies text::comes_before(
            (#[trigger] next[i]).fullname,
            (#[trigger] next[j]).fullname,
        ) by {
            let m = if i < k {
                i
            } else {
                i + 1
            };
            let n = if j < k {
                j
            } else {
                j + 1
            };
            assert(text::comes_before(found[m].fullname, found[n].fullname));
        }
        assert forall|i: int| 0 <= i < next.len() implies !p(#[trigger] next[i]) by {
            if i < k {
                assert(!p(found[i]));
            } else {
                assert(text::comes_before(found[k].fullname, found[i + 1].fullname));
                text::order_is_total(found[k].fullname, found[i + 1].fullname);
            }
        }
    }
    lists::lemma_place_is(next, p, next.len() as int);
}

// Devices

/// The device that waits to be commissioned behind a service.
pub open spec fn commissionable(record: ServiceRecordView) -> CommissionableDeviceView {
    let (vendor_id, product_id) = utils::vendor_and_product(record.vendor_product);
    CommissionableDeviceView {
        display_name: match record.device_name {
            Some(name) => name,
            None => utils::service_name(record.fullname),
        },
        device_type: match announced_type(record.device_type) {
            Some(name) => name,
            None => "Unknown"@,
        },
        addresses: utils::sorted_addresses(record.addresses),
        port: record.port,
        discriminator: record.discriminator,
        vendor_id,
        product_id,
    }
}

/// The device type that a service announces, as it is shown.
pub open spec fn announced_type(raw: Option<Seq<char>>) -> Option<Seq<char>> {
    match raw {
        Some(raw) => match utils::device_type_id(raw) {
            Some(id) => Some(
                utils::device_type_text(id as u32, trusted::device_type_name(id as u32)),
            ),
            None => None,
        },
        None => None,
    }
}

/// The device that waits to be commissioned behind a service.
pub fn to_commissionable_device(record: ServiceRecord) -> (r: CommissionableDevice)
    ensures
        r.deep_view() == commissionable(record.deep_view()),
{
    let display_name = match record.device_name {
        Some(name) => name,
        None => trim_service_name(record.fullname.as_str()),
    };
    let device_type = match &record.device_type {
        Some(raw) => match parse_device_type_name(raw.as_str()) {
            Some(name) => name,
            None => "Unknown".to_string(),
        },
        None => "Unknown".to_string(),
    };
    let (vendor_id, product_id) = match &record.vendor_product {
        Some(raw) => parse_vendor_product(Some(raw.as_str())),
        None => parse_vendor_product(None),
    };
    CommissionableDevice {
        display_name,
        device_type,
        addresses: sort_ips(record.addresses),
        port: record.port,
        discriminator: record.discriminator,
        vendor_id,
        product_id,
    }
}

/// The known device that was last seen at an address: the first, if there are several.
pub open spec fn known_at(devices: Seq<KnownDeviceView>, address: Seq<char>) -> Option<
    KnownDeviceView,
> {
    let k = lists::place(devices, |d: KnownDeviceView| d.last_address == address);
    if k < devices.len() {
        Some(devices[k])
    } else {
        None
    }
}

fn find_known(devices: &Vec<KnownDevice>, address: &str) -> (r: Option<KnownDevice>)
    ensures
        r.deep_view() == known_at(devices.deep_view(), address@),
{
    let ghost all = devices.deep_view();
    let ghost p = |d: KnownDeviceView| d.last_address == address@;
    let mut i: usize = 0;
    while i < devices.len()
        invariant
            i <= devices.len(),
            all == devices.deep_view(),
            p == (|d: KnownDeviceView| d.last_address == address@),
            forall|j: int| 0 <= j < i ==> !p(#[trigger] all[j]),
        decreases devices.len() - i,
    {
        assert(all[i as int] == devices[i as int].deep_view());
        if same_text(devices[i].last_address.as_str(), address) {
            proof {
                lists::lemma_place_is(all, p, i as int);
            }
            return Some(devices[i].clone());
        }
        i += 1;
    }
    proof {
        lists::lemma_place_is(all, p, all.len() as int);
    }
    None
}

/// The commissioned device behind a service.
pub open spec fn commissioned(
    record: ServiceRecordView,
    state: AppStateView,
) -> CommissionedDeviceView {
    let addresses = utils::sorted_addresses(record.addresses);
    CommissionedDeviceView {
        display_name: utils::service_name(record.fullname),
        addresses,
        port: record.port,
        known: known_at(
            state.devices,
            utils::socket_text(utils::preferred(addresses), record.port),
        ),
    }
}

/// The commissioned device behind a service.
pub fn to_commissioned_device(record: ServiceRecord, state: &AppState) -> (r: CommissionedDevice)
    ensures
        r.deep_view() == commissioned(record.deep_view(), state.deep_view()),
{
    let addresses = sort_ips(record.addresses);
    let address = first_socket_addr(&addresses, record.port);
    let known = find_known(&state.devices, address.as_str());
    CommissionedDevice {
        display_name: trim_service_name(record.fullname.as_str()),
        addresses,
        port: record.port,
        known,
    }
}

/// The services that are browsed for devices that wait to be commissioned.
pub fn commissionable_service() -> (r: String)
    ensures
        r@ == "_matterc._udp.local."@,
{
    "_matterc._udp.local.".to_string()
}

/// The services that are browsed for commissioned devices.
pub fn commissioned_service() -> (r: String)
    ensures
        r@ == "_matter._tcp.local."@,
{
    "_matter._tcp.local.".to_string()
}

/// The devices behind the services that a scan has found.
pub fn scan_network(
    state: &AppState,
    waiting: Vec<ServiceRecord>,
    operational: Vec<ServiceRecord>,
) -> (r: (Vec<CommissionableDevice>, Vec<CommissionedDevice>))
    ensures
        r.0.deep_view() == waiting.deep_view().map_values(
            |record: ServiceRecordView| commissionable(record),
        ),
        r.1.deep_view() == operational.deep_view().map_values(
            |record: ServiceRecordView| commissioned(record, state.deep_view()),
        ),
{
    let ghost first = waiting.deep_view();
    let ghost second = operational.deep_view();
    let ghost f = |record: ServiceRecordView| commissionable(record);
    let ghost g = |record: ServiceRecordView| commissioned(record, state.deep_view());
    let mut a: Vec<CommissionableDevice> = Vec::new();
    let mut rest: Vec<ServiceRecord> = waiting;
    assert(a.deep_view() + rest.deep_view().map_values(f) =~= first.map_values(f));
    while rest.len() > 0
        invariant
            f == (|record: ServiceRecordView| commissionable(record)),
            a.deep_view() + rest.deep_view().map_values(f) == first.map_values(f),
        decreases rest.len(),
    {
        let ghost done = a.deep_view();
        let ghost before = rest.deep_view();
        assert(before.len() == rest@.len());
        let record = rest.remove(0);
        assert(before[0] == record.deep_view());
        assert(rest.deep_view() =~= before.drop_first());
        a.push(to_commissionable_device(record));
        assert(a.deep_view() =~= done.push(f(before[0])));
        assert(a.deep_view() + rest.deep_view().map_values(f) =~= done + before.map_values(f));
    }
    assert(rest.deep_view().map_values(f) =~= seq![]);
    assert(a.deep_view() =~= first.map_values(f));
    let mut b: Vec<CommissionedDevice> = Vec::new();
    let mut rest: Vec<ServiceRecord> = operational;
    assert(b.deep_view() + rest.deep_view().map_values(g) =~= second.map_values(g));
    while rest.len() > 0
        invariant
            g == (|record: ServiceRecordView| commissioned(record, state.deep_view())),
            b.deep_view() + rest.deep_view().map_values(g) == second.map_values(g),
        decreases rest.len(),
    {
        let ghost done = b.deep_view();
        let ghost before = rest.deep_view();
        assert(before.len() == rest@.len());
        let record = rest.remove(0);
        assert(before[0] == record.deep_view());
        assert(rest.deep_view() =~= before.drop_first());
        b.push(to_commissioned_device(record, state));
        assert(b.deep_view() =~= done.push(g(before[0])));
        assert(b.deep_view() + rest.deep_view().map_values(g) =~= done + before.map_values(g));
    }
    assert(rest.deep_view().map_values(g) =~= seq![]);
    assert(b.deep_view() =~= second.map_values(g));
    (a, b)
}

} // verus!
