//! The network interface on which the bridge announces itself.

use crate::lists;
use crate::text;
use crate::text::{precedes, same_text};
use vstd::prelude::*;

verus! {

/// An address of an interface.
#[derive(Clone, Copy, Debug)]
pub enum InterfaceAddress {
    V4([u8; 4]),
    V6([u8; 16]),
}

/// One address of a network interface.
#[derive(Debug)]
pub struct NetworkInterface {
    pub name: String,
    pub index: Option<u32>,
    pub address: InterfaceAddress,
}

/// An interface, with the addresses that would be used of it.
#[derive(Debug)]
pub struct Candidate {
    pub name: String,
    pub ipv4: Option<[u8; 4]>,
    pub ipv6: Option<[u8; 16]>,
    pub index: Option<u32>,
}

/// The contents of a [`NetworkInterface`].
#[verifier::ext_equal]
pub struct NetworkInterfaceView {
    pub name: Seq<char>,
    pub index: Option<u32>,
    pub address: InterfaceAddress,
}

/// The contents of a [`Candidate`].
#[verifier::ext_equal]
pub struct CandidateView {
    pub name: Seq<char>,
    pub ipv4: Option<[u8; 4]>,
    pub ipv6: Option<[u8; 16]>,
    pub index: Option<u32>,
}

impl DeepView for NetworkInterface {
    type V = NetworkInterfaceView;

    open spec fn deep_view(&self) -> NetworkInterfaceView {
        NetworkInterfaceView { name: self.name@, index: self.index, address: self.address }
    }
}

impl DeepView for Candidate {
    type V = CandidateView;

    open spec fn deep_view(&self) -> CandidateView {
        CandidateView {
            name: self.name@,
            ipv4: self.ipv4,
            ipv6: self.ipv6,
            index: self.index,
        }
    }
}

// Addresses

/// Whether an address is one of those for private use: `10.0.0.0/8`, `172.16.0.0/12` and
/// `192.168.0.0/16`.
pub open spec fn private_v4(ip: [u8; 4]) -> bool {
    ||| ip[0] == 10
    ||| ip[0] == 172 && 16 <= ip[1] < 32
    ||| ip[0] == 192 && ip[1] == 168
}

/// Whether an address is good on its link only: `169.254.0.0/16`.
pub open spec fn link_local_v4(ip: [u8; 4]) -> bool {
    ip[0] == 169 && ip[1] == 254
}

/// Whether an address is `0.0.0.0`.
pub open spec fn unspecified_v4(ip: [u8; 4]) -> bool {
    forall|i: int| 0 <= i < 4 ==> #[trigger] ip[i] == 0
}

/// Whether an address is one of this machine: `127.0.0.0/8`.
pub open spec fn loopback_v4(ip: [u8; 4]) -> bool {
    ip[0] == 127
}

/// Whether an address is good on its link only: `fe80::/10`.
pub open spec fn link_local_v6(ip: [u8; 16]) -> bool {
    ip[0] == 0xfe && 0x80 <= ip[1] < 0xc0
}

/// Whether an address is `::`.
pub open spec fn unspecified_v6(ip: [u8; 16]) -> bool {
    forall|i: int| 0 <= i < 16 ==> #[trigger] ip[i] == 0
}

/// Whether an address is that of this machine: `::1`.
pub open spec fn loopback_v6(ip: [u8; 16]) -> bool {
    ip[15] == 1 && forall|i: int| 0 <= i < 15 ==> #[trigger] ip[i] == 0
}

fn is_private(ip: [u8; 4]) -> (r: bool)
    ensures
        r == private_v4(ip),
{
    ip[0] == 10 || (ip[0] == 172 && 16 <= ip[1] && ip[1] < 32) || (ip[0] == 192 && ip[1] == 168)
}

fn is_link_local(ip: [u8; 4]) -> (r: bool)
    ensures
        r == link_local_v4(ip),
{
    ip[0] == 169 && ip[1] == 254
}

fn is_unspecified_v4(ip: [u8; 4]) -> (r: bool)
    ensures
        r == unspecified_v4(ip),
{
    let r = ip[0] == 0 && ip[1] == 0 && ip[2] == 0 && ip[3] == 0;
    if r {
        assert forall|i: int| 0 <= i < 4 implies #[trigger] ip[i] == 0 by {
            assert(i == 0 || i == 1 || i == 2 || i == 3);
        }
    }
    r
}

fn is_unicast_link_local(ip: [u8; 16]) -> (r: bool)
    ensures
        r == link_local_v6(ip),
{
    ip[0] == 0xfe && 0x80 <= ip[1] && ip[1] < 0xc0
}

fn zeros(ip: [u8; 16], n: usize) -> (r: bool)
    requires
        n <= 16,
    ensures
        r == forall|i: int| 0 <= i < n ==> #[trigger] ip[i] == 0,
{
    let mut k: usize = 0;
    while k < n
        invariant
            k <= n <= 16,
            forall|i: int| 0 <= i < k ==> #[trigger] ip[i] == 0,
        decreases n - k,
    {
        if ip[k] != 0 {
            return false;
        }
        k += 1;
    }
    true
}

/// Whether an address of an interface is that of this machine.
pub open spec fn loopback(address: InterfaceAddress) -> bool {
    match address {
        InterfaceAddress::V4(ip) => loopback_v4(ip),
        InterfaceAddress::V6(ip) => loopback_v6(ip),
    }
}

fn is_loopback(address: InterfaceAddress) -> (r: bool)
    ensures
        r == loopback(address),
{
    match address {
        InterfaceAddress::V4(ip) => ip[0] == 127,
        InterfaceAddress::V6(ip) => ip[15] == 1 && zeros(ip, 15),
    }
}

// Candidates

/// How good a candidate is: an address of either version counts, a private one or one that is good
/// on more than its link counts more for version 4, one for the link counts more for version 6.
pub open spec fn score_of(c: CandidateView) -> int {
    let v4: int = match c.ipv4 {
        Some(ip) => 10 + (if private_v4(ip) {
            20int
        } else {
            0
        }) + (if link_local_v4(ip) {
            0int
        } else {
            5
        }),
        None => 0,
    };
    let v6: int = match c.ipv6 {
        Some(ip) => 10 + (if link_local_v6(ip) {
            20int
        } else if unspecified_v6(ip) {
            0
        } else {
            5
        }),
        None => 0,
    };
    v4 + v6
}

/// How good a candidate is.
pub fn score(c: &Candidate) -> (r: i32)
    ensures
        r == score_of(c.deep_view()),
{
    let mut score: i32 = 0;
    if let Some(ip) = c.ipv4 {
        score += 10;
        if is_private(ip) {
            score += 20;
        }
        if !is_link_local(ip) {
            score += 5;
        }
    }
    if let Some(ip) = c.ipv6 {
        score += 10;
        if is_unicast_link_local(ip) {
            score += 20;
        } else if !zeros(ip, 16) {
            score += 5;
        }
    }
    score
}

/// A candidate that has nothing yet but what its first address tells.
pub open spec fn new_candidate(i: NetworkInterfaceView) -> CandidateView {
    CandidateView { name: i.name, ipv4: None, ipv6: None, index: i.index }
}

/// A candidate with one more of its addresses: the first of version 4 is kept, and the first of
/// version 6 unless one for the link comes later.
pub open spec fn with_address(c: CandidateView, i: NetworkInterfaceView) -> CandidateView {
    let index = match c.index {
        Some(index) => Some(index),
        None => i.index,
    };
    match i.address {
        InterfaceAddress::V4(ip) => CandidateView {
            index,
            ipv4: if c.ipv4 is None && !unspecified_v4(ip) {
                Some(ip)
            } else {
                c.ipv4
            },
            ..c
        },
        InterfaceAddress::V6(ip) => CandidateView {
            index,
            ipv6: if !unspecified_v6(ip) && (match c.ipv6 {
                None => true,
                Some(current) => !link_local_v6(current) && link_local_v6(ip),
            }) {
                Some(ip)
            } else {
                c.ipv6
            },
            ..c
        },
    }
}

fn take_address(c: &mut Candidate, i: &NetworkInterface)
    ensures
        final(c).deep_view() == with_address(old(c).deep_view(), i.deep_view()),
{
    if c.index.is_none() {
        c.index = i.index;
    }
    match i.address {
        InterfaceAddress::V4(ip) => {
            if c.ipv4.is_none() && !is_unspecified_v4(ip) {
                c.ipv4 = Some(ip);
            }
        },
        InterfaceAddress::V6(ip) => {
            let prefer_new = match c.ipv6 {
                None => true,
                Some(current) => !is_unicast_link_local(current) && is_unicast_link_local(ip),
            };
            if prefer_new && !zeros(ip, 16) {
                c.ipv6 = Some(ip);
            }
        },
    }
}

/// Where the candidate with a name stands.
pub open spec fn place_of(candidates: Seq<CandidateView>, name: Seq<char>) -> int {
    lists::place(candidates, |c: CandidateView| c.name == name)
}

/// The candidates, in the order of their names, with one more address of an interface. The
/// addresses of this machine are passed over.
pub open spec fn with_interface(
    candidates: Seq<CandidateView>,
    i: NetworkInterfaceView,
) -> Seq<CandidateView> {
    if loopback(i.address) {
        candidates
    } else {
        let k = place_of(candidates, i.name);
        if k < candidates.len() {
            candidates.update(k, with_address(candidates[k], i))
        } else {
            candidates.insert(
                lists::place(candidates, |c: CandidateView| text::comes_before(i.name, c.name)),
                with_address(new_candidate(i), i),
            )
        }
    }
}

/// The candidates among interfaces.
pub open spec fn candidates_of(interfaces: Seq<NetworkInterfaceView>) -> Seq<CandidateView>
    decreases interfaces.len(),
{
    if interfaces.len() == 0 {
        seq![]
    } else {
        with_interface(candidates_of(interfaces.drop_last()), interfaces.last())
    }
}

fn find_candidate(candidates: &Vec<Candidate>, name: &str) -> (r: usize)
    ensures
        r == place_of(candidates.deep_view(), name@),
        r <= candidates@.len(),
{
    let ghost all = candidates.deep_view();
    let ghost p = |c: CandidateView| c.name == name@;
    let mut i: usize = 0;
    while i < candidates.len()
        invariant
            i <= candidates.len(),
            all == candidates.deep_view(),
            p == (|c: CandidateView| c.name == name@),
            forall|j: int| 0 <= j < i ==> !p(#[trigger] all[j]),
        decreases candidates.len() - i,
    {
        assert(all[i as int] == candidates[i as int].deep_view());
        if same_text(candidates[i].name.as_str(), name) {
            proof {
                lists::lemma_place_is(all, p, i as int);
            }
            return i;
        }
        i += 1;
    }
    proof {
        lists::lemma_place_is(all, p, all.len() as int);
    }
    i
}

fn candidate_place(candidates: &Vec<Candidate>, name: &str) -> (r: usize)
    ensures
        r == lists::place(
            candidates.deep_view(),
            |c: CandidateView| text::comes_before(name@, c.name),
        ),
        r <= candidates@.len(),
{
    let ghost all = candidates.deep_view();
    let ghost p = |c: CandidateView| text::comes_before(name@, c.name);
    let mut i: usize = 0;
    while i < candidates.len()
        invariant
            i <= candidates.len(),
            all == candidates.deep_view(),
            p == (|c: CandidateView| text::comes_before(name@, c.name)),
            forall|j: int| 0 <= j < i ==> !p(#[trigger] all[j]),
        decreases candidates.len() - i,
    {
        assert(all[i as int] == candidates[i as int].deep_view());
        if precedes(name, candidates[i].name.as_str()) {
            proof {
                lists::lemma_place_is(all, p, i as int);
            }
            return i;
        }
        i += 1;
    }
    proof {
        lists::lemma_place_is(all, p, all.len() as int);
    }
    i
}

fn add_interface(candidates: &mut Vec<Candidate>, i: &NetworkInterface)
    ensures
        final(candidates).deep_view() == with_interface(
            old(candidates).deep_view(),
            i.deep_view(),
        ),
{
    if is_loopback(i.address) {
        return;
    }
    let ghost all = candidates.deep_view();
    let k: usize = find_candidate(candidates, i.name.as_str());
    if k < candidates.len() {
        assert(all[k as int] == candidates@[k as int].deep_view());
        take_address(&mut candidates[k], i);
        assert(candidates.deep_view() =~= all.update(
            k as int,
            with_address(all[k as int], i.deep_view()),
        ));
    } else {
        let mut candidate = Candidate {
            name: i.name.clone(),
            ipv4: None,
            ipv6: None,
            index: i.index,
        };
        take_address(&mut candidate, i);
        let at: usize = candidate_place(candidates, i.name.as_str());
        candidates.insert(at, candidate);
        assert(candidates.deep_view() =~= all.insert(
            at as int,
            with_address(new_candidate(i.deep_view()), i.deep_view()),
        ));
    }
}

/// Whether a candidate has an address.
pub open spec fn usable(c: CandidateView) -> bool {
    c.ipv4 is Some || c.ipv6 is Some
}

/// Whether a candidate is the one to use: no other is better, and none behind it is as good.
pub open spec fn is_best(candidates: Seq<CandidateView>, k: int) -> bool {
    &&& 0 <= k < candidates.len()
    &&& usable(candidates[k])
    &&& forall|i: int|
        0 <= i < candidates.len() && i != k && usable(#[trigger] candidates[i]) ==> if i < k {
            score_of(candidates[i]) <= score_of(candidates[k])
        } else {
            score_of(candidates[i]) < score_of(candidates[k])
        }
}

/// Selects the interface on which the bridge announces itself; none where there is no address but
/// those of this machine.
pub fn initialize_network(interfaces: &Vec<NetworkInterface>) -> (r: Option<Candidate>)
    ensures
        match r {
            Some(c) => exists|k: int| #[trigger]
                is_best(candidates_of(interfaces.deep_view()), k) && c.deep_view()
                    == candidates_of(interfaces.deep_view())[k],
            None => forall|i: int|
                0 <= i < candidates_of(interfaces.deep_view()).len() ==> !usable(
                    #[trigger] candidates_of(interfaces.deep_view())[i],
                ),
        },
{
    let ghost all = interfaces.deep_view();
    let mut candidates: Vec<Candidate> = Vec::new();
    let mut i: usize = 0;
    assert(all.take(0) =~= seq![]);
    assert(candidates.deep_view() =~= seq![]);
    while i < interfaces.len()
        invariant
            i <= interfaces.len(),
            all == interfaces.deep_view(),
            candidates.deep_view() == candidates_of(all.take(i as int)),
        decreases interfaces.len() - i,
    {
        assert(all[i as int] == interfaces@[i as int].deep_view());
        assert(all.take(i + 1).drop_last() =~= all.take(i as int));
        add_interface(&mut candidates, &interfaces[i]);
        i += 1;
    }
    assert(all.take(i as int) =~= all);
    let ghost found = candidates.deep_view();
    let mut best: Option<usize> = None;
    let mut k: usize = 0;
    while k < candidates.len()
        invariant
            k <= candidates.len(),
            found == candidates.deep_view(),
            best matches Some(b) ==> b < k && usable(found[b as int]) && forall|j: int|
                0 <= j < k && j != b && usable(#[trigger] found[j]) ==> if j < b {
                    score_of(found[j]) <= score_of(found[b as int])
                } else {
                    score_of(found[j]) < score_of(found[b as int])
                },
            best is None ==> forall|j: int| 0 <= j < k ==> !usable(#[trigger] found[j]),
        decreases candidates.len() - k,
    {
        assert(found[k as int] == candidates@[k as int].deep_view());
        if candidates[k].ipv4.is_some() || candidates[k].ipv6.is_some() {
            let better = match best {
                None => true,
                Some(b) => {
                    assert(found[b as int] == candidates@[b as int].deep_view());
                    score(&candidates[k]) >= score(&candidates[b])
                },
            };
            if better {
                best = Some(k);
            }
        }
        k += 1;
    }
    match best {
        Some(b) => {
            assert(is_best(found, b as int));
            assert(found[b as int] == candidates@[b as int].deep_view());
            Some(candidates.remove(b))
        },
        None => None,
    }
}

/// No two candidates are both the one to use.
pub proof fn best_is_unique(candidates: Seq<CandidateView>, j: int, k: int)
    requires
        is_best(candidates, j),
        is_best(candidates, k),
    ensures
        j == k,
{
    if j != k {
        assert(usable(candidates[j]));
        assert(usable(candidates[k]));
    }
}

/// Whether candidates stand in the order of their names, each name once.
pub open spec fn by_name(candidates: Seq<CandidateView>) -> bool {
    forall|i: int, j: int|
        0 <= i < j < candidates.len() ==> text::comes_before(
            (#[trigger] candidates[i]).name,
            (#[trigger] candidates[j]).name,
        )
}

/// The candidates stand in the order of their names, and no two have the same name.
pub proof fn candidates_are_in_order(interfaces: Seq<NetworkInterfaceView>)
    ensures
        by_name(candidates_of(interfaces)),
    decreases interfaces.len(),
{
    if interfaces.len() > 0 {
        candidates_are_in_order(interfaces.drop_last());
        lemma_with_interface(candidates_of(interfaces.drop_last()), interfaces.last());
    }
}

proof fn lemma_with_interface(candidates: Seq<CandidateView>, i: NetworkInterfaceView)
    requires
        by_name(candidates),
    ensures
        by_name(with_interface(candidates, i)),
{
    let p = |c: CandidateView| c.name == i.name;
    let q = |c: CandidateView| text::comes_before(i.name, c.name);
    let k = place_of(candidates, i.name);
    let at = lists::place(candidates, q);
    lists::lemma_place(candidates, p);
    lists::lemma_place(candidates, q);
    let next = with_interface(candidates, i);
    if !loopback(i.address) {
        assert forall|m: int, n: int| 0 <= m < n < next.len() implies text::comes_before(
            (#[trigger] next[m]).name,
            (#[trigger] next[n]).name,
        ) by {
            if k < candidates.len() {
                assert(next[m].name == candidates[m].name);
                assert(next[n].name == candidates[n].name);
            } else if n == at {
                assert(!p(candidates[m]));
                assert(!q(candidates[m]));
                text::order_is_total(candidates[m].name, i.name);
            } else if m == at {
                assert(q(candidates[at]));
                if at < n - 1 {
                    assert(text::comes_before(candidates[at].name, candidates[n - 1].name));
                    text::order_is_transitive(i.name, candidates[at].name, candidates[n - 1].name);
                }
            } else {
                let x = if m < at {
                    m
                } else {
                    m - 1
                };
                let y = if n < at {
                    n
                } else {
                    n - 1
                };
                assert(text::comes_before(candidates[x].name, candidates[y].name));
            }
        }
    }
}

/// Whether an interface has an address that can be announced.
pub open spec fn announces(
    interfaces: Seq<NetworkInterfaceView>,
    name: Seq<char>,
    address: InterfaceAddress,
) -> bool {
    &&& !loopback(address)
    &&& match address {
        InterfaceAddress::V4(ip) => !unspecified_v4(ip),
        InterfaceAddress::V6(ip) => !unspecified_v6(ip),
    }
    &&& exists|i: int|
        0 <= i < interfaces.len() && (#[trigger] interfaces[i]).name == name
            && interfaces[i].address == address
}

/// Whether a candidate has only addresses of the interface with its name.
pub open spec fn grounded(interfaces: Seq<NetworkInterfaceView>, c: CandidateView) -> bool {
    &&& c.ipv4 matches Some(ip) ==> announces(interfaces, c.name, InterfaceAddress::V4(ip))
    &&& c.ipv6 matches Some(ip) ==> announces(interfaces, c.name, InterfaceAddress::V6(ip))
}

proof fn lemma_grounded_later(
    interfaces: Seq<NetworkInterfaceView>,
    more: Seq<NetworkInterfaceView>,
    c: CandidateView,
)
    requires
        grounded(interfaces, c),
        interfaces.len() <= more.len(),
        forall|i: int| 0 <= i < interfaces.len() ==> #[trigger] more[i] == interfaces[i],
    ensures
        grounded(more, c),
{
    if let Some(ip) = c.ipv4 {
        let i = choose|i: int|
            0 <= i < interfaces.len() && (#[trigger] interfaces[i]).name == c.name
                && interfaces[i].address == InterfaceAddress::V4(ip);
        assert(more[i] == interfaces[i]);
    }
    if let Some(ip) = c.ipv6 {
        let i = choose|i: int|
            0 <= i < interfaces.len() && (#[trigger] interfaces[i]).name == c.name
                && interfaces[i].address == InterfaceAddress::V6(ip);
        assert(more[i] == interfaces[i]);
    }
}

/// A candidate has only addresses that its interface has, and never one of this machine or the
/// unspecified one.
pub proof fn candidates_have_their_own_addresses(interfaces: Seq<NetworkInterfaceView>, k: int)
    requires
        0 <= k < candidates_of(interfaces).len(),
    ensures
        grounded(interfaces, candidates_of(interfaces)[k]),
    decreases interfaces.len(),
{
    let front = interfaces.drop_last();
    let last = interfaces.last();
    let before = candidates_of(front);
    assert forall|j: int| 0 <= j < before.len() implies grounded(
        interfaces,
        #[trigger] before[j],
    ) by {
        candidates_have_their_own_addresses(front, j);
        lemma_grounded_later(front, interfaces, before[j]);
    }
    if !loopback(last.address) {
        let p = |c: CandidateView| c.name == last.name;
        let q = |c: CandidateView| text::comes_before(last.name, c.name);
        lists::lemma_place(before, p);
        lists::lemma_place(before, q);
        let m = place_of(before, last.name);
        let at = lists::place(before, q);
        assert(interfaces[interfaces.len() - 1] == last);
        if m < before.len() {
            assert(p(before[m]));
            assert(grounded(interfaces, before[m]));
            if k != m {
                assert(candidates_of(interfaces)[k] == before[k]);
            }
        } else if k < at {
            assert(candidates_of(interfaces)[k] == before[k]);
        } else if k > at {
            assert(candidates_of(interfaces)[k] == before[k - 1]);
        }
    } else {
        assert(candidates_of(interfaces)[k] == before[k]);
    }
}

// The socket

/// How the socket for announcements is set up.
#[derive(Debug)]
pub struct MdnsPlan {
    /// The interface on which the group of version 6 is joined.
    pub join_v6: Option<u32>,
    /// The address on which the group of version 4 is joined.
    pub join_v4: Option<[u8; 4]>,
    /// The address of version 4 that is announced.
    pub host_v4: [u8; 4],
    /// The address of version 6 that is announced.
    pub host_v6: [u8; 16],
}

/// Plans the socket for announcements: a group is joined only where there is an address of its
/// version, and a missing address is announced as the unspecified one.
pub fn plan_socket(c: &Candidate) -> (r: MdnsPlan)
    ensures
        r.join_v6 == if c.ipv6 is Some {
            c.index
        } else {
            None
        },
        r.join_v4 == c.ipv4,
        match c.ipv4 {
            Some(ip) => r.host_v4 == ip,
            None => unspecified_v4(r.host_v4),
        },
        match c.ipv6 {
            Some(ip) => r.host_v6 == ip,
            None => unspecified_v6(r.host_v6),
        },
{
    MdnsPlan {
        join_v6: if c.ipv6.is_some() {
            c.index
        } else {
            None
        },
        join_v4: c.ipv4,
        host_v4: match c.ipv4 {
            Some(ip) => ip,
            None => [0, 0, 0, 0],
        },
        host_v6: match c.ipv6 {
            Some(ip) => ip,
            None => [0, 0, 0, 0, 0, 0, 0, 0, 0, 0, 0, 0, 0, 0, 0, 0],
        },
    }
}

} // verus!
