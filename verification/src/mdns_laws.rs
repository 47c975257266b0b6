//! Which interface and which of its addresses the bridge announces itself with.

use crate::lists;
use crate::mdns;
use crate::mdns::{Candidate, CandidateView, InterfaceAddress, MdnsPlan, NetworkInterface, NetworkInterfaceView};
use crate::text;
use vstd::prelude::*;

verus! {

// Scores

/// Whether an address of version 4 is for private use.
pub open spec fn is_private(ip: [u8; 4]) -> bool {
    ip[0] == 10 || (ip[0] == 172 && ip[1] / 16 == 1) || (ip[0] == 192 && ip[1] == 168)
}

/// Whether an address of version 4 is good on its link only.
pub open spec fn is_for_the_link(ip: [u8; 4]) -> bool {
    ip[0] == 169 && ip[1] == 254
}

/// Whether an address of version 6 is good on its link only.
pub open spec fn is_for_the_link_v6(ip: [u8; 16]) -> bool {
    ip[0] == 254 && ip[1] / 64 == 2
}

/// Whether an address of version 6 is not the unspecified one.
pub open spec fn is_specified_v6(ip: [u8; 16]) -> bool {
    exists|i: int| 0 <= i < 16 && #[trigger] ip[i] != 0
}

/// The candidate with another address of version 4.
pub open spec fn with_v4(c: CandidateView, ip: Option<[u8; 4]>) -> CandidateView {
    CandidateView { ipv4: ip, ..c }
}

/// The candidate with another address of version 6.
pub open spec fn with_v6(c: CandidateView, ip: Option<[u8; 16]>) -> CandidateView {
    CandidateView { ipv6: ip, ..c }
}

/// All else being equal, an interface is better with an address of version 4 than without one; with
/// one that is good on more than its link than with one for the link; and with a private one than
/// with one that is not private.
pub proof fn better_addresses_of_version_four(c: CandidateView, a: [u8; 4], b: [u8; 4])
    ensures
        mdns::score_of(with_v4(c, Some(a))) > mdns::score_of(with_v4(c, None)),
        is_private(a) && !is_private(b) ==> mdns::score_of(with_v4(c, Some(a))) > mdns::score_of(
            with_v4(c, Some(b)),
        ),
        !is_for_the_link(a) && is_for_the_link(b) ==> mdns::score_of(with_v4(c, Some(a)))
            > mdns::score_of(with_v4(c, Some(b))),
        is_private(a) == is_private(b) && is_for_the_link(a) == is_for_the_link(b)
            ==> mdns::score_of(with_v4(c, Some(a))) == mdns::score_of(with_v4(c, Some(b))),
{
}

/// All else being equal, an interface is better with an address of version 6 than without one, and
/// with one for the link than with any other.
pub proof fn better_addresses_of_version_six(c: CandidateView, a: [u8; 16], b: [u8; 16])
    requires
        is_specified_v6(a),
        is_specified_v6(b),
    ensures
        mdns::score_of(with_v6(c, Some(a))) > mdns::score_of(with_v6(c, None)),
        is_for_the_link_v6(a) && !is_for_the_link_v6(b) ==> mdns::score_of(with_v6(c, Some(a)))
            > mdns::score_of(with_v6(c, Some(b))),
        is_for_the_link_v6(a) == is_for_the_link_v6(b) ==> mdns::score_of(with_v6(c, Some(a)))
            == mdns::score_of(with_v6(c, Some(b))),
{
    let i = choose|i: int| 0 <= i < 16 && #[trigger] a[i] != 0;
    let j = choose|j: int| 0 <= j < 16 && #[trigger] b[j] != 0;
    assert(!mdns::unspecified_v6(a));
    assert(!mdns::unspecified_v6(b));
}

/// An interface with a private address of version 4 and one for the link of version 6 is better than
/// every one that lacks either.
pub proof fn private_with_link_is_best(c: CandidateView, d: CandidateView)
    requires
        c.ipv4 matches Some(a) && c.ipv6 matches Some(b) && is_private(a) && is_for_the_link_v6(b),
        !(d.ipv4 matches Some(a) && d.ipv6 matches Some(b) && is_private(a) && is_for_the_link_v6(
            b,
        )),
    ensures
        mdns::score_of(c) > mdns::score_of(d),
{
}

/// The candidate with other addresses.
pub open spec fn with_both(
    c: CandidateView,
    v4: Option<[u8; 4]>,
    v6: Option<[u8; 16]>,
) -> CandidateView {
    CandidateView { ipv4: v4, ipv6: v6, ..c }
}

/// From the worst interface to the best: no address; version 4 for the link; any other version 4 that
/// is not private, or version 6 not for the link; version 4 for the link beside such a version 6; the
/// two of them that are worth the same together, or version 6 for the link; a private version 4
/// alone; and then version 6 for the link beside a version 4 for the link or any other one, a private
/// version 4 beside a version 6 not for the link, and the best of both.
pub proof fn interfaces_are_ranked(
    c: CandidateView,
    link: [u8; 4],
    public: [u8; 4],
    private: [u8; 4],
    other6: [u8; 16],
    link6: [u8; 16],
)
    requires
        is_for_the_link(link),
        !is_for_the_link(public) && !is_private(public),
        is_private(private),
        is_specified_v6(other6) && !is_for_the_link_v6(other6),
        is_for_the_link_v6(link6),
    ensures
        ({
            let score = |v4: Option<[u8; 4]>, v6: Option<[u8; 16]>|
                mdns::score_of(with_both(c, v4, v6));
            &&& score(None, None) < score(Some(link), None) < score(Some(public), None)
            &&& score(Some(public), None) == score(None, Some(other6))
            &&& score(None, Some(other6)) < score(Some(link), Some(other6))
            &&& score(Some(link), Some(other6)) < score(None, Some(link6))
            &&& score(Some(public), Some(other6)) == score(None, Some(link6))
            &&& score(None, Some(link6)) < score(Some(private), None)
            &&& score(Some(private), None) < score(Some(link), Some(link6))
            &&& score(Some(link), Some(link6)) < score(Some(public), Some(link6))
            &&& score(Some(public), Some(link6)) < score(Some(private), Some(other6))
            &&& score(Some(private), Some(other6)) < score(Some(private), Some(link6))
        }),
{
    let i = choose|i: int| 0 <= i < 16 && #[trigger] other6[i] != 0;
    assert(!mdns::unspecified_v6(other6));
}

/// The interface that is used has an address, none with an address has a higher score, and of those
/// with the same score it is the last.
pub proof fn best_has_the_highest_score(candidates: Seq<CandidateView>, k: int, j: int)
    requires
        mdns::is_best(candidates, k),
        0 <= j < candidates.len(),
        candidates[j].ipv4 is Some || candidates[j].ipv6 is Some,
    ensures
        0 <= k < candidates.len(),
        candidates[k].ipv4 is Some || candidates[k].ipv6 is Some,
        mdns::score_of(candidates[j]) <= mdns::score_of(candidates[k]),
        mdns::score_of(candidates[j]) == mdns::score_of(candidates[k]) ==> j <= k,
{
    assert(mdns::usable(candidates[j]));
}

// Addresses

/// Whether an interface has an address of version 4 that can be announced: neither one of this
/// machine nor the unspecified one.
pub open spec fn offers_v4(i: NetworkInterfaceView, name: Seq<char>, ip: [u8; 4]) -> bool {
    &&& i.name == name
    &&& i.address == InterfaceAddress::V4(ip)
    &&& ip[0] != 127
    &&& exists|k: int| 0 <= k < 4 && #[trigger] ip[k] != 0
}

/// Whether an address of version 6 is that of this machine.
pub open spec fn is_own_v6(ip: [u8; 16]) -> bool {
    ip[15] == 1 && forall|k: int| 0 <= k < 15 ==> #[trigger] ip[k] == 0
}

/// Whether an interface has an address of version 6 that can be announced.
pub open spec fn offers_v6(i: NetworkInterfaceView, name: Seq<char>, ip: [u8; 16]) -> bool {
    &&& i.name == name
    &&& i.address == InterfaceAddress::V6(ip)
    &&& is_specified_v6(ip)
    &&& !is_own_v6(ip)
}

/// Whether this is the first address of version 4 that an interface offers; none where it offers
/// none.
pub open spec fn is_first_v4(
    interfaces: Seq<NetworkInterfaceView>,
    name: Seq<char>,
    ip: Option<[u8; 4]>,
) -> bool {
    match ip {
        Some(ip) => exists|i: int|
            0 <= i < interfaces.len() && offers_v4(#[trigger] interfaces[i], name, ip) && forall|
                j: int,
                x: [u8; 4],
            |
                0 <= j < i ==> !#[trigger] offers_v4(interfaces[j], name, x),
        None => forall|j: int, x: [u8; 4]|
            0 <= j < interfaces.len() ==> !#[trigger] offers_v4(interfaces[j], name, x),
    }
}

/// Whether this is the first address of version 6 for the link that an interface offers, or the
/// first at all where it offers none for the link; none where it offers none.
pub open spec fn is_first_v6(
    interfaces: Seq<NetworkInterfaceView>,
    name: Seq<char>,
    ip: Option<[u8; 16]>,
) -> bool {
    match ip {
        Some(ip) => exists|i: int|
            0 <= i < interfaces.len() && offers_v6(#[trigger] interfaces[i], name, ip) && if is_for_the_link_v6(
                ip,
            ) {
                forall|j: int, x: [u8; 16]|
                    0 <= j < i && #[trigger] offers_v6(interfaces[j], name, x)
                        ==> !is_for_the_link_v6(x)
            } else {
                forall|j: int, x: [u8; 16]|
                    0 <= j < interfaces.len() && #[trigger] offers_v6(interfaces[j], name, x)
                        ==> !is_for_the_link_v6(x) && i <= j
            },
        None => forall|j: int, x: [u8; 16]|
            0 <= j < interfaces.len() ==> !#[trigger] offers_v6(interfaces[j], name, x),
    }
}

/// The candidate with a name, if there is one.
spec fn candidate(interfaces: Seq<NetworkInterfaceView>, name: Seq<char>) -> Option<CandidateView>
    decreases interfaces.len(),
{
    if interfaces.len() == 0 {
        None
    } else {
        let before = candidate(interfaces.drop_last(), name);
        let last = interfaces.last();
        if last.name == name && !mdns::loopback(last.address) {
            Some(
                mdns::with_address(
                    match before {
                        Some(c) => c,
                        None => mdns::new_candidate(last),
                    },
                    last,
                ),
            )
        } else {
            before
        }
    }
}

proof fn lemma_candidates(interfaces: Seq<NetworkInterfaceView>)
    ensures
        ({
            let all = mdns::candidates_of(interfaces);
            &&& forall|k: int|
                0 <= k < all.len() ==> Some(#[trigger] all[k]) == candidate(interfaces, all[k].name)
            &&& forall|name: Seq<char>| #[trigger]
                candidate(interfaces, name) is Some ==> exists|k: int|
                    0 <= k < all.len() && (#[trigger] all[k]).name == name
        }),
    decreases interfaces.len(),
{
    let all = mdns::candidates_of(interfaces);
    if interfaces.len() > 0 {
        let front = interfaces.drop_last();
        let last = interfaces.last();
        let before = mdns::candidates_of(front);
        lemma_candidates(front);
        mdns::candidates_are_in_order(front);
        let p = |c: CandidateView| c.name == last.name;
        let q = |c: CandidateView| text::comes_before(last.name, c.name);
        lists::lemma_place(before, p);
        lists::lemma_place(before, q);
        let m = mdns::place_of(before, last.name);
        let at = lists::place(before, q);
        if !mdns::loopback(last.address) {
            if m >= before.len() && candidate(front, last.name) is Some {
                let k = choose|k: int|
                    0 <= k < before.len() && (#[trigger] before[k]).name == last.name;
                assert(!p(before[k]));
            }
            assert forall|k: int| 0 <= k < all.len() implies Some(#[trigger] all[k]) == candidate(
                interfaces,
                all[k].name,
            ) by {
                if m < before.len() {
                    if k != m {
                        assert(all[k] == before[k]);
                        if before[k].name == last.name {
                            if k < m {
                                text::order_is_total(before[k].name, before[m].name);
                            } else {
                                text::order_is_total(before[m].name, before[k].name);
                            }
                        }
                    } else {
                        assert(before[m].name == last.name);
                    }
                } else if k != at {
                    let j = if k < at {
                        k
                    } else {
                        k - 1
                    };
                    assert(all[k] == before[j]);
                    assert(!p(before[j]));
                }
            }
            assert forall|name: Seq<char>| #[trigger]
                candidate(interfaces, name) is Some implies exists|k: int|
                0 <= k < all.len() && (#[trigger] all[k]).name == name by {
                if name == last.name {
                    if m < before.len() {
                        assert(all[m].name == name);
                    } else {
                        assert(all[at].name == name);
                    }
                } else {
                    assert(candidate(front, name) is Some);
                    let k = choose|k: int|
                        0 <= k < before.len() && (#[trigger] before[k]).name == name;
                    if m < before.len() {
                        assert(all[k].name == name);
                    } else {
                        assert(all[if k < at {
                            k
                        } else {
                            k + 1
                        }].name == name);
                    }
                }
            }
        } else {
            assert(all == before);
            assert forall|k: int| 0 <= k < all.len() implies Some(#[trigger] all[k]) == candidate(
                interfaces,
                all[k].name,
            ) by {
                assert(Some(before[k]) == candidate(front, before[k].name));
            }
            assert forall|name: Seq<char>| #[trigger]
                candidate(interfaces, name) is Some implies exists|k: int|
                0 <= k < all.len() && (#[trigger] all[k]).name == name by {
                assert(candidate(front, name) is Some);
            }
        }
    }
}

/// Whether an address is that of this machine.
pub open spec fn is_own(address: InterfaceAddress) -> bool {
    match address {
        InterfaceAddress::V4(ip) => ip[0] == 127,
        InterfaceAddress::V6(ip) => is_own_v6(ip),
    }
}

/// Whether an interface has this name and an address that others can reach.
pub open spec fn is_open(i: NetworkInterfaceView, name: Seq<char>) -> bool {
    i.name == name && !is_own(i.address)
}

/// Whether this is the first index that is given of an interface; none where none is given.
pub open spec fn is_first_index(
    interfaces: Seq<NetworkInterfaceView>,
    name: Seq<char>,
    index: Option<u32>,
) -> bool {
    match index {
        Some(n) => exists|i: int|
            0 <= i < interfaces.len() && is_open(#[trigger] interfaces[i], name)
                && interfaces[i].index == Some(n) && forall|j: int|
                0 <= j < i && is_open(#[trigger] interfaces[j], name) ==> interfaces[j].index
                    is None,
        None => forall|j: int|
            0 <= j < interfaces.len() && is_open(#[trigger] interfaces[j], name)
                ==> interfaces[j].index is None,
    }
}

/// Whether a candidate stands for an interface that others can reach, with the first of its addresses
/// and its first index.
pub open spec fn has_first_addresses(
    interfaces: Seq<NetworkInterfaceView>,
    c: CandidateView,
) -> bool {
    &&& exists|i: int| 0 <= i < interfaces.len() && is_open(#[trigger] interfaces[i], c.name)
    &&& is_first_v4(interfaces, c.name, c.ipv4)
    &&& is_first_v6(interfaces, c.name, c.ipv6)
    &&& is_first_index(interfaces, c.name, c.index)
}

proof fn lemma_v4(interfaces: Seq<NetworkInterfaceView>, name: Seq<char>)
    ensures
        is_first_v4(
            interfaces,
            name,
            match candidate(interfaces, name) {
                Some(c) => c.ipv4,
                None => None,
            },
        ),
    decreases interfaces.len(),
{
    if interfaces.len() > 0 {
        let front = interfaces.drop_last();
        let last = interfaces.last();
        let n = front.len() as int;
        lemma_v4(front, name);
        let before = match candidate(front, name) {
            Some(c) => c.ipv4,
            None => None,
        };
        assert forall|j: int, x: [u8; 4]| 0 <= j < n implies #[trigger] offers_v4(
            interfaces[j],
            name,
            x,
        ) == offers_v4(front[j], name, x) by {}
        match before {
            Some(ip) => {
                let i = choose|i: int|
                    0 <= i < front.len() && offers_v4(#[trigger] front[i], name, ip) && forall|
                        j: int,
                        x: [u8; 4],
                    |
                        0 <= j < i ==> !#[trigger] offers_v4(front[j], name, x);
                assert(offers_v4(interfaces[i], name, ip));
            },
            None => {
                match last.address {
                    InterfaceAddress::V4(ip) => {
                        if last.name == name && !mdns::loopback(last.address)
                            && !mdns::unspecified_v4(ip) {
                            assert(offers_v4(interfaces[n], name, ip));
                        } else {
                            assert(forall|x: [u8; 4]| !#[trigger]
                                offers_v4(interfaces[n], name, x));
                        }
                    },
                    InterfaceAddress::V6(ip) => {
                        assert(forall|x: [u8; 4]| !#[trigger] offers_v4(interfaces[n], name, x));
                    },
                }
            },
        }
    }
}

proof fn lemma_v6(interfaces: Seq<NetworkInterfaceView>, name: Seq<char>)
    ensures
        is_first_v6(
            interfaces,
            name,
            match candidate(interfaces, name) {
                Some(c) => c.ipv6,
                None => None,
            },
        ),
    decreases interfaces.len(),
{
    if interfaces.len() > 0 {
        let front = interfaces.drop_last();
        let last = interfaces.last();
        let n = front.len() as int;
        lemma_v6(front, name);
        let before = match candidate(front, name) {
            Some(c) => c.ipv6,
            None => None,
        };
        assert forall|j: int, x: [u8; 16]| 0 <= j < n implies #[trigger] offers_v6(
            interfaces[j],
            name,
            x,
        ) == offers_v6(front[j], name, x) by {}
        match last.address {
            InterfaceAddress::V4(ip) => {
                assert(forall|x: [u8; 16]| !#[trigger] offers_v6(interfaces[n], name, x));
            },
            InterfaceAddress::V6(ip) => {
                if last.name == name && !mdns::loopback(last.address) && !mdns::unspecified_v6(ip) {
                    assert(offers_v6(interfaces[n], name, ip));
                } else {
                    assert(forall|x: [u8; 16]| !#[trigger] offers_v6(interfaces[n], name, x));
                }
            },
        }
        match before {
            Some(ip) => {
                let i = choose|i: int|
                    0 <= i < front.len() && offers_v6(#[trigger] front[i], name, ip)
                        && if is_for_the_link_v6(ip) {
                        forall|j: int, x: [u8; 16]|
                            0 <= j < i && #[trigger] offers_v6(front[j], name, x)
                                ==> !is_for_the_link_v6(x)
                    } else {
                        forall|j: int, x: [u8; 16]|
                            0 <= j < front.len() && #[trigger] offers_v6(front[j], name, x)
                                ==> !is_for_the_link_v6(x) && i <= j
                    };
                assert(offers_v6(interfaces[i], name, ip));
            },
            None => {},
        }
    }
}

proof fn lemma_index(interfaces: Seq<NetworkInterfaceView>, name: Seq<char>)
    ensures
        is_first_index(
            interfaces,
            name,
            match candidate(interfaces, name) {
                Some(c) => c.index,
                None => None,
            },
        ),
        candidate(interfaces, name) is Some <==> exists|i: int|
            0 <= i < interfaces.len() && is_open(#[trigger] interfaces[i], name),
    decreases interfaces.len(),
{
    if interfaces.len() > 0 {
        let front = interfaces.drop_last();
        let last = interfaces.last();
        let n = front.len() as int;
        lemma_index(front, name);
        assert(forall|j: int| 0 <= j < n ==> #[trigger] interfaces[j] == front[j]);
        assert(interfaces[n] == last);
        assert(is_open(last, name) <==> last.name == name && !mdns::loopback(last.address));
        if candidate(front, name) is Some {
            let i = choose|i: int| 0 <= i < front.len() && is_open(#[trigger] front[i], name);
            assert(is_open(interfaces[i], name));
            match candidate(front, name)->0.index {
                Some(m) => {
                    let i = choose|i: int|
                        0 <= i < front.len() && is_open(#[trigger] front[i], name)
                            && front[i].index == Some(m) && forall|j: int|
                            0 <= j < i && is_open(#[trigger] front[j], name) ==> front[j].index
                                is None;
                    assert(is_open(interfaces[i], name));
                },
                None => {},
            }
        } else {
            assert(forall|j: int| 0 <= j < n ==> !is_open(#[trigger] interfaces[j], name));
        }
    }
}

/// Every interface with an address that others can reach is a candidate, and nothing else is. Of
/// version 4 it has the first address that can be announced, of version 6 the first one for the
/// link, or the first at all where none is for the link, and its index is the first that is given.
pub proof fn candidate_has_the_first_addresses(interfaces: Seq<NetworkInterfaceView>)
    ensures
        ({
            let all = mdns::candidates_of(interfaces);
            &&& forall|i: int|
                0 <= i < interfaces.len() && !is_own((#[trigger] interfaces[i]).address)
                    ==> exists|k: int|
                    0 <= k < all.len() && (#[trigger] all[k]).name == interfaces[i].name
            &&& forall|k: int|
                0 <= k < all.len() ==> has_first_addresses(interfaces, #[trigger] all[k])
        }),
{
    let all = mdns::candidates_of(interfaces);
    lemma_candidates(interfaces);
    assert forall|i: int|
        0 <= i < interfaces.len() && !is_own(
            (#[trigger] interfaces[i]).address,
        ) implies exists|k: int|
        0 <= k < all.len() && (#[trigger] all[k]).name == interfaces[i].name by {
        lemma_index(interfaces, interfaces[i].name);
        assert(is_open(interfaces[i], interfaces[i].name));
    }
    assert forall|k: int| 0 <= k < all.len() implies has_first_addresses(
        interfaces,
        #[trigger] all[k],
    ) by {
        assert(Some(all[k]) == candidate(interfaces, all[k].name));
        lemma_index(interfaces, all[k].name);
        lemma_v4(interfaces, all[k].name);
        lemma_v6(interfaces, all[k].name);
    }
}

// The interface that is used

/// Whether an interface has an address that can be announced.
pub open spec fn offers_any(i: NetworkInterfaceView) -> bool {
    match i.address {
        InterfaceAddress::V4(ip) => offers_v4(i, i.name, ip),
        InterfaceAddress::V6(ip) => offers_v6(i, i.name, ip),
    }
}

/// Where there is an address that can be announced, there is an interface to use.
pub proof fn an_address_makes_a_candidate(given: Seq<NetworkInterfaceView>, i: int)
    requires
        0 <= i < given.len(),
        offers_any(given[i]),
    ensures
        exists|k: int|
            0 <= k < mdns::candidates_of(given).len() && mdns::usable(
                #[trigger] mdns::candidates_of(given)[k],
            ),
{
    let all = mdns::candidates_of(given);
    let name = given[i].name;
    lemma_candidates(given);
    lemma_index(given, name);
    lemma_v4(given, name);
    lemma_v6(given, name);
    assert(is_open(given[i], name));
    let k = choose|k: int| 0 <= k < all.len() && (#[trigger] all[k]).name == name;
    assert(Some(all[k]) == candidate(given, name));
    match given[i].address {
        InterfaceAddress::V4(ip) => {
            assert(offers_v4(given[i], name, ip));
            assert(all[k].ipv4 is Some);
        },
        InterfaceAddress::V6(ip) => {
            assert(offers_v6(given[i], name, ip));
            assert(all[k].ipv6 is Some);
        },
    }
    assert(mdns::usable(all[k]));
}

proof fn lemma_candidate_has_first_addresses(given: Seq<NetworkInterfaceView>, k: int)
    requires
        0 <= k < mdns::candidates_of(given).len(),
    ensures
        has_first_addresses(given, mdns::candidates_of(given)[k]),
{
    candidate_has_the_first_addresses(given);
}

proof fn lemma_best(candidates: Seq<CandidateView>, k: int)
    requires
        mdns::is_best(candidates, k),
    ensures
        has_highest_score(candidates, candidates[k]),
{
    assert forall|j: int|
        0 <= j < candidates.len() && ((#[trigger] candidates[j]).ipv4 is Some || candidates[j].ipv6
            is Some) implies mdns::score_of(candidates[j]) <= mdns::score_of(candidates[k]) by {
        best_has_the_highest_score(candidates, k, j);
    }
}

/// Whether no candidate with an address has a higher score.
pub open spec fn has_highest_score(candidates: Seq<CandidateView>, c: CandidateView) -> bool {
    forall|j: int|
        0 <= j < candidates.len() && ((#[trigger] candidates[j]).ipv4 is Some || candidates[j].ipv6
            is Some) ==> mdns::score_of(candidates[j]) <= mdns::score_of(c)
}

/// The interface that is used is one of those that there are, with its own first addresses. No other
/// has a higher score.
pub proof fn best_interface_is_used(interfaces: &Vec<NetworkInterface>, r: Option<Candidate>)
    requires
        call_ensures(mdns::initialize_network, (interfaces,), r),
    ensures
        r matches Some(c) ==> {
            &&& c.ipv4 is Some || c.ipv6 is Some
            &&& has_first_addresses(interfaces.deep_view(), c.deep_view())
            &&& has_highest_score(mdns::candidates_of(interfaces.deep_view()), c.deep_view())
        },
{
    let given = interfaces.deep_view();
    let all = mdns::candidates_of(given);
    match r {
        Some(c) => {
            let k = choose|k: int| #[trigger] mdns::is_best(all, k) && c.deep_view() == all[k];
            lemma_candidate_has_first_addresses(given, k);
            lemma_best(all, k);
        },
        None => {},
    }
}

/// A group is joined only on an interface with an address of its version, and what is announced is
/// the address of the interface, or only zeros where it has none.
pub proof fn own_addresses_are_announced(c: &Candidate, r: MdnsPlan)
    requires
        call_ensures(mdns::plan_socket, (c,), r),
    ensures
        r.join_v4 == c.ipv4,
        c.ipv4 matches Some(ip) ==> r.host_v4 == ip,
        c.ipv4 is None ==> forall|i: int| 0 <= i < 4 ==> #[trigger] r.host_v4[i] == 0,
        c.ipv6 matches Some(ip) ==> r.host_v6 == ip && r.join_v6 == c.index,
        c.ipv6 is None ==> r.join_v6 is None && forall|i: int|
            0 <= i < 16 ==> #[trigger] r.host_v6[i] == 0,
{
}

} // verus!
