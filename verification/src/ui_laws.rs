//! What a reader of the terminal can rely on: what is shown stands for what the client holds.

use crate::app_model::AppView;
use crate::number;
use crate::state;
use crate::state::{EndpointAliasView, KnownDeviceView};
use crate::text;
use crate::types::{
    ActionDialogView, CommissionableDeviceView, CommissionedDeviceView, EndpointSummaryView,
    IpAddressView, ManageStateView, ModalView, ScreenView,
};
use crate::ui;
use crate::ui::{Color, PanesView, SpanView, WidgetView};
use crate::utils;
use crate::utils_laws;
use vstd::prelude::*;

verus! {

// Reading

/// What a line reads, whatever its styles.
pub open spec fn read(line: Seq<SpanView>) -> Seq<char>
    decreases line.len(),
{
    if line.len() == 0 {
        seq![]
    } else {
        read(line.drop_last()) + line.last().text
    }
}

/// Whether a line has a text in it.
pub open spec fn holds(line: Seq<SpanView>, text: Seq<char>) -> bool {
    exists|i: int| 0 <= i < line.len() && (#[trigger] line[i]).text == text
}

/// The lines of a pane or a dialog without a list.
pub open spec fn lines_in(w: WidgetView) -> Seq<Seq<SpanView>> {
    match w {
        WidgetView::Paragraph { border, lines, wrap } => lines,
        WidgetView::List { border, items, selected, highlight } => seq![],
    }
}

/// The items of a list.
pub open spec fn items_in(w: WidgetView) -> Seq<Seq<Seq<SpanView>>> {
    match w {
        WidgetView::Paragraph { border, lines, wrap } => seq![],
        WidgetView::List { border, items, selected, highlight } => items,
    }
}

/// Which item of a list is marked.
pub open spec fn marked_in(w: WidgetView) -> Option<usize> {
    match w {
        WidgetView::Paragraph { border, lines, wrap } => None,
        WidgetView::List { border, items, selected, highlight } => selected,
    }
}

/// The color of the border of a list.
pub open spec fn border_of(w: WidgetView) -> Option<Color> {
    match w {
        WidgetView::Paragraph { border, lines, wrap } => border.style.fg,
        WidgetView::List { border, items, selected, highlight } => border.style.fg,
    }
}

/// Whether a list has one item for each of so many things, and marks the selected one.
pub open spec fn lists_all(w: WidgetView, n: nat, selected: usize) -> bool {
    &&& w is List
    &&& items_in(w).len() == n
    &&& n > 0 ==> marked_in(w) == Some(selected)
    &&& n == 0 ==> marked_in(w) is None
}

/// A text in decimal digits.
pub open spec fn digits(n: int) -> Seq<char> {
    number::decimal_text(n as nat)
}

/// Whether a text is the address under which a device is reached.
#[verifier::opaque]
pub open spec fn is_address(text: Seq<char>, addresses: Seq<IpAddressView>, port: u16) -> bool {
    &&& forall|i: int|
        0 <= i < addresses.len() && (#[trigger] addresses[i]).v4 && (forall|j: int|
            0 <= j < i ==> !(#[trigger] addresses[j]).v4) ==> text == addresses[i].text + ":"@
            + digits(port as int)
    &&& addresses.len() > 0 && (forall|i: int|
        0 <= i < addresses.len() ==> !(#[trigger] addresses[i]).v4) ==> text == "["@
        + addresses[0].text + "]:"@ + digits(port as int)
    &&& addresses.len() == 0 ==> text == "127.0.0.1"@ + ":"@ + digits(port as int)
}

proof fn lemma_address(addresses: Seq<IpAddressView>, port: u16)
    ensures
        is_address(utils::socket_text(utils::preferred(addresses), port), addresses, port),
{
    reveal(is_address);
    utils_laws::device_is_reached_at_an_address_of_its_own(addresses, port);
}

proof fn lemma_read_one(a: SpanView)
    ensures
        read(seq![a]) == a.text,
{
    reveal_with_fuel(read, 2);
    assert(seq![a].drop_last() =~= seq![]);
    assert(read(seq![a]) =~= a.text);
}

proof fn lemma_read_two(a: SpanView, b: SpanView)
    ensures
        read(seq![a, b]) == a.text + b.text,
{
    lemma_read_one(a);
    assert(seq![a, b].drop_last() =~= seq![a]);
}

proof fn lemma_read_three(a: SpanView, b: SpanView, c: SpanView)
    ensures
        read(seq![a, b, c]) == a.text + b.text + c.text,
{
    lemma_read_two(a, b);
    assert(seq![a, b, c].drop_last() =~= seq![a, b]);
}

proof fn lemma_read_four(a: SpanView, b: SpanView, c: SpanView, d: SpanView)
    ensures
        read(seq![a, b, c, d]) == a.text + b.text + c.text + d.text,
{
    lemma_read_three(a, b, c);
    assert(seq![a, b, c, d].drop_last() =~= seq![a, b, c]);
}

/// Whether a text stands on one line.
pub open spec fn is_one_line(s: Seq<char>) -> bool {
    forall|i: int| 0 <= i < s.len() ==> #[trigger] s[i] != '\n'
}

proof fn lemma_one_line(s: Seq<char>)
    requires
        is_one_line(s),
    ensures
        s.len() == 0 ==> state::lines_of(s) == Seq::<Seq<char>>::empty(),
        s.len() > 0 ==> state::lines_of(s) == seq![s],
        read(ui::side_by_side(s)) == s,
        ui::on_one_line(s) == s,
{
    text::lemma_span_before(s, '\n');
    let lines = state::lines_of(s);
    if s.len() > 0 {
        assert(lines == seq![s]);
        assert(ui::side_by_side(s) =~= seq![ui::plain(s)]);
        lemma_read_one(ui::plain(s));
    } else {
        assert(lines =~= seq![]);
        assert(ui::side_by_side(s) =~= seq![]);
        assert(read(ui::side_by_side(s)) =~= s);
        assert(ui::on_one_line(s) =~= s);
    }
}

proof fn lemma_digits_on_one_line(n: nat)
    ensures
        is_one_line(number::decimal_text(n)),
{
    number::decimal_reads_back(n, n);
    let s = number::decimal_text(n);
    assert forall|i: int| 0 <= i < s.len() implies #[trigger] s[i] != '\n' by {
        assert(number::is_digit(s[i]));
    }
}

// The overview

/// A text, or a dash where there is none.
pub open spec fn or_dash(text: Option<Seq<char>>) -> Seq<char> {
    match text {
        Some(text) => text,
        None => "-"@,
    }
}

/// Whether an item tells of a device that waits: its name, then its type and its address, then its
/// numbers.
pub open spec fn tells_of_waiting(item: Seq<Seq<SpanView>>, d: CommissionableDeviceView) -> bool {
    &&& item.len() == 3
    &&& read(item[0]) == d.display_name
    &&& exists|address: Seq<char>| #[trigger]
        is_address(address, d.addresses, d.port) && read(item[1]) == d.device_type + "  "@ + address
    &&& read(item[2]) == "disc="@ + or_dash(d.discriminator) + "  vid="@ + or_dash(d.vendor_id)
        + "  pid="@ + or_dash(d.product_id)
}

/// The overview lists every device that waits, in order and with the selected one marked.
pub proof fn waiting_devices_are_listed<C>(a: AppView<C>)
    requires
        a.screen is Overview,
    ensures
        ui::picture(a).panes matches PanesView::Overview {
            header,
            commissionable,
            commissioned,
            saved,
            footer,
        } && lists_all(commissionable, a.commissionable.len(), a.selected_commissionable)
            && forall|i: int|
            0 <= i < a.commissionable.len() ==> tells_of_waiting(
                #[trigger] items_in(commissionable)[i],
                a.commissionable[i],
            ),
{
    let items = items_in(ui::commissionable_list(a));
    assert forall|i: int| 0 <= i < a.commissionable.len() implies tells_of_waiting(
        #[trigger] items[i],
        a.commissionable[i],
    ) by {
        let d = a.commissionable[i];
        let item = ui::commissionable_item(d);
        let address = utils::socket_text(utils::preferred(d.addresses), d.port);
        lemma_address(d.addresses, d.port);
        lemma_read_one(item[0][0]);
        lemma_read_three(item[1][0], item[1][1], item[1][2]);
        lemma_read_one(item[2][0]);
    }
}

/// Whether an item tells of a commissioned device: of a known one its label and node id, of another
/// one its name, and then its address.
pub open spec fn tells_of_commissioned(
    item: Seq<Seq<SpanView>>,
    d: CommissionedDeviceView,
) -> bool {
    &&& 2 <= item.len() <= 3
    &&& read(item[0]) == match d.known {
        Some(known) => known.label + " node="@ + digits(known.node_id as int),
        None => d.display_name + " (unmanaged)"@,
    }
    &&& is_address(read(item[1]), d.addresses, d.port)
    &&& item.len() == 3 ==> read(item[2]) == "svc: "@ + d.display_name && d.known is Some
    &&& d.known matches Some(known) ==> is_one_line(known.label) ==> (item.len() == 3
        <==> d.display_name != read(item[0]))
}

proof fn lemma_commissioned_item(d: CommissionedDeviceView)
    ensures
        tells_of_commissioned(ui::commissioned_item(d), d),
{
    let item = ui::commissioned_item(d);
    let address = utils::socket_text(utils::preferred(d.addresses), d.port);
    lemma_address(d.addresses, d.port);
    lemma_read_one(ui::dimmed(address));
    match d.known {
        Some(known) => {
            let node = " node="@ + number::decimal_text(known.node_id as nat);
            let name = ui::strong(known.label);
            let mark = ui::inked(node, Some(Color::Green), false, true);
            assert(item[0] == seq![name, mark]);
            assert(item[1] == seq![ui::dimmed(address)]);
            lemma_read_two(name, mark);
            assert(read(item[0]) =~= known.label + " node="@ + digits(known.node_id as int));
            let service = ui::dimmed("svc: "@ + d.display_name);
            lemma_read_one(service);
            lemma_digits_on_one_line(known.node_id as nat);
            assert(is_one_line(node)) by {
                reveal_strlit(" node=");
                assert forall|i: int| 0 <= i < node.len() implies #[trigger] node[i] != '\n' by {
                    if i >= 6 {
                        assert(node[i] == number::decimal_text(known.node_id as nat)[i - 6]);
                    }
                }
            }
            lemma_one_line(node);
            if is_one_line(known.label) {
                lemma_one_line(known.label);
            }
        },
        None => {
            lemma_read_two(
                ui::strong(d.display_name),
                ui::inked(" (unmanaged)"@, Some(Color::DarkGray), false, true),
            );
        },
    }
}

/// The overview lists every commissioned device, in order and with the selected one marked.
pub proof fn commissioned_devices_are_listed<C>(a: AppView<C>)
    requires
        a.screen is Overview,
    ensures
        ui::picture(a).panes matches PanesView::Overview {
            header,
            commissionable,
            commissioned,
            saved,
            footer,
        } && lists_all(commissioned, a.commissioned.len(), a.selected_commissioned) && forall|
            i: int,
        |
            0 <= i < a.commissioned.len() ==> tells_of_commissioned(
                #[trigger] items_in(commissioned)[i],
                a.commissioned[i],
            ),
{
    let items = items_in(ui::commissioned_list(a));
    assert forall|i: int| 0 <= i < a.commissioned.len() implies tells_of_commissioned(
        #[trigger] items[i],
        a.commissioned[i],
    ) by {
        lemma_commissioned_item(a.commissioned[i]);
    }
}

/// The list that has the focus, and no other, has a border that stands out.
pub proof fn focus_is_shown<C>(a: AppView<C>)
    requires
        a.screen is Overview,
    ensures
        ui::picture(a).panes matches PanesView::Overview {
            header,
            commissionable,
            commissioned,
            saved,
            footer,
        } && border_of(commissionable) != border_of(commissioned) && (border_of(commissionable)
            == Some(Color::Cyan) <==> a.focus is Commissionable) && (border_of(commissioned) == Some(
            Color::Cyan,
        ) <==> a.focus is Commissioned),
{
}

/// Both screens end with the status, red where it is an error, green where it is a success and
/// yellow where something goes on.
pub proof fn status_is_shown<C>(a: AppView<C>)
    ensures
        ({
            let footer = match ui::picture(a).panes {
                PanesView::Overview { header, commissionable, commissioned, saved, footer } => footer,
                PanesView::Manage { header, endpoints, details, footer } => footer,
            };
            &&& lines_in(footer).len() == 2
            &&& lines_in(footer)[0].len() == 1
            &&& lines_in(footer)[0][0].text == a.status
            &&& (lines_in(footer)[0][0].style.fg == Some(Color::Red) <==> a.status_kind is Error)
            &&& (lines_in(footer)[0][0].style.fg == Some(Color::Green)
                <==> a.status_kind is Success)
            &&& (lines_in(footer)[0][0].style.fg == Some(Color::Yellow)
                <==> a.status_kind is Progress)
        }),
{
}

/// The overview begins with the id of the controller and the label of its fabric.
pub proof fn controller_is_shown<C>(a: AppView<C>)
    requires
        a.screen is Overview,
    ensures
        ui::picture(a).panes matches PanesView::Overview {
            header,
            commissionable,
            commissioned,
            saved,
            footer,
        } && lines_in(header).len() == 2 && read(lines_in(header)[1]) == "  Controller: "@ + digits(
            a.state.controller_id as int,
        ) + "   Fabric: "@ + a.state.fabric_label,
{
    let line = lines_in(ui::overview_header(a.state))[1];
    lemma_read_four(line[0], line[1], line[2], line[3]);
}

/// Below the status stand the keys that can be pressed on the screen.
pub proof fn keys_are_shown<C>(a: AppView<C>)
    ensures
        ui::picture(a).panes matches PanesView::Overview {
            header,
            commissionable,
            commissioned,
            saved,
            footer,
        } ==> a.screen is Overview && read(lines_in(footer)[1])
            == "Tab/←/→ switch pane  ↑↓ select  r refresh  c commission  Enter/m manage  q quit"@,
        ui::picture(a).panes matches PanesView::Manage { header, endpoints, details, footer }
            ==> a.screen is Manage && read(lines_in(footer)[1])
            == "↑↓ select  o on  p off  a actions  n rename  f fabric  d decommission  b/Esc back"@,
{
    lemma_read_one(
        ui::dimmed(
            "Tab/←/→ switch pane  ↑↓ select  r refresh  c commission  Enter/m manage  q quit"@,
        ),
    );
    lemma_read_one(
        ui::dimmed(
            "↑↓ select  o on  p off  a actions  n rename  f fabric  d decommission  b/Esc back"@,
        ),
    );
}

// Saved devices

/// Whether a line tells of a remembered device: its label, its node id and its last address.
pub open spec fn tells_of_saved(line: Seq<SpanView>, d: KnownDeviceView) -> bool {
    read(line) == d.label + "  node="@ + digits(d.node_id as int) + "  "@ + d.last_address
}

/// Whether a line tells of the names of the endpoints of a node, in order and two blanks apart.
pub open spec fn tells_of_names(
    line: Seq<SpanView>,
    aliases: Seq<EndpointAliasView>,
    node_id: u64,
) -> bool {
    read(line) == names_text(aliases, node_id)
}

/// The names of the endpoints of a node, each behind two blanks.
pub open spec fn names_text(aliases: Seq<EndpointAliasView>, node_id: u64) -> Seq<char>
    decreases aliases.len(),
{
    if aliases.len() == 0 {
        seq![]
    } else {
        let last = aliases.last();
        let before = names_text(aliases.drop_last(), node_id);
        if last.node_id == node_id {
            before + "  ep"@ + digits(last.endpoint_id as int) + "="@ + last.label
        } else {
            before
        }
    }
}

/// Whether a node has a name for one of its endpoints.
pub open spec fn has_names(aliases: Seq<EndpointAliasView>, node_id: u64) -> bool {
    exists|i: int| 0 <= i < aliases.len() && (#[trigger] aliases[i]).node_id == node_id
}

/// The number of lines that the first devices take: one each, and one more where there are names.
pub open spec fn height(devices: Seq<KnownDeviceView>, aliases: Seq<EndpointAliasView>) -> int
    decreases devices.len(),
{
    if devices.len() == 0 {
        0
    } else {
        height(devices.drop_last(), aliases) + if has_names(aliases, devices.last().node_id) {
            2int
        } else {
            1
        }
    }
}

proof fn lemma_names(aliases: Seq<EndpointAliasView>, node_id: u64)
    ensures
        ui::alias_texts(aliases, node_id).len() > 0 <==> has_names(aliases, node_id),
        ui::alias_texts(aliases, node_id).len() > 0 ==> names_text(aliases, node_id) == "  "@
            + text::joined(ui::alias_texts(aliases, node_id), "  "@),
        ui::alias_texts(aliases, node_id).len() == 0 ==> names_text(aliases, node_id) == Seq::<
            char,
        >::empty(),
    decreases aliases.len(),
{
    let p = |a: EndpointAliasView| a.node_id == node_id;
    let f = |a: EndpointAliasView| "ep"@ + number::decimal_text(a.endpoint_id as nat) + "="@ + a.label;
    reveal(Seq::filter);
    if aliases.len() > 0 {
        let front = aliases.drop_last();
        let last = aliases.last();
        lemma_names(front, node_id);
        let before = ui::alias_texts(front, node_id);
        let after = ui::alias_texts(aliases, node_id);
        if last.node_id == node_id {
            assert(aliases.filter(p) == front.filter(p).push(last));
            assert(after =~= before.push(f(last)));
            assert(after.drop_last() =~= before);
            assert(has_names(aliases, node_id)) by {
                assert(aliases[aliases.len() - 1].node_id == node_id);
            }
            reveal_strlit("  ep");
            reveal_strlit("ep");
            reveal_strlit("  ");
            assert("  ep"@ =~= "  "@ + "ep"@);
            assert(names_text(aliases, node_id) =~= "  "@ + text::joined(after, "  "@));
        } else {
            assert(aliases.filter(p) == front.filter(p));
            assert(after == before);
            if has_names(front, node_id) {
                let i = choose|i: int|
                    0 <= i < front.len() && (#[trigger] front[i]).node_id == node_id;
                assert(aliases[i].node_id == node_id);
            }
            if has_names(aliases, node_id) {
                let i = choose|i: int|
                    0 <= i < aliases.len() && (#[trigger] aliases[i]).node_id == node_id;
                assert(front[i].node_id == node_id);
            }
        }
    }
}

proof fn lemma_saved_device(d: KnownDeviceView, aliases: Seq<EndpointAliasView>)
    ensures
        ui::saved_device(d, aliases).len() == if has_names(aliases, d.node_id) {
            2int
        } else {
            1
        },
        tells_of_saved(ui::saved_device(d, aliases)[0], d),
        has_names(aliases, d.node_id) ==> tells_of_names(
            ui::saved_device(d, aliases)[1],
            aliases,
            d.node_id,
        ),
{
    lemma_names(aliases, d.node_id);
    let about = ui::dimmed(
        "  node="@ + number::decimal_text(d.node_id as nat) + "  "@ + d.last_address,
    );
    lemma_read_two(ui::strong(d.label), about);
    assert(read(seq![ui::strong(d.label), about]) =~= d.label + "  node="@ + digits(
        d.node_id as int,
    ) + "  "@ + d.last_address);
    let names = ui::dimmed("  "@ + text::joined(ui::alias_texts(aliases, d.node_id), "  "@));
    lemma_read_one(names);
}

proof fn lemma_saved_lines(
    devices: Seq<KnownDeviceView>,
    aliases: Seq<EndpointAliasView>,
    k: int,
)
    requires
        0 <= k < devices.len(),
    ensures
        ({
            let lines = ui::saved_lines(devices, aliases);
            let at = height(devices.take(k), aliases);
            &&& lines.len() == height(devices, aliases)
            &&& 0 <= at < lines.len()
            &&& tells_of_saved(lines[at], devices[k])
            &&& has_names(aliases, devices[k].node_id) ==> at + 1 < lines.len() && tells_of_names(
                lines[at + 1],
                aliases,
                devices[k].node_id,
            )
        }),
    decreases devices.len(),
{
    let front = devices.drop_last();
    lemma_saved_device(devices.last(), aliases);
    lemma_height(front, aliases);
    if k < devices.len() - 1 {
        lemma_saved_lines(front, aliases, k);
        assert(front.take(k) =~= devices.take(k));
    } else {
        assert(devices.take(k) =~= front);
    }
}

proof fn lemma_height(devices: Seq<KnownDeviceView>, aliases: Seq<EndpointAliasView>)
    ensures
        ui::saved_lines(devices, aliases).len() == height(devices, aliases),
    decreases devices.len(),
{
    if devices.len() > 0 {
        lemma_height(devices.drop_last(), aliases);
        lemma_saved_device(devices.last(), aliases);
    }
}

/// Every remembered device is shown, in order: its label, node id and last address, and below them
/// the names of its endpoints where it has such names.
pub proof fn remembered_devices_are_shown<C>(a: AppView<C>, k: int)
    requires
        a.screen is Overview,
        0 <= k < a.state.devices.len(),
    ensures
        ui::picture(a).panes matches PanesView::Overview {
            header,
            commissionable,
            commissioned,
            saved,
            footer,
        } && ({
            let d = a.state.devices[k];
            let at = height(a.state.devices.take(k), a.state.endpoint_aliases);
            let lines = lines_in(saved);
            &&& lines.len() == height(a.state.devices, a.state.endpoint_aliases)
            &&& 0 <= at < lines.len()
            &&& tells_of_saved(lines[at], d)
            &&& has_names(a.state.endpoint_aliases, d.node_id) ==> at + 1 < lines.len()
                && tells_of_names(lines[at + 1], a.state.endpoint_aliases, d.node_id)
        }),
{
    lemma_saved_lines(a.state.devices, a.state.endpoint_aliases, k);
}

// A device

/// A label, or that there is none.
pub open spec fn or_unnamed(label: Option<Seq<char>>) -> Seq<char> {
    match label {
        Some(label) => label,
        None => "unnamed"@,
    }
}

/// Whether an item tells of an endpoint: its id and label, and below them what it can do.
pub open spec fn tells_of_endpoint(item: Seq<Seq<SpanView>>, e: EndpointSummaryView) -> bool {
    &&& item.len() == 2
    &&& read(item[0]) == "ep"@ + digits(e.id as int) + " "@ + or_unnamed(e.label)
    &&& holds(item[1], "[on/off]"@) <==> e.has_on_off
    &&& holds(item[1], "[actions]"@) <==> e.actions.len() > 0
    &&& holds(item[1], "no capabilities"@) <==> !e.has_on_off && e.actions.len() == 0
}

proof fn lemma_words_differ()
    ensures
        "[on/off]"@ != "[actions]"@,
        "[on/off]"@ != " "@,
        "[actions]"@ != " "@,
        "no capabilities"@ != " "@,
        "no capabilities"@ != "[on/off]"@,
        "no capabilities"@ != "[actions]"@,
{
    reveal_strlit("[on/off]");
    reveal_strlit("[actions]");
    reveal_strlit(" ");
    reveal_strlit("no capabilities");
    assert("[on/off]"@.len() == 8);
    assert("[actions]"@.len() == 9);
    assert(" "@.len() == 1);
    assert("no capabilities"@.len() == 15);
}

proof fn lemma_endpoint_item(e: EndpointSummaryView)
    ensures
        tells_of_endpoint(ui::endpoint_item(e), e),
{
    lemma_words_differ();
    let item = ui::endpoint_item(e);
    let front = ui::dimmed("ep"@ + number::decimal_text(e.id as nat) + " "@);
    let name = ui::strong(ui::or_else(e.label, "unnamed"@));
    assert(item[0] == seq![front, name]);
    lemma_read_two(front, name);
    let c = ui::capabilities(e);
    assert(item[1] == c);
    if e.has_on_off {
        assert(c[0].text == "[on/off]"@);
    }
    if e.actions.len() > 0 {
        if e.has_on_off {
            assert(c[2].text == "[actions]"@);
        } else {
            assert(c[0].text == "[actions]"@);
        }
    }
    if !e.has_on_off && e.actions.len() == 0 {
        assert(c[0].text == "no capabilities"@);
    }
}

/// The screen of a device lists every endpoint, in order and with the selected one marked.
pub proof fn endpoints_are_listed<C>(a: AppView<C>, m: ManageStateView<C>)
    requires
        a.screen == ScreenView::Manage(m),
    ensures
        ui::picture(a).panes matches PanesView::Manage { header, endpoints, details, footer }
            && lists_all(endpoints, m.endpoints.len(), m.selected_endpoint) && forall|i: int|
            0 <= i < m.endpoints.len() ==> tells_of_endpoint(
                #[trigger] items_in(endpoints)[i],
                m.endpoints[i],
            ),
{
    let items = items_in(ui::endpoint_list(m));
    assert forall|i: int| 0 <= i < m.endpoints.len() implies tells_of_endpoint(
        #[trigger] items[i],
        m.endpoints[i],
    ) by {
        lemma_endpoint_item(m.endpoints[i]);
    }
}

/// Texts with commas between them.
pub open spec fn listed(texts: Seq<Seq<char>>) -> Seq<char>
    recommends
        texts.len() > 0,
    decreases texts.len(),
{
    if texts.len() <= 1 {
        texts[0]
    } else {
        listed(texts.drop_last()) + ", "@ + texts.last()
    }
}

/// Texts with commas between them are joined texts.
pub proof fn lemma_listed(texts: Seq<Seq<char>>)
    requires
        texts.len() > 0,
    ensures
        listed(texts) == text::joined(texts, ", "@),
    decreases texts.len(),
{
    if texts.len() > 1 {
        lemma_listed(texts.drop_last());
    }
}

/// Whether lines tell all that is known of an endpoint.
pub open spec fn tells_details(lines: Seq<Seq<SpanView>>, e: EndpointSummaryView) -> bool {
    &&& lines.len() == if e.actions.len() > 0 {
        6 + e.actions.len()
    } else {
        4
    }
    &&& read(lines[0]) == "Endpoint:  "@ + digits(e.id as int)
    &&& read(lines[1]) == "Label:     "@ + or_unnamed(e.label)
    &&& e.device_types.len() > 0 ==> read(lines[2]) == "Types:     "@ + listed(e.device_types)
    &&& e.device_types.len() == 0 ==> read(lines[2]) == "Types:     unknown type"@
    &&& read(lines[3]) == if e.has_on_off {
        "OnOff:     yes"@
    } else {
        "OnOff:     no"@
    }
    &&& forall|i: int|
        0 <= i < e.actions.len() ==> read(#[trigger] lines[6 + i]) == "  "@ + or_unnamed(
            e.actions[i].name,
        ) + " (id="@ + digits(
            match e.actions[i].action_id {
                Some(id) => id as int,
                None => 0,
            },
        ) + ")"@
}

proof fn lemma_details(e: EndpointSummaryView)
    ensures
        tells_details(ui::endpoint_details(e), e),
{
    let lines = ui::endpoint_details(e);
    if e.device_types.len() > 0 {
        lemma_listed(e.device_types);
    }
    assert(lines[0] =~= seq![lines[0][0], lines[0][1]]);
    assert(lines[1] =~= seq![lines[1][0], lines[1][1]]);
    assert(lines[2] =~= seq![lines[2][0], lines[2][1]]);
    assert(lines[3] =~= seq![lines[3][0], lines[3][1]]);
    lemma_read_two(lines[0][0], lines[0][1]);
    lemma_read_two(lines[1][0], lines[1][1]);
    lemma_read_two(lines[2][0], lines[2][1]);
    lemma_read_two(lines[3][0], lines[3][1]);
    reveal_strlit("Types:     ");
    reveal_strlit("unknown type");
    reveal_strlit("Types:     unknown type");
    assert("Types:     unknown type"@ =~= "Types:     "@ + "unknown type"@);
    reveal_strlit("OnOff:     ");
    reveal_strlit("yes");
    reveal_strlit("no");
    reveal_strlit("OnOff:     yes");
    reveal_strlit("OnOff:     no");
    assert("OnOff:     yes"@ =~= "OnOff:     "@ + "yes"@);
    assert("OnOff:     no"@ =~= "OnOff:     "@ + "no"@);
    assert forall|i: int| 0 <= i < e.actions.len() implies read(#[trigger] lines[6 + i]) == "  "@
        + or_unnamed(e.actions[i].name) + " (id="@ + digits(
        match e.actions[i].action_id {
            Some(id) => id as int,
            None => 0,
        },
    ) + ")"@ by {
        assert(lines[6 + i] == ui::action_line(e.actions[i]));
        lemma_read_one(ui::action_line(e.actions[i])[0]);
    }
}

/// The details are those of the selected endpoint.
pub proof fn selected_endpoint_is_detailed<C>(a: AppView<C>, m: ManageStateView<C>)
    requires
        a.screen == ScreenView::Manage(m),
        m.selected_endpoint < m.endpoints.len(),
    ensures
        ui::picture(a).panes matches PanesView::Manage { header, endpoints, details, footer }
            && tells_details(lines_in(details), m.endpoints[m.selected_endpoint as int]),
{
    lemma_details(m.endpoints[m.selected_endpoint as int]);
}

/// The screen of a device begins with its label, its node id and its last address.
pub proof fn managed_device_is_shown<C>(a: AppView<C>, m: ManageStateView<C>)
    requires
        a.screen == ScreenView::Manage(m),
    ensures
        ui::picture(a).panes matches PanesView::Manage { header, endpoints, details, footer }
            && lines_in(header).len() == 2 && read(lines_in(header)[0]) == " "@ + m.device.label
            && read(lines_in(header)[1]) == "  node="@ + digits(m.device.node_id as int)
            + "   addr="@ + m.device.last_address,
{
    let lines = lines_in(ui::manage_header(m.device));
    lemma_read_two(lines[0][0], lines[0][1]);
    lemma_read_four(lines[1][0], lines[1][1], lines[1][2], lines[1][3]);
}

// Dialogs

/// The title in the upper edge of a pane or a dialog.
pub open spec fn title_of(w: WidgetView) -> Option<Seq<SpanView>> {
    match w {
        WidgetView::Paragraph { border, lines, wrap } => border.title,
        WidgetView::List { border, items, selected, highlight } => border.title,
    }
}

/// Whether a dialog asks for a line of text: it has the title, says what is asked for, and shows
/// what has been typed.
pub open spec fn asks_for_text(
    w: WidgetView,
    title: Seq<char>,
    help: Seq<char>,
    typed: Seq<char>,
) -> bool {
    &&& is_one_line(title) ==> (title_of(w) matches Some(line) && read(line) == " "@ + title + " "@)
    &&& lines_in(w).len() == 5
    &&& read(lines_in(w)[0]) == help
    &&& read(lines_in(w)[2]) == "> "@ + typed + "█"@
}

/// Whether a dialog says a message and then what can be pressed.
pub open spec fn says_message(w: WidgetView, message: Seq<char>, keys: Seq<char>) -> bool {
    &&& lines_in(w).len() == 3
    &&& is_one_line(message) ==> read(lines_in(w)[0]) == message
    &&& read(lines_in(w)[2]) == keys
}

proof fn lemma_padded(title: Seq<char>)
    requires
        is_one_line(title),
    ensures
        read(ui::side_by_side(ui::padded(title))) == " "@ + title + " "@,
{
    let s = ui::padded(title);
    reveal_strlit(" ");
    assert forall|i: int| 0 <= i < s.len() implies #[trigger] s[i] != '\n' by {
        if 1 <= i < s.len() - 1 {
            assert(s[i] == title[i - 1]);
        }
    }
    lemma_one_line(s);
}

proof fn lemma_input_box(title: Seq<char>, value: Seq<char>, help: Seq<char>)
    ensures
        asks_for_text(ui::input_box(title, value, help), title, help, value),
{
    let lines = lines_in(ui::input_box(title, value, help));
    lemma_read_one(lines[0][0]);
    lemma_read_three(lines[2][0], lines[2][1], lines[2][2]);
    if is_one_line(title) {
        lemma_padded(title);
    }
}

/// A dialog is shown if and only if one is open. One that asks for text shows its title, its help and
/// what has been typed so far.
pub proof fn typed_text_is_shown<C>(a: AppView<C>)
    ensures
        ui::picture(a).dialog is Some <==> a.modal is Some,
        a.modal matches Some(ModalView::Input(d)) ==> asks_for_text(
            ui::picture(a).dialog->0,
            d.title,
            d.help,
            d.value,
        ),
        a.modal matches Some(ModalView::CommissionDeviceName { pending, value }) ==> asks_for_text(
            ui::picture(a).dialog->0,
            "Commission — Device Name"@,
            "Give this device a local name.  Suggested: "@ + pending.device_label,
            value,
        ),
        a.modal matches Some(ModalView::CommissionFabricName { pending, value }) ==> asks_for_text(
            ui::picture(a).dialog->0,
            "Commission — Fabric Label"@,
            "Label written to node "@ + digits(pending.node_id as int) + ". Default: "@
                + pending.fabric_label,
            value,
        ),
        a.modal matches Some(ModalView::CommissionEndpointName { pending, index, value })
            ==> asks_for_text(
            ui::picture(a).dialog->0,
            "Commission — Endpoint "@ + digits(pending.endpoints[index as int].id as int)
                + " Label  ["@ + digits(index + 1) + "/"@ + digits(pending.endpoints.len() as int)
                + "]"@,
            "Local alias for this endpoint.  Press Enter to accept."@,
            value,
        ),
{
    match a.modal {
        Some(ModalView::Input(d)) => {
            lemma_input_box(d.title, d.value, d.help);
        },
        Some(ModalView::CommissionDeviceName { pending, value }) => {
            lemma_input_box(
                "Commission — Device Name"@,
                value,
                "Give this device a local name.  Suggested: "@ + pending.device_label,
            );
        },
        Some(ModalView::CommissionFabricName { pending, value }) => {
            lemma_input_box(
                "Commission — Fabric Label"@,
                value,
                "Label written to node "@ + digits(pending.node_id as int) + ". Default: "@
                    + pending.fabric_label,
            );
        },
        Some(ModalView::CommissionEndpointName { pending, index, value }) => {
            lemma_input_box(
                "Commission — Endpoint "@ + digits(pending.endpoints[index as int].id as int)
                    + " Label  ["@ + digits(index + 1) + "/"@ + digits(
                    pending.endpoints.len() as int,
                ) + "]"@,
                value,
                "Local alias for this endpoint.  Press Enter to accept."@,
            );
        },
        _ => {},
    }
}

/// A message, and a question that is answered by yes or no, are shown with the keys that answer them.
pub proof fn messages_are_shown<C>(a: AppView<C>)
    ensures
        a.modal matches Some(ModalView::Message(message)) ==> says_message(
            ui::picture(a).dialog->0,
            message,
            "Press Enter or Esc to dismiss."@,
        ),
        a.modal matches Some(ModalView::Confirm(d)) ==> (says_message(
            ui::picture(a).dialog->0,
            d.message,
            "y = yes    n / Esc = cancel"@,
        ) && (is_one_line(d.title) ==> (title_of(ui::picture(a).dialog->0) matches Some(line)
            && read(line) == " "@ + d.title + " "@))),
{
    match a.modal {
        Some(ModalView::Message(message)) => {
            lemma_read_one(ui::dimmed("Press Enter or Esc to dismiss."@));
            if is_one_line(message) {
                lemma_one_line(message);
            }
        },
        Some(ModalView::Confirm(d)) => {
            lemma_read_one(ui::dimmed("y = yes    n / Esc = cancel"@));
            if is_one_line(d.message) {
                lemma_one_line(d.message);
            }
            if is_one_line(d.title) {
                lemma_padded(d.title);
            }
        },
        _ => {},
    }
}

/// A dialog that offers commands lists the label of each, in order and with the selected one marked.
pub proof fn options_are_listed<C>(a: AppView<C>, d: ActionDialogView)
    requires
        a.modal == Some(ModalView::<C>::Action(d)),
    ensures
        lists_all(ui::picture(a).dialog->0, d.options.len(), d.selected),
        is_one_line(d.title) ==> (title_of(ui::picture(a).dialog->0) matches Some(line) && read(line)
            == " "@ + d.title + " "@),
        forall|i: int|
            0 <= i < d.options.len() && is_one_line(d.options[i].label) ==> (
            #[trigger] items_in(ui::picture(a).dialog->0)[i]).len() == 1 && read(
                items_in(ui::picture(a).dialog->0)[i][0],
            ) == d.options[i].label,
{
    let w = ui::action_list(d);
    assert(ui::picture(a).dialog->0 == w);
    if is_one_line(d.title) {
        lemma_padded(d.title);
    }
    assert forall|i: int| 0 <= i < d.options.len() && is_one_line(d.options[i].label) implies (
    #[trigger] items_in(w)[i]).len() == 1 && read(items_in(w)[i][0]) == d.options[i].label by {
        let label = d.options[i].label;
        assert(items_in(w)[i] == ui::label_lines(label));
        lemma_one_line(label);
        if label.len() > 0 {
            assert(ui::label_lines(label) =~= seq![ui::side_by_side(label)]);
        }
    }
}

} // verus!
