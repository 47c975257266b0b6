//! What the terminal shows: the contents of every pane and dialog, with their styles.

use crate::app::App;
use crate::app_model::AppView;
use crate::number;
use crate::number::decimal;
use crate::state;
use crate::state::{AppState, AppStateView, EndpointAliasView, KnownDeviceView};
use crate::text;
use crate::text::{chars_of, join, same_text};
use crate::types::{
    ActionDialog, ActionDialogView, ActionOptionView, ActionView, CommissionableDevice,
    CommissionableDeviceView, CommissionedDevice, CommissionedDeviceView, EndpointSummary,
    EndpointSummaryView, FocusPane, ManageState, ManageStateView, Modal, ModalView, Screen,
    ScreenView, StatusKind,
};
use crate::utils;
use crate::utils::{first_socket_addr, format_device_types};
use vstd::prelude::*;

verus! {

/// A color.
#[derive(Clone, Copy, Debug, PartialEq, Eq, Structural)]
pub enum Color {
    Black,
    Cyan,
    DarkGray,
    Green,
    Magenta,
    Red,
    Yellow,
}

/// How a text is shown.
#[derive(Clone, Copy, Debug, PartialEq, Eq, Structural)]
pub struct Style {
    pub fg: Option<Color>,
    pub bg: Option<Color>,
    pub bold: bool,
    pub dim: bool,
}

/// A text in one style.
#[derive(Debug)]
pub struct Span {
    pub text: String,
    pub style: Style,
}

/// A line of texts.
#[derive(Debug)]
pub struct Line {
    pub spans: Vec<Span>,
}

/// The border around a pane, with the texts in its upper and lower edge.
#[derive(Debug)]
pub struct Border {
    pub title: Option<Line>,
    pub bottom: Option<Line>,
    pub style: Style,
}

/// A pane or a dialog: lines, or a list of which every item has lines.
#[derive(Debug)]
pub enum Widget {
    Paragraph { border: Border, lines: Vec<Line>, wrap: bool },
    List { border: Border, items: Vec<Vec<Line>>, selected: Option<usize>, highlight: Style },
}

/// The panes of a screen.
#[derive(Debug)]
pub enum Panes {
    Overview {
        header: Widget,
        commissionable: Widget,
        commissioned: Widget,
        saved: Widget,
        footer: Widget,
    },
    Manage { header: Widget, endpoints: Widget, details: Widget, footer: Widget },
}

/// All that is shown: the panes, and the dialog in front of them.
#[derive(Debug)]
pub struct Picture {
    pub panes: Panes,
    pub dialog: Option<Widget>,
}

/// The contents of a [`Span`].
#[verifier::ext_equal]
pub struct SpanView {
    pub text: Seq<char>,
    pub style: Style,
}

/// The contents of a [`Border`].
#[verifier::ext_equal]
pub struct BorderView {
    pub title: Option<Seq<SpanView>>,
    pub bottom: Option<Seq<SpanView>>,
    pub style: Style,
}

/// The contents of a [`Widget`].
#[verifier::ext_equal]
pub enum WidgetView {
    Paragraph { border: BorderView, lines: Seq<Seq<SpanView>>, wrap: bool },
    List {
        border: BorderView,
        items: Seq<Seq<Seq<SpanView>>>,
        selected: Option<usize>,
        highlight: Style,
    },
}

/// The contents of [`Panes`].
#[verifier::ext_equal]
pub enum PanesView {
    Overview {
        header: WidgetView,
        commissionable: WidgetView,
        commissioned: WidgetView,
        saved: WidgetView,
        footer: WidgetView,
    },
    Manage { header: WidgetView, endpoints: WidgetView, details: WidgetView, footer: WidgetView },
}

/// The contents of a [`Picture`].
#[verifier::ext_equal]
pub struct PictureView {
    pub panes: PanesView,
    pub dialog: Option<WidgetView>,
}

impl DeepView for Span {
    type V = SpanView;

    open spec fn deep_view(&self) -> SpanView {
        SpanView { text: self.text@, style: self.style }
    }
}

impl DeepView for Line {
    type V = Seq<SpanView>;

    open spec fn deep_view(&self) -> Seq<SpanView> {
        self.spans.deep_view()
    }
}

impl DeepView for Border {
    type V = BorderView;

    open spec fn deep_view(&self) -> BorderView {
        BorderView {
            title: self.title.deep_view(),
            bottom: self.bottom.deep_view(),
            style: self.style,
        }
    }
}

impl DeepView for Widget {
    type V = WidgetView;

    open spec fn deep_view(&self) -> WidgetView {
        match self {
            Widget::Paragraph { border, lines, wrap } => WidgetView::Paragraph {
                border: border.deep_view(),
                lines: lines.deep_view(),
                wrap: *wrap,
            },
            Widget::List { border, items, selected, highlight } => WidgetView::List {
                border: border.deep_view(),
                items: items.deep_view(),
                selected: *selected,
                highlight: *highlight,
            },
        }
    }
}

impl DeepView for Panes {
    type V = PanesView;

    open spec fn deep_view(&self) -> PanesView {
        match self {
            Panes::Overview {
                header,
                commissionable,
                commissioned,
                saved,
                footer,
            } => PanesView::Overview {
                header: header.deep_view(),
                commissionable: commissionable.deep_view(),
                commissioned: commissioned.deep_view(),
                saved: saved.deep_view(),
                footer: footer.deep_view(),
            },
            Panes::Manage { header, endpoints, details, footer } => PanesView::Manage {
                header: header.deep_view(),
                endpoints: endpoints.deep_view(),
                details: details.deep_view(),
                footer: footer.deep_view(),
            },
        }
    }
}

impl DeepView for Picture {
    type V = PictureView;

    open spec fn deep_view(&self) -> PictureView {
        PictureView { panes: self.panes.deep_view(), dialog: self.dialog.deep_view() }
    }
}

// Parts

/// A style without a background.
pub open spec fn ink(fg: Option<Color>, bold: bool, dim: bool) -> Style {
    Style { fg, bg: None, bold, dim }
}

/// A text in a style without a background.
pub open spec fn inked(text: Seq<char>, fg: Option<Color>, bold: bool, dim: bool) -> SpanView {
    SpanView { text, style: ink(fg, bold, dim) }
}

/// A text in no particular style.
pub open spec fn plain(text: Seq<char>) -> SpanView {
    inked(text, None, false, false)
}

/// A text that stays in the background.
pub open spec fn dimmed(text: Seq<char>) -> SpanView {
    inked(text, None, false, true)
}

/// A text that stands out.
pub open spec fn strong(text: Seq<char>) -> SpanView {
    inked(text, None, true, false)
}

/// The lines of a text, side by side; nothing of an empty text.
pub open spec fn side_by_side(s: Seq<char>) -> Seq<SpanView> {
    state::lines_of(s).map_values(|l: Seq<char>| plain(l))
}

/// A line with nothing in it.
pub open spec fn blank() -> Seq<SpanView> {
    seq![]
}

/// The style of the selected item of a list.
pub open spec fn highlighted(bg: Color) -> Style {
    Style { fg: Some(Color::Black), bg: Some(bg), bold: true, dim: false }
}

/// A border with a title.
pub open spec fn titled(title: Seq<char>) -> BorderView {
    BorderView { title: Some(side_by_side(title)), bottom: None, style: ink(None, false, false) }
}

/// A border without a title.
pub open spec fn untitled() -> BorderView {
    BorderView { title: None, bottom: None, style: ink(None, false, false) }
}

/// The title of a dialog, with blanks around it.
pub open spec fn padded(title: Seq<char>) -> Seq<char> {
    " "@ + title + " "@
}

/// The selection of a list; none in an empty list.
pub open spec fn selection(selected: usize, len: nat) -> Option<usize> {
    if len == 0 {
        None
    } else {
        Some(selected)
    }
}

/// A text, or another one where there is none.
pub open spec fn or_else(text: Option<Seq<char>>, other: Seq<char>) -> Seq<char> {
    match text {
        Some(text) => text,
        None => other,
    }
}

fn span(text: &str, fg: Option<Color>, bold: bool, dim: bool) -> (r: Span)
    ensures
        r.deep_view() == inked(text@, fg, bold, dim),
{
    Span { text: text.to_string(), style: Style { fg, bg: None, bold, dim } }
}

fn raw(text: &str) -> (r: Span)
    ensures
        r.deep_view() == plain(text@),
{
    span(text, None, false, false)
}

fn faint(text: &str) -> (r: Span)
    ensures
        r.deep_view() == dimmed(text@),
{
    span(text, None, false, true)
}

fn bold(text: &str) -> (r: Span)
    ensures
        r.deep_view() == strong(text@),
{
    span(text, None, true, false)
}

fn line(a: Span) -> (r: Line)
    ensures
        r.deep_view() == seq![a.deep_view()],
{
    let mut spans: Vec<Span> = Vec::new();
    spans.push(a);
    assert(spans.deep_view() =~= seq![a.deep_view()]);
    Line { spans }
}

fn draw_side_by_side(s: &str) -> (r: Line)
    ensures
        r.deep_view() == side_by_side(s@),
{
    let parts = state::lines(chars_of(s).as_slice());
    let ghost all = side_by_side(s@);
    let mut spans: Vec<Span> = Vec::new();
    let mut i: usize = 0;
    while i < parts.len()
        invariant
            i <= parts.len(),
            all == side_by_side(s@),
            parts.deep_view() == state::lines_of(s@),
            spans.deep_view() == all.take(i as int),
        decreases parts.len() - i,
    {
        let ghost before = spans.deep_view();
        assert(parts.deep_view()[i as int] == parts@[i as int]@);
        spans.push(raw(parts[i].as_str()));
        assert(spans.deep_view() =~= before.push(all[i as int]));
        assert(spans.deep_view() =~= all.take(i + 1));
        i += 1;
    }
    assert(parts.deep_view().len() == parts@.len());
    assert(all.take(i as int) =~= all);
    Line { spans }
}

fn blank_line() -> (r: Line)
    ensures
        r.deep_view() == blank(),
{
    let spans: Vec<Span> = Vec::new();
    assert(spans.deep_view() =~= blank());
    Line { spans }
}

fn line_of_two(a: Span, b: Span) -> (r: Line)
    ensures
        r.deep_view() == seq![a.deep_view(), b.deep_view()],
{
    let mut spans: Vec<Span> = Vec::new();
    spans.push(a);
    spans.push(b);
    assert(spans.deep_view() =~= seq![a.deep_view(), b.deep_view()]);
    Line { spans }
}

fn line_of_three(a: Span, b: Span, c: Span) -> (r: Line)
    ensures
        r.deep_view() == seq![a.deep_view(), b.deep_view(), c.deep_view()],
{
    let mut spans: Vec<Span> = Vec::new();
    spans.push(a);
    spans.push(b);
    spans.push(c);
    assert(spans.deep_view() =~= seq![a.deep_view(), b.deep_view(), c.deep_view()]);
    Line { spans }
}

fn line_of_four(a: Span, b: Span, c: Span, d: Span) -> (r: Line)
    ensures
        r.deep_view() == seq![a.deep_view(), b.deep_view(), c.deep_view(), d.deep_view()],
{
    let mut spans: Vec<Span> = Vec::new();
    spans.push(a);
    spans.push(b);
    spans.push(c);
    spans.push(d);
    assert(spans.deep_view() =~= seq![a.deep_view(), b.deep_view(), c.deep_view(), d.deep_view()]);
    Line { spans }
}

fn add_line(lines: &mut Vec<Line>, line: Line)
    ensures
        final(lines).deep_view() == old(lines).deep_view().push(line.deep_view()),
{
    lines.push(line);
    assert(lines.deep_view() =~= old(lines).deep_view().push(line.deep_view()));
}

fn no_lines() -> (r: Vec<Line>)
    ensures
        r.deep_view() == Seq::<Seq<SpanView>>::empty(),
{
    let r: Vec<Line> = Vec::new();
    assert(r.deep_view() =~= Seq::<Seq<SpanView>>::empty());
    r
}

fn plain_border(title: Option<&str>) -> (r: Border)
    ensures
        r.deep_view() == match title {
            Some(title) => titled(title@),
            None => untitled(),
        },
{
    let title = match title {
        Some(title) => Some(draw_side_by_side(title)),
        None => None,
    };
    Border { title, bottom: None, style: Style { fg: None, bg: None, bold: false, dim: false } }
}

fn highlight(bg: Color) -> (r: Style)
    ensures
        r == highlighted(bg),
{
    Style { fg: Some(Color::Black), bg: Some(bg), bold: true, dim: false }
}

/// The selection of a list; none in an empty list.
pub fn list_state(selected: usize, empty: bool) -> (r: Option<usize>)
    ensures
        r == if empty {
            None
        } else {
            Some(selected)
        },
{
    if empty {
        None
    } else {
        Some(selected)
    }
}

/// The border of a list that has the focus, or does not have it.
pub open spec fn focus_border(title: Seq<char>, focused: bool) -> BorderView {
    let color = if focused {
        Color::Cyan
    } else {
        Color::DarkGray
    };
    BorderView {
        title: Some(seq![inked(title, Some(color), focused, false)]),
        bottom: None,
        style: ink(Some(color), false, false),
    }
}

/// The border of a list that has the focus, or does not have it.
pub fn focus_block(title: &str, focused: bool) -> (r: Border)
    ensures
        r.deep_view() == focus_border(title@, focused),
{
    let color = if focused {
        Color::Cyan
    } else {
        Color::DarkGray
    };
    Border {
        title: Some(line(span(title, Some(color), focused, false))),
        bottom: None,
        style: Style { fg: Some(color), bg: None, bold: false, dim: false },
    }
}

/// The color of a status.
pub open spec fn status_color(kind: StatusKind) -> Option<Color> {
    match kind {
        StatusKind::Success => Some(Color::Green),
        StatusKind::Progress => Some(Color::Yellow),
        StatusKind::Error => Some(Color::Red),
        StatusKind::Normal => None,
    }
}

/// The style of a status.
pub fn status_style(kind: StatusKind) -> (r: Style)
    ensures
        r == ink(status_color(kind), false, false),
{
    let fg = match kind {
        StatusKind::Success => Some(Color::Green),
        StatusKind::Progress => Some(Color::Yellow),
        StatusKind::Error => Some(Color::Red),
        StatusKind::Normal => None,
    };
    Style { fg, bg: None, bold: false, dim: false }
}

/// How a stretch is parted so that its middle takes so many percent of it.
pub fn centered(percent: u16) -> (r: (u16, u16, u16))
    requires
        percent <= 100,
    ensures
        r.0 == (100 - percent) / 2,
        r.1 == percent,
        r.2 == r.0,
        r.0 + r.1 + r.2 <= 100,
{
    let margin: u16 = (100 - percent) / 2;
    (margin, percent, margin)
}

// Overview

/// The header of the overview.
pub open spec fn overview_header(s: AppStateView) -> WidgetView {
    WidgetView::Paragraph {
        border: untitled(),
        lines: seq![
            seq![inked(" Matter Client"@, Some(Color::Cyan), true, false)],
            seq![
                plain("  Controller: "@),
                inked(
                    number::decimal_text(s.controller_id as nat),
                    Some(Color::Yellow),
                    false,
                    false,
                ),
                plain("   Fabric: "@),
                inked(s.fabric_label, Some(Color::Yellow), false, false),
            ],
        ],
        wrap: false,
    }
}

fn draw_overview_header(s: &AppState) -> (r: Widget)
    ensures
        r.deep_view() == overview_header(s.deep_view()),
{
    let mut lines = no_lines();
    add_line(&mut lines, line(span(" Matter Client", Some(Color::Cyan), true, false)));
    add_line(
        &mut lines,
        line_of_four(
            raw("  Controller: "),
            span(decimal(s.controller_id).as_str(), Some(Color::Yellow), false, false),
            raw("   Fabric: "),
            span(s.fabric_label.as_str(), Some(Color::Yellow), false, false),
        ),
    );
    let r = Widget::Paragraph { border: plain_border(None), lines, wrap: false };
    assert(r.deep_view() =~= overview_header(s.deep_view()));
    r
}

/// The item of a device that waits to be commissioned.
pub open spec fn commissionable_item(d: CommissionableDeviceView) -> Seq<Seq<SpanView>> {
    seq![
        seq![strong(d.display_name)],
        seq![
            inked(d.device_type, Some(Color::Cyan), false, true),
            plain("  "@),
            dimmed(utils::socket_text(utils::preferred(d.addresses), d.port)),
        ],
        seq![
            dimmed(
                "disc="@ + or_else(d.discriminator, "-"@) + "  vid="@ + or_else(d.vendor_id, "-"@)
                    + "  pid="@ + or_else(d.product_id, "-"@),
            ),
        ],
    ]
}

fn append_or_dash(r: &mut String, value: &Option<String>)
    ensures
        final(r)@ == old(r)@ + or_else(value.deep_view(), "-"@),
{
    match value {
        Some(value) => r.append(value.as_str()),
        None => r.append("-"),
    }
}

fn draw_commissionable_item(d: &CommissionableDevice) -> (r: Vec<Line>)
    ensures
        r.deep_view() == commissionable_item(d.deep_view()),
{
    let mut ids: String = "disc=".to_string();
    append_or_dash(&mut ids, &d.discriminator);
    ids.append("  vid=");
    append_or_dash(&mut ids, &d.vendor_id);
    ids.append("  pid=");
    append_or_dash(&mut ids, &d.product_id);
    let mut lines = no_lines();
    add_line(&mut lines, line(bold(d.display_name.as_str())));
    add_line(
        &mut lines,
        line_of_three(
            span(d.device_type.as_str(), Some(Color::Cyan), false, true),
            raw("  "),
            faint(first_socket_addr(&d.addresses, d.port).as_str()),
        ),
    );
    add_line(&mut lines, line(faint(ids.as_str())));
    assert(lines.deep_view() =~= commissionable_item(d.deep_view()));
    lines
}

/// The list of the devices that wait to be commissioned.
pub open spec fn commissionable_list<C>(a: AppView<C>) -> WidgetView {
    WidgetView::List {
        border: focus_border(" Commissionable "@, a.focus == FocusPane::Commissionable),
        items: a.commissionable.map_values(|d: CommissionableDeviceView| commissionable_item(d)),
        selected: selection(a.selected_commissionable, a.commissionable.len()),
        highlight: highlighted(Color::Cyan),
    }
}

fn render_commissionable_list<C>(app: &App<C>) -> (r: Widget)
    ensures
        r.deep_view() == commissionable_list(app.deep_view()),
{
    let ghost all = app.commissionable.deep_view().map_values(
        |d: CommissionableDeviceView| commissionable_item(d),
    );
    let mut items: Vec<Vec<Line>> = Vec::new();
    let mut i: usize = 0;
    while i < app.commissionable.len()
        invariant
            i <= app.commissionable.len(),
            all == app.commissionable.deep_view().map_values(
                |d: CommissionableDeviceView| commissionable_item(d),
            ),
            items.deep_view() == all.take(i as int),
        decreases app.commissionable.len() - i,
    {
        let ghost before = items.deep_view();
        assert(app.commissionable.deep_view()[i as int]
            == app.commissionable@[i as int].deep_view());
        items.push(draw_commissionable_item(&app.commissionable[i]));
        assert(items.deep_view() =~= before.push(all[i as int]));
        assert(items.deep_view() =~= all.take(i + 1));
        i += 1;
    }
    assert(all.take(i as int) =~= all);
    Widget::List {
        border: focus_block(" Commissionable ", app.focus == FocusPane::Commissionable),
        items,
        selected: list_state(app.selected_commissionable, app.commissionable.len() == 0),
        highlight: highlight(Color::Cyan),
    }
}

/// A text without its line ends.
pub open spec fn on_one_line(s: Seq<char>) -> Seq<char> {
    text::joined(state::lines_of(s), ""@)
}

/// The item of a commissioned device. The name of its service is shown where it says something new.
pub open spec fn commissioned_item(d: CommissionedDeviceView) -> Seq<Seq<SpanView>> {
    let address = seq![dimmed(utils::socket_text(utils::preferred(d.addresses), d.port))];
    match d.known {
        Some(known) => {
            let node = " node="@ + number::decimal_text(known.node_id as nat);
            let lines = seq![
                seq![strong(known.label), inked(node, Some(Color::Green), false, true)],
                address,
            ];
            if d.display_name != on_one_line(known.label) + on_one_line(node) {
                lines.push(seq![dimmed("svc: "@ + d.display_name)])
            } else {
                lines
            }
        },
        None => seq![
            seq![
                strong(d.display_name),
                inked(" (unmanaged)"@, Some(Color::DarkGray), false, true),
            ],
            address,
        ],
    }
}

fn flatten(s: &str) -> (r: String)
    ensures
        r@ == on_one_line(s@),
{
    join(&state::lines(chars_of(s).as_slice()), "")
}

fn draw_commissioned_item(d: &CommissionedDevice) -> (r: Vec<Line>)
    ensures
        r.deep_view() == commissioned_item(d.deep_view()),
{
    let mut lines = no_lines();
    let address = first_socket_addr(&d.addresses, d.port);
    match &d.known {
        Some(known) => {
            let mut node: String = " node=".to_string();
            node.append(decimal(known.node_id).as_str());
            add_line(
                &mut lines,
                line_of_two(
                    bold(known.label.as_str()),
                    span(node.as_str(), Some(Color::Green), false, true),
                ),
            );
            add_line(&mut lines, line(faint(address.as_str())));
            let mut shown = flatten(known.label.as_str());
            shown.append(flatten(node.as_str()).as_str());
            if !same_text(d.display_name.as_str(), shown.as_str()) {
                let mut service: String = "svc: ".to_string();
                service.append(d.display_name.as_str());
                add_line(&mut lines, line(faint(service.as_str())));
            }
        },
        None => {
            add_line(
                &mut lines,
                line_of_two(
                    bold(d.display_name.as_str()),
                    span(" (unmanaged)", Some(Color::DarkGray), false, true),
                ),
            );
            add_line(&mut lines, line(faint(address.as_str())));
        },
    }
    assert(lines.deep_view() =~= commissioned_item(d.deep_view()));
    lines
}

/// The list of the commissioned devices.
pub open spec fn commissioned_list<C>(a: AppView<C>) -> WidgetView {
    WidgetView::List {
        border: focus_border(" Commissioned "@, a.focus == FocusPane::Commissioned),
        items: a.commissioned.map_values(|d: CommissionedDeviceView| commissioned_item(d)),
        selected: selection(a.selected_commissioned, a.commissioned.len()),
        highlight: highlighted(Color::Green),
    }
}

fn render_commissioned_list<C>(app: &App<C>) -> (r: Widget)
    ensures
        r.deep_view() == commissioned_list(app.deep_view()),
{
    let ghost all = app.commissioned.deep_view().map_values(
        |d: CommissionedDeviceView| commissioned_item(d),
    );
    let mut items: Vec<Vec<Line>> = Vec::new();
    let mut i: usize = 0;
    while i < app.commissioned.len()
        invariant
            i <= app.commissioned.len(),
            all == app.commissioned.deep_view().map_values(
                |d: CommissionedDeviceView| commissioned_item(d),
            ),
            items.deep_view() == all.take(i as int),
        decreases app.commissioned.len() - i,
    {
        let ghost before = items.deep_view();
        assert(app.commissioned.deep_view()[i as int] == app.commissioned@[i as int].deep_view());
        items.push(draw_commissioned_item(&app.commissioned[i]));
        assert(items.deep_view() =~= before.push(all[i as int]));
        assert(items.deep_view() =~= all.take(i + 1));
        i += 1;
    }
    assert(all.take(i as int) =~= all);
    Widget::List {
        border: focus_block(" Commissioned ", app.focus == FocusPane::Commissioned),
        items,
        selected: list_state(app.selected_commissioned, app.commissioned.len() == 0),
        highlight: highlight(Color::Green),
    }
}

/// The aliases of a node, as they are shown.
pub open spec fn alias_texts(aliases: Seq<EndpointAliasView>, node_id: u64) -> Seq<Seq<char>> {
    aliases.filter(|a: EndpointAliasView| a.node_id == node_id).map_values(
        |a: EndpointAliasView|
            "ep"@ + number::decimal_text(a.endpoint_id as nat) + "="@ + a.label,
    )
}

/// The lines of a saved device.
pub open spec fn saved_device(d: KnownDeviceView, aliases: Seq<EndpointAliasView>) -> Seq<
    Seq<SpanView>,
> {
    let lines = seq![
        seq![
            strong(d.label),
            dimmed("  node="@ + number::decimal_text(d.node_id as nat) + "  "@ + d.last_address),
        ],
    ];
    let names = alias_texts(aliases, d.node_id);
    if names.len() > 0 {
        lines.push(seq![dimmed("  "@ + text::joined(names, "  "@))])
    } else {
        lines
    }
}

/// The lines of saved devices.
pub open spec fn saved_lines(
    devices: Seq<KnownDeviceView>,
    aliases: Seq<EndpointAliasView>,
) -> Seq<Seq<SpanView>>
    decreases devices.len(),
{
    if devices.len() == 0 {
        seq![]
    } else {
        saved_lines(devices.drop_last(), aliases) + saved_device(devices.last(), aliases)
    }
}

/// What is shown of what is remembered.
pub open spec fn saved_devices(s: AppStateView) -> Seq<Seq<SpanView>> {
    if s.devices.len() == 0 {
        seq![seq![dimmed("No saved devices."@)]]
    } else {
        saved_lines(s.devices, s.endpoint_aliases)
    }
}

fn alias_names(s: &AppState, node_id: u64) -> (r: Vec<String>)
    ensures
        r.deep_view() == alias_texts(s.endpoint_aliases.deep_view(), node_id),
{
    let ghost all = s.endpoint_aliases.deep_view();
    let ghost p = |a: EndpointAliasView| a.node_id == node_id;
    let ghost f = |a: EndpointAliasView|
        "ep"@ + number::decimal_text(a.endpoint_id as nat) + "="@ + a.label;
    let mut r: Vec<String> = Vec::new();
    let mut i: usize = 0;
    assert(all.take(0).filter(p).map_values(f) =~= r.deep_view()) by {
        reveal(Seq::filter);
    }
    while i < s.endpoint_aliases.len()
        invariant
            i <= s.endpoint_aliases.len(),
            all == s.endpoint_aliases.deep_view(),
            p == (|a: EndpointAliasView| a.node_id == node_id),
            f == (|a: EndpointAliasView|
                "ep"@ + number::decimal_text(a.endpoint_id as nat) + "="@ + a.label),
            r.deep_view() == all.take(i as int).filter(p).map_values(f),
        decreases s.endpoint_aliases.len() - i,
    {
        let ghost before = r.deep_view();
        let alias = &s.endpoint_aliases[i];
        assert(all[i as int] == alias.deep_view());
        assert(all.take(i + 1).drop_last() =~= all.take(i as int));
        if alias.node_id == node_id {
            let mut name: String = "ep".to_string();
            name.append(decimal(alias.endpoint_id as u64).as_str());
            name.append("=");
            name.append(alias.label.as_str());
            r.push(name);
            assert(r.deep_view() =~= before.push(f(all[i as int])));
        }
        assert(r.deep_view() =~= all.take(i + 1).filter(p).map_values(f)) by {
            reveal(Seq::filter);
        }
        i += 1;
    }
    assert(all.take(i as int) =~= all);
    r
}

/// What is shown of what is remembered.
pub fn saved_devices_text(s: &AppState) -> (r: Vec<Line>)
    ensures
        r.deep_view() == saved_devices(s.deep_view()),
{
    let ghost devices = s.devices.deep_view();
    let ghost aliases = s.endpoint_aliases.deep_view();
    let mut lines = no_lines();
    if s.devices.len() == 0 {
        add_line(&mut lines, line(faint("No saved devices.")));
        assert(lines.deep_view() =~= saved_devices(s.deep_view()));
        return lines;
    }
    let mut i: usize = 0;
    assert(devices.take(0) =~= seq![]);
    while i < s.devices.len()
        invariant
            i <= s.devices.len(),
            devices == s.devices.deep_view(),
            aliases == s.endpoint_aliases.deep_view(),
            lines.deep_view() == saved_lines(devices.take(i as int), aliases),
        decreases s.devices.len() - i,
    {
        let ghost before = lines.deep_view();
        let device = &s.devices[i];
        assert(devices[i as int] == device.deep_view());
        assert(devices.take(i + 1).drop_last() =~= devices.take(i as int));
        let mut node: String = "  node=".to_string();
        node.append(decimal(device.node_id).as_str());
        node.append("  ");
        node.append(device.last_address.as_str());
        add_line(&mut lines, line_of_two(bold(device.label.as_str()), faint(node.as_str())));
        let names = alias_names(s, device.node_id);
        assert(names.deep_view().len() == names@.len());
        if names.len() > 0 {
            let mut joined: String = "  ".to_string();
            joined.append(join(&names, "  ").as_str());
            add_line(&mut lines, line(faint(joined.as_str())));
        }
        assert(lines.deep_view() =~= before + saved_device(device.deep_view(), aliases));
        i += 1;
    }
    assert(devices.take(i as int) =~= devices);
    lines
}

/// A footer: the status, and the keys that can be pressed.
pub open spec fn footer(status: Seq<char>, kind: StatusKind, keys: Seq<char>) -> WidgetView {
    WidgetView::Paragraph {
        border: untitled(),
        lines: seq![
            seq![inked(status, status_color(kind), false, false)],
            seq![dimmed(keys)],
        ],
        wrap: false,
    }
}

fn draw_footer(status: &str, kind: StatusKind, keys: &str) -> (r: Widget)
    ensures
        r.deep_view() == footer(status@, kind, keys@),
{
    let mut lines = no_lines();
    add_line(&mut lines, line(Span { text: status.to_string(), style: status_style(kind) }));
    add_line(&mut lines, line(faint(keys)));
    let r = Widget::Paragraph { border: plain_border(None), lines, wrap: false };
    assert(r.deep_view() =~= footer(status@, kind, keys@));
    r
}

/// The overview.
pub open spec fn overview<C>(a: AppView<C>) -> PanesView {
    PanesView::Overview {
        header: overview_header(a.state),
        commissionable: commissionable_list(a),
        commissioned: commissioned_list(a),
        saved: WidgetView::Paragraph {
            border: titled(" Saved Devices "@),
            lines: saved_devices(a.state),
            wrap: true,
        },
        footer: footer(
            a.status,
            a.status_kind,
            "Tab/←/→ switch pane  ↑↓ select  r refresh  c commission  Enter/m manage  q quit"@,
        ),
    }
}

/// Draws the overview.
pub fn draw_overview<C>(app: &App<C>) -> (r: Panes)
    ensures
        r.deep_view() == overview(app.deep_view()),
{
    Panes::Overview {
        header: draw_overview_header(&app.state),
        commissionable: render_commissionable_list(app),
        commissioned: render_commissioned_list(app),
        saved: Widget::Paragraph {
            border: plain_border(Some(" Saved Devices ")),
            lines: saved_devices_text(&app.state),
            wrap: true,
        },
        footer: draw_footer(
            app.status.as_str(),
            app.status_kind,
            "Tab/←/→ switch pane  ↑↓ select  r refresh  c commission  Enter/m manage  q quit",
        ),
    }
}

// The screen of a device

/// The header of the screen of a device.
pub open spec fn manage_header(d: KnownDeviceView) -> WidgetView {
    WidgetView::Paragraph {
        border: titled(" Managed Device "@),
        lines: seq![
            seq![plain(" "@), inked(d.label, Some(Color::Yellow), true, false)],
            seq![
                plain("  node="@),
                inked(number::decimal_text(d.node_id as nat), Some(Color::Cyan), false, false),
                plain("   addr="@),
                inked(d.last_address, Some(Color::Cyan), false, false),
            ],
        ],
        wrap: false,
    }
}

fn draw_manage_header<C>(manage: &ManageState<C>) -> (r: Widget)
    ensures
        r.deep_view() == manage_header(manage.device.deep_view()),
{
    let mut lines = no_lines();
    add_line(
        &mut lines,
        line_of_two(
            raw(" "),
            span(manage.device.label.as_str(), Some(Color::Yellow), true, false),
        ),
    );
    add_line(
        &mut lines,
        line_of_four(
            raw("  node="),
            span(decimal(manage.device.node_id).as_str(), Some(Color::Cyan), false, false),
            raw("   addr="),
            span(manage.device.last_address.as_str(), Some(Color::Cyan), false, false),
        ),
    );
    let r = Widget::Paragraph {
        border: plain_border(Some(" Managed Device ")),
        lines,
        wrap: false,
    };
    assert(r.deep_view() =~= manage_header(manage.device.deep_view()));
    r
}

/// What an endpoint can do.
pub open spec fn capabilities(e: EndpointSummaryView) -> Seq<SpanView> {
    let on_off = if e.has_on_off {
        seq![inked("[on/off]"@, Some(Color::Yellow), false, true), plain(" "@)]
    } else {
        seq![]
    };
    let actions = if e.actions.len() > 0 {
        seq![inked("[actions]"@, Some(Color::Magenta), false, true), plain(" "@)]
    } else {
        seq![]
    };
    if e.has_on_off || e.actions.len() > 0 {
        on_off + actions
    } else {
        seq![dimmed("no capabilities"@)]
    }
}

/// What an endpoint can do.
pub fn endpoint_capability_spans(e: &EndpointSummary) -> (r: Vec<Span>)
    ensures
        r.deep_view() == capabilities(e.deep_view()),
{
    let mut spans: Vec<Span> = Vec::new();
    if e.has_on_off {
        spans.push(span("[on/off]", Some(Color::Yellow), false, true));
        spans.push(raw(" "));
    }
    if e.actions.len() > 0 {
        spans.push(span("[actions]", Some(Color::Magenta), false, true));
        spans.push(raw(" "));
    }
    if spans.len() == 0 {
        spans.push(faint("no capabilities"));
    }
    assert(spans.deep_view() =~= capabilities(e.deep_view()));
    spans
}

/// The item of an endpoint.
pub open spec fn endpoint_item(e: EndpointSummaryView) -> Seq<Seq<SpanView>> {
    seq![
        seq![
            dimmed("ep"@ + number::decimal_text(e.id as nat) + " "@),
            strong(or_else(e.label, "unnamed"@)),
        ],
        capabilities(e),
    ]
}

fn label_or_unnamed(label: &Option<String>) -> (r: String)
    ensures
        r@ == or_else(label.deep_view(), "unnamed"@),
{
    match label {
        Some(label) => label.clone(),
        None => "unnamed".to_string(),
    }
}

fn draw_endpoint_item(e: &EndpointSummary) -> (r: Vec<Line>)
    ensures
        r.deep_view() == endpoint_item(e.deep_view()),
{
    let mut id: String = "ep".to_string();
    id.append(decimal(e.id as u64).as_str());
    id.append(" ");
    let mut lines = no_lines();
    add_line(
        &mut lines,
        line_of_two(faint(id.as_str()), bold(label_or_unnamed(&e.label).as_str())),
    );
    add_line(&mut lines, Line { spans: endpoint_capability_spans(e) });
    assert(lines.deep_view() =~= endpoint_item(e.deep_view()));
    lines
}

/// The list of the endpoints of a device.
pub open spec fn endpoint_list<C>(m: ManageStateView<C>) -> WidgetView {
    WidgetView::List {
        border: titled(" Endpoints "@),
        items: m.endpoints.map_values(|e: EndpointSummaryView| endpoint_item(e)),
        selected: selection(m.selected_endpoint, m.endpoints.len()),
        highlight: highlighted(Color::Yellow),
    }
}

fn render_endpoint_list<C>(manage: &ManageState<C>) -> (r: Widget)
    ensures
        r.deep_view() == endpoint_list(manage.deep_view()),
{
    let ghost all = manage.endpoints.deep_view().map_values(
        |e: EndpointSummaryView| endpoint_item(e),
    );
    let mut items: Vec<Vec<Line>> = Vec::new();
    let mut i: usize = 0;
    while i < manage.endpoints.len()
        invariant
            i <= manage.endpoints.len(),
            all == manage.endpoints.deep_view().map_values(
                |e: EndpointSummaryView| endpoint_item(e),
            ),
            items.deep_view() == all.take(i as int),
        decreases manage.endpoints.len() - i,
    {
        let ghost before = items.deep_view();
        assert(manage.endpoints.deep_view()[i as int] == manage.endpoints@[i as int].deep_view());
        items.push(draw_endpoint_item(&manage.endpoints[i]));
        assert(items.deep_view() =~= before.push(all[i as int]));
        assert(items.deep_view() =~= all.take(i + 1));
        i += 1;
    }
    assert(all.take(i as int) =~= all);
    Widget::List {
        border: plain_border(Some(" Endpoints ")),
        items,
        selected: list_state(manage.selected_endpoint, manage.endpoints.len() == 0),
        highlight: highlight(Color::Yellow),
    }
}

/// The line of an action. An action without an id is shown with the id zero.
pub open spec fn action_line(a: ActionView) -> Seq<SpanView> {
    let id = match a.action_id {
        Some(id) => id as nat,
        None => 0,
    };
    seq![
        plain(
            "  "@ + or_else(a.name, "unnamed"@) + " (id="@ + number::decimal_text(id) + ")"@,
        ),
    ]
}

/// The details of an endpoint.
pub open spec fn endpoint_details(e: EndpointSummaryView) -> Seq<Seq<SpanView>> {
    let about = seq![
        seq![dimmed("Endpoint:  "@), strong(number::decimal_text(e.id as nat))],
        seq![dimmed("Label:     "@), strong(or_else(e.label, "unnamed"@))],
        seq![dimmed("Types:     "@), plain(utils::device_types_text(e.device_types))],
        seq![
            dimmed("OnOff:     "@),
            if e.has_on_off {
                inked("yes"@, Some(Color::Yellow), false, false)
            } else {
                dimmed("no"@)
            },
        ],
    ];
    if e.actions.len() > 0 {
        about + seq![blank(), seq![dimmed("Actions:"@)]] + e.actions.map_values(
            |a: ActionView| action_line(a),
        )
    } else {
        about
    }
}

/// The details of the selected endpoint.
pub open spec fn selected_details<C>(m: ManageStateView<C>) -> Seq<Seq<SpanView>> {
    if m.selected_endpoint < m.endpoints.len() {
        endpoint_details(m.endpoints[m.selected_endpoint as int])
    } else {
        seq![seq![dimmed("No endpoints found."@)]]
    }
}

fn draw_details(e: &EndpointSummary) -> (r: Vec<Line>)
    ensures
        r.deep_view() == endpoint_details(e.deep_view()),
{
    let mut lines = no_lines();
    add_line(
        &mut lines,
        line_of_two(faint("Endpoint:  "), bold(decimal(e.id as u64).as_str())),
    );
    add_line(
        &mut lines,
        line_of_two(faint("Label:     "), bold(label_or_unnamed(&e.label).as_str())),
    );
    add_line(
        &mut lines,
        line_of_two(faint("Types:     "), raw(format_device_types(&e.device_types).as_str())),
    );
    let on_off = if e.has_on_off {
        span("yes", Some(Color::Yellow), false, false)
    } else {
        faint("no")
    };
    add_line(&mut lines, line_of_two(faint("OnOff:     "), on_off));
    if e.actions.len() > 0 {
        add_line(&mut lines, blank_line());
        add_line(&mut lines, line(faint("Actions:")));
        let ghost head = lines.deep_view();
        let ghost all = e.actions.deep_view().map_values(|a: ActionView| action_line(a));
        let mut i: usize = 0;
        assert(head + all.take(0) =~= head);
        while i < e.actions.len()
            invariant
                i <= e.actions.len(),
                all == e.actions.deep_view().map_values(|a: ActionView| action_line(a)),
                lines.deep_view() == head + all.take(i as int),
            decreases e.actions.len() - i,
        {
            let ghost before = lines.deep_view();
            let action = &e.actions[i];
            assert(e.actions.deep_view()[i as int] == action.deep_view());
            let id: u64 = match action.action_id {
                Some(id) => id as u64,
                None => 0,
            };
            let mut text: String = "  ".to_string();
            text.append(label_or_unnamed(&action.name).as_str());
            text.append(" (id=");
            text.append(decimal(id).as_str());
            text.append(")");
            add_line(&mut lines, line(raw(text.as_str())));
            assert(lines.deep_view() =~= before.push(all[i as int]));
            assert(lines.deep_view() =~= head + all.take(i + 1));
            i += 1;
        }
        assert(all.take(i as int) =~= all);
    }
    assert(lines.deep_view() =~= endpoint_details(e.deep_view()));
    lines
}

/// The details of the selected endpoint.
pub fn selected_endpoint_text<C>(manage: &ManageState<C>) -> (r: Vec<Line>)
    ensures
        r.deep_view() == selected_details(manage.deep_view()),
{
    if manage.selected_endpoint < manage.endpoints.len() {
        assert(manage.endpoints.deep_view()[manage.selected_endpoint as int]
            == manage.endpoints@[manage.selected_endpoint as int].deep_view());
        draw_details(&manage.endpoints[manage.selected_endpoint])
    } else {
        let mut lines = no_lines();
        add_line(&mut lines, line(faint("No endpoints found.")));
        assert(lines.deep_view() =~= selected_details(manage.deep_view()));
        lines
    }
}

/// The screen of a device.
pub open spec fn manage_screen<C>(a: AppView<C>, m: ManageStateView<C>) -> PanesView {
    PanesView::Manage {
        header: manage_header(m.device),
        endpoints: endpoint_list(m),
        details: WidgetView::Paragraph {
            border: titled(" Details "@),
            lines: selected_details(m),
            wrap: true,
        },
        footer: footer(
            a.status,
            a.status_kind,
            "↑↓ select  o on  p off  a actions  n rename  f fabric  d decommission  b/Esc back"@,
        ),
    }
}

/// Draws the screen of a device.
pub fn draw_manage<C>(app: &App<C>, manage: &ManageState<C>) -> (r: Panes)
    ensures
        r.deep_view() == manage_screen(app.deep_view(), manage.deep_view()),
{
    Panes::Manage {
        header: draw_manage_header(manage),
        endpoints: render_endpoint_list(manage),
        details: Widget::Paragraph {
            border: plain_border(Some(" Details ")),
            lines: selected_endpoint_text(manage),
            wrap: true,
        },
        footer: draw_footer(
            app.status.as_str(),
            app.status_kind,
            "↑↓ select  o on  p off  a actions  n rename  f fabric  d decommission  b/Esc back",
        ),
    }
}

// Dialogs

/// A dialog that says something and asks for a key.
pub open spec fn notice(border: BorderView, message: Seq<char>, keys: Seq<char>) -> WidgetView {
    WidgetView::Paragraph {
        border,
        lines: seq![side_by_side(message), blank(), seq![dimmed(keys)]],
        wrap: true,
    }
}

fn draw_notice(border: Border, message: &str, keys: &str) -> (r: Widget)
    ensures
        r.deep_view() == notice(border.deep_view(), message@, keys@),
{
    let mut lines = no_lines();
    add_line(&mut lines, draw_side_by_side(message));
    add_line(&mut lines, blank_line());
    add_line(&mut lines, line(faint(keys)));
    let r = Widget::Paragraph { border, lines, wrap: true };
    assert(r.deep_view() =~= notice(border.deep_view(), message@, keys@));
    r
}

/// The colored border of a dialog.
pub open spec fn dialog_border(title: Seq<char>, color: Color) -> BorderView {
    BorderView {
        title: Some(side_by_side(padded(title))),
        bottom: None,
        style: ink(Some(color), false, false),
    }
}

fn colored_border(title: &str, color: Color) -> (r: Border)
    ensures
        r.deep_view() == dialog_border(title@, color),
{
    let mut padded: String = " ".to_string();
    padded.append(title);
    padded.append(" ");
    Border {
        title: Some(draw_side_by_side(padded.as_str())),
        bottom: None,
        style: Style { fg: Some(color), bg: None, bold: false, dim: false },
    }
}

/// A dialog that asks for a line of text.
pub open spec fn input_box(title: Seq<char>, value: Seq<char>, help: Seq<char>) -> WidgetView {
    WidgetView::Paragraph {
        border: dialog_border(title, Color::Cyan),
        lines: seq![
            seq![dimmed(help)],
            blank(),
            seq![
                inked("> "@, Some(Color::Cyan), false, false),
                strong(value),
                inked("█"@, Some(Color::Cyan), false, false),
            ],
            blank(),
            seq![dimmed("Enter = confirm    Esc = cancel"@)],
        ],
        wrap: true,
    }
}

/// Draws a dialog that asks for a line of text.
pub fn draw_input_box(title: &str, value: &str, help: &str) -> (r: Widget)
    ensures
        r.deep_view() == input_box(title@, value@, help@),
{
    let mut lines = no_lines();
    add_line(&mut lines, line(faint(help)));
    add_line(&mut lines, blank_line());
    add_line(
        &mut lines,
        line_of_three(
            span("> ", Some(Color::Cyan), false, false),
            bold(value),
            span("█", Some(Color::Cyan), false, false),
        ),
    );
    add_line(&mut lines, blank_line());
    add_line(&mut lines, line(faint("Enter = confirm    Esc = cancel")));
    let r = Widget::Paragraph { border: colored_border(title, Color::Cyan), lines, wrap: true };
    assert(r.deep_view() =~= input_box(title@, value@, help@));
    r
}

/// The lines of a label, one below the other.
pub open spec fn label_lines(label: Seq<char>) -> Seq<Seq<SpanView>> {
    if label.len() == 0 {
        seq![side_by_side(label)]
    } else {
        state::lines_of(label).map_values(|l: Seq<char>| side_by_side(l))
    }
}

fn draw_label_lines(label: &str) -> (r: Vec<Line>)
    ensures
        r.deep_view() == label_lines(label@),
{
    let mut lines = no_lines();
    let chars = chars_of(label);
    if chars.len() == 0 {
        add_line(&mut lines, draw_side_by_side(label));
        assert(lines.deep_view() =~= label_lines(label@));
        return lines;
    }
    let parts = state::lines(chars.as_slice());
    let ghost all = label_lines(label@);
    let mut i: usize = 0;
    assert(parts.deep_view().len() == parts@.len());
    while i < parts.len()
        invariant
            i <= parts.len(),
            label@.len() > 0,
            all == label_lines(label@),
            parts.deep_view() == state::lines_of(label@),
            parts.deep_view().len() == parts@.len(),
            lines.deep_view() == all.take(i as int),
        decreases parts.len() - i,
    {
        let ghost before = lines.deep_view();
        assert(parts.deep_view()[i as int] == parts@[i as int]@);
        add_line(&mut lines, draw_side_by_side(parts[i].as_str()));
        assert(lines.deep_view() =~= before.push(all[i as int]));
        assert(lines.deep_view() =~= all.take(i + 1));
        i += 1;
    }
    assert(all.take(i as int) =~= all);
    lines
}

/// A dialog that asks for one of several commands.
pub open spec fn action_list(d: ActionDialogView) -> WidgetView {
    WidgetView::List {
        border: BorderView {
            title: Some(side_by_side(padded(d.title))),
            bottom: Some(seq![dimmed(" ↑↓ select   Enter invoke   Esc cancel "@)]),
            style: ink(Some(Color::Magenta), false, false),
        },
        items: d.options.map_values(|o: ActionOptionView| label_lines(o.label)),
        selected: selection(d.selected, d.options.len()),
        highlight: highlighted(Color::Magenta),
    }
}

/// Draws a dialog that asks for one of several commands.
pub fn draw_action_dialog(dialog: &ActionDialog) -> (r: Widget)
    ensures
        r.deep_view() == action_list(dialog.deep_view()),
{
    let ghost all = dialog.options.deep_view().map_values(
        |o: ActionOptionView| label_lines(o.label),
    );
    let mut items: Vec<Vec<Line>> = Vec::new();
    let mut i: usize = 0;
    while i < dialog.options.len()
        invariant
            i <= dialog.options.len(),
            all == dialog.options.deep_view().map_values(
                |o: ActionOptionView| label_lines(o.label),
            ),
            items.deep_view() == all.take(i as int),
        decreases dialog.options.len() - i,
    {
        let ghost before = items.deep_view();
        assert(dialog.options.deep_view()[i as int] == dialog.options@[i as int].deep_view());
        items.push(draw_label_lines(dialog.options[i].label.as_str()));
        assert(items.deep_view() =~= before.push(all[i as int]));
        assert(items.deep_view() =~= all.take(i + 1));
        i += 1;
    }
    assert(all.take(i as int) =~= all);
    let mut border = colored_border(dialog.title.as_str(), Color::Magenta);
    border.bottom = Some(line(faint(" ↑↓ select   Enter invoke   Esc cancel ")));
    Widget::List {
        border,
        items,
        selected: list_state(dialog.selected, dialog.options.len() == 0),
        highlight: highlight(Color::Magenta),
    }
}

/// A dialog.
pub open spec fn dialog<C>(modal: ModalView<C>) -> WidgetView {
    match modal {
        ModalView::Message(message) => notice(
            titled(" Working… "@),
            message,
            "Press Enter or Esc to dismiss."@,
        ),
        ModalView::Confirm(d) => notice(
            dialog_border(d.title, Color::Red),
            d.message,
            "y = yes    n / Esc = cancel"@,
        ),
        ModalView::Input(d) => input_box(d.title, d.value, d.help),
        ModalView::Action(d) => action_list(d),
        ModalView::CommissionDeviceName { pending, value } => input_box(
            "Commission — Device Name"@,
            value,
            "Give this device a local name.  Suggested: "@ + pending.device_label,
        ),
        ModalView::CommissionFabricName { pending, value } => input_box(
            "Commission — Fabric Label"@,
            value,
            "Label written to node "@ + number::decimal_text(pending.node_id as nat)
                + ". Default: "@ + pending.fabric_label,
        ),
        ModalView::CommissionEndpointName { pending, index, value } => input_box(
            "Commission — Endpoint "@ + number::decimal_text(
                pending.endpoints[index as int].id as nat,
            ) + " Label  ["@ + number::decimal_text((index + 1) as nat) + "/"@
                + number::decimal_text(pending.endpoints.len()) + "]"@,
            value,
            "Local alias for this endpoint.  Press Enter to accept."@,
        ),
    }
}

/// Draws a dialog.
pub fn draw_modal<C>(modal: &Modal<C>) -> (r: Widget)
    requires
        modal.deep_view() matches ModalView::CommissionEndpointName { pending, index, value }
            ==> index < pending.endpoints.len(),
    ensures
        r.deep_view() == dialog(modal.deep_view()),
{
    match modal {
        Modal::Message(message) => draw_notice(
            plain_border(Some(" Working… ")),
            message.as_str(),
            "Press Enter or Esc to dismiss.",
        ),
        Modal::Confirm(d) => draw_notice(
            colored_border(d.title.as_str(), Color::Red),
            d.message.as_str(),
            "y = yes    n / Esc = cancel",
        ),
        Modal::Input(d) => draw_input_box(d.title.as_str(), d.value.as_str(), d.help.as_str()),
        Modal::Action(d) => draw_action_dialog(d),
        Modal::CommissionDeviceName { pending, value } => {
            let mut help: String = "Give this device a local name.  Suggested: ".to_string();
            help.append(pending.device_label.as_str());
            draw_input_box("Commission — Device Name", value.as_str(), help.as_str())
        },
        Modal::CommissionFabricName { pending, value } => {
            let mut help: String = "Label written to node ".to_string();
            help.append(decimal(pending.node_id).as_str());
            help.append(". Default: ");
            help.append(pending.fabric_label.as_str());
            draw_input_box("Commission — Fabric Label", value.as_str(), help.as_str())
        },
        Modal::CommissionEndpointName { pending, index, value } => {
            let count: usize = pending.endpoints.len();
            assert(pending.endpoints.deep_view()[*index as int]
                == pending.endpoints@[*index as int].deep_view());
            let mut title: String = "Commission — Endpoint ".to_string();
            title.append(decimal(pending.endpoints[*index].id as u64).as_str());
            title.append(" Label  [");
            title.append(decimal((*index + 1) as u64).as_str());
            title.append("/");
            title.append(decimal(count as u64).as_str());
            title.append("]");
            draw_input_box(
                title.as_str(),
                value.as_str(),
                "Local alias for this endpoint.  Press Enter to accept.",
            )
        },
    }
}

/// All that the terminal shows.
pub open spec fn picture<C>(a: AppView<C>) -> PictureView {
    PictureView {
        panes: match a.screen {
            ScreenView::Overview => overview(a),
            ScreenView::Manage(m) => manage_screen(a, m),
        },
        dialog: match a.modal {
            Some(modal) => Some(dialog(modal)),
            None => None,
        },
    }
}

/// Draws all that the terminal shows.
pub fn draw<C>(app: &App<C>) -> (r: Picture)
    requires
        app.deep_view().wf(),
    ensures
        r.deep_view() == picture(app.deep_view()),
{
    let panes = match &app.screen {
        Screen::Overview => draw_overview(app),
        Screen::Manage(manage) => draw_manage(app, manage),
    };
    let dialog = match &app.modal {
        Some(modal) => Some(draw_modal(modal)),
        None => None,
    };
    Picture { panes, dialog }
}

} // verus!
