//! What is promised of a state that is stored and loaded again.

use crate::number;
use crate::number::NumberError;
use crate::state;
use crate::state::{AppState, AppStateView, EndpointAliasView, KnownDeviceView};
use crate::text;
use crate::text_laws;
use vstd::prelude::*;

verus! {

/// Whether a text is free of a character.
pub open spec fn lacks(s: Seq<char>, c: char) -> bool {
    forall|i: int| 0 <= i < s.len() ==> s[i] != c
}

/// A field that has been written down is read back as it was.
pub proof fn escaped_field_reads_back(s: Seq<char>)
    ensures
        state::unescaped(state::escaped(s)) == s,
    decreases s.len(),
{
    if s.len() == 0 {
    } else {
        let c = s.first();
        let head = state::escaped_char(c);
        let rest = state::escaped(s.drop_first());
        escaped_field_reads_back(s.drop_first());
        assert(s =~= seq![c] + s.drop_first());
        let e = state::escaped(s);
        if head.len() == 1 {
            assert(e.drop_first() =~= rest);
        } else {
            assert(e.skip(2) =~= rest);
            assert(e[1] == head[1]);
        }
    }
}

/// A field that has been written down holds neither a tab nor a line end, and ends with a carriage
/// return only where the field itself does.
pub proof fn escaped_field_stays_in_its_place(s: Seq<char>)
    ensures
        lacks(state::escaped(s), '\t'),
        lacks(state::escaped(s), '\n'),
        state::without_return(state::escaped(s)) == state::escaped(state::without_return(s)),
    decreases s.len(),
{
    if s.len() > 0 {
        let rest = s.drop_first();
        escaped_field_stays_in_its_place(rest);
        let head = state::escaped_char(s.first());
        let e = state::escaped(s);
        assert(lacks(head, '\t') && lacks(head, '\n'));
        if s.len() == 1 {
            assert(rest =~= seq![]);
            assert(e =~= head);
            if s.first() == '\r' {
                assert(state::without_return(s) =~= seq![]);
                assert(state::without_return(e) =~= seq![]);
            }
        } else {
            let t = state::without_return(s);
            lemma_escaped_nonempty(rest);
            assert(state::without_return(e) =~= head + state::without_return(state::escaped(rest)));
            assert(t.drop_first() =~= state::without_return(rest));
            assert(t.first() == s.first());
        }
    }
}

proof fn lemma_escaped_nonempty(s: Seq<char>)
    requires
        s.len() > 0,
    ensures
        state::escaped(s).len() > 0,
{
}

proof fn lemma_span(a: Seq<char>, c: char, b: Seq<char>)
    requires
        lacks(a, c),
    ensures
        text::span_before(a + seq![c] + b, c) == a.len(),
        text::span_before(a, c) == a.len(),
    decreases a.len(),
{
    if a.len() > 0 {
        lemma_span(a.drop_first(), c, b);
        assert((a + seq![c] + b).drop_first() =~= a.drop_first() + seq![c] + b);
    }
}

proof fn lemma_joined_from_left(fields: Seq<Seq<char>>, sep: Seq<char>)
    requires
        fields.len() >= 2,
    ensures
        text::joined(fields, sep) == fields.first() + sep + text::joined(fields.drop_first(), sep),
    decreases fields.len(),
{
    let rest = fields.drop_first();
    let front = fields.drop_last();
    if fields.len() == 2 {
        assert(front =~= seq![fields[0]]);
        assert(rest =~= seq![fields[1]]);
        assert(text::joined(front, sep) == fields[0]);
        assert(text::joined(rest, sep) == fields[1]);
    } else {
        lemma_joined_from_left(front, sep);
        assert(front.drop_first() =~= rest.drop_last());
        assert(text::joined(fields, sep) =~= fields.first() + sep + (text::joined(
            rest.drop_last(),
            sep,
        ) + sep + rest.last()));
    }
}

proof fn lemma_pieces_of_joined(fields: Seq<Seq<char>>, sep: char)
    requires
        fields.len() >= 1,
        forall|i: int| 0 <= i < fields.len() ==> lacks(#[trigger] fields[i], sep),
    ensures
        text::pieces(text::joined(fields, seq![sep]), sep) == fields,
    decreases fields.len(),
{
    let s = text::joined(fields, seq![sep]);
    let a = fields.first();
    if fields.len() == 1 {
        lemma_span(a, sep, seq![]);
        assert(text::pieces(s, sep) =~= fields);
    } else {
        let rest = fields.drop_first();
        let b = text::joined(rest, seq![sep]);
        lemma_joined_from_left(fields, seq![sep]);
        lemma_span(a, sep, b);
        assert forall|i: int| 0 <= i < rest.len() implies lacks(#[trigger] rest[i], sep) by {
            assert(rest[i] == fields[i + 1]);
        }
        lemma_pieces_of_joined(rest, sep);
        assert(s.take(a.len() as int) =~= a);
        assert(s.skip(a.len() as int + 1) =~= b);
        assert(text::pieces(s, sep) =~= fields);
    }
}

proof fn lemma_joined_lacks(fields: Seq<Seq<char>>, sep: char, c: char)
    requires
        sep != c,
        forall|i: int| 0 <= i < fields.len() ==> lacks(#[trigger] fields[i], c),
    ensures
        lacks(text::joined(fields, seq![sep]), c),
    decreases fields.len(),
{
    if fields.len() > 1 {
        lemma_joined_lacks(fields.drop_last(), sep, c);
    }
}

proof fn lemma_rows_from_left(rows: Seq<Seq<Seq<char>>>)
    requires
        rows.len() >= 1,
    ensures
        state::rows_text(rows) == text::joined(rows.first(), seq!['\t']) + seq!['\n']
            + state::rows_text(rows.drop_first()),
    decreases rows.len(),
{
    let front = rows.drop_last();
    let rest = rows.drop_first();
    if rows.len() == 1 {
        assert(front =~= seq![]);
        assert(rest =~= seq![]);
        assert(state::rows_text(front) =~= seq![]);
        assert(state::rows_text(rest) =~= seq![]);
        assert(state::rows_text(rows) =~= text::joined(rows.first(), seq!['\t']) + seq!['\n']);
    } else {
        lemma_rows_from_left(front);
        assert(front.drop_first() =~= rest.drop_last());
        assert(state::rows_text(rows) =~= text::joined(rows.first(), seq!['\t']) + seq!['\n'] + (
        state::rows_text(rest.drop_last()) + text::joined(rest.last(), seq!['\t']) + seq!['\n']));
    }
}

/// Whether the fields of a row can be told apart in a line.
spec fn sound_row(row: Seq<Seq<char>>) -> bool {
    &&& row.len() >= 2
    &&& row[0].len() > 0
    &&& !text::is_space(row[0].first())
    &&& forall|i: int|
        0 <= i < row.len() ==> lacks(#[trigger] row[i], '\t') && lacks(row[i], '\n')
}

/// A row as it comes back: its last field without the carriage return it ends with.
spec fn row_back(row: Seq<Seq<char>>) -> Seq<Seq<char>> {
    row.update(row.len() - 1, state::without_return(row.last()))
}

proof fn lemma_line_of_row(row: Seq<Seq<char>>)
    requires
        sound_row(row),
    ensures
        ({
            let line = state::without_return(text::joined(row, seq!['\t']));
            &&& text::pieces(line, '\t') == row_back(row)
            &&& text::trimmed(line).len() > 0
        }),
{
    let back = row_back(row);
    let front = row.drop_last();
    let line = text::joined(row, seq!['\t']);
    let short = state::without_return(line);
    assert(back.drop_last() =~= front);
    assert(line == text::joined(front, seq!['\t']) + seq!['\t'] + row.last());
    assert(short =~= text::joined(front, seq!['\t']) + seq!['\t'] + state::without_return(
        row.last(),
    ));
    assert(short == text::joined(back, seq!['\t']));
    assert forall|i: int| 0 <= i < back.len() implies lacks(#[trigger] back[i], '\t') by {
        assert(lacks(row[i], '\t'));
    }
    lemma_pieces_of_joined(back, '\t');
    lemma_joined_from_left(back, seq!['\t']);
    assert(short.first() == row[0].first());
    lemma_trimmed_nonempty(short);
}

proof fn lemma_trimmed_nonempty(s: Seq<char>)
    requires
        s.len() > 0,
        !text::is_space(s.first()),
    ensures
        text::trimmed(s).len() > 0,
    decreases s.len(),
{
    lemma_trimmed_end_nonempty(s);
}

proof fn lemma_trimmed_end_nonempty(s: Seq<char>)
    requires
        s.len() > 0,
        !text::is_space(s.first()),
    ensures
        text::trimmed_end(s).len() > 0,
    decreases s.len(),
{
    if text::is_space(s.last()) {
        assert(s.len() > 1);
        lemma_trimmed_end_nonempty(s.drop_last());
    }
}

/// The lines as they come back.
spec fn lines_back(rows: Seq<Seq<Seq<char>>>) -> Seq<Seq<char>> {
    rows.map_values(|r: Seq<Seq<char>>| state::without_return(text::joined(r, seq!['\t'])))
}

proof fn lemma_lines_of_rows(rows: Seq<Seq<Seq<char>>>)
    requires
        forall|i: int| 0 <= i < rows.len() ==> sound_row(#[trigger] rows[i]),
    ensures
        state::lines_of(state::rows_text(rows)) == lines_back(rows),
    decreases rows.len(),
{
    let s = state::rows_text(rows);
    if rows.len() == 0 {
        assert(state::lines_of(s) =~= lines_back(rows));
    } else {
        let first = text::joined(rows.first(), seq!['\t']);
        let rest = rows.drop_first();
        let b = state::rows_text(rest);
        lemma_rows_from_left(rows);
        assert(sound_row(rows[0]));
        lemma_joined_lacks(rows.first(), '\t', '\n');
        lemma_span(first, '\n', b);
        assert forall|i: int| 0 <= i < rest.len() implies sound_row(#[trigger] rest[i]) by {
            assert(rest[i] == rows[i + 1]);
        }
        lemma_lines_of_rows(rest);
        assert(s.take(first.len() as int) =~= first);
        assert(s.skip(first.len() as int + 1) =~= b);
        assert(state::lines_of(s) =~= lines_back(rows));
    }
}

proof fn lemma_with_lines_appended(st: AppStateView, a: Seq<Seq<char>>, b: Seq<Seq<char>>)
    ensures
        state::with_lines(st, a + b) == match state::with_lines(st, a) {
            Ok(next) => state::with_lines(next, b),
            Err(e) => Err(e),
        },
    decreases a.len(),
{
    if a.len() == 0 {
        assert(a + b =~= b);
    } else {
        assert((a + b).drop_first() =~= a.drop_first() + b);
        match state::with_line(st, a.first()) {
            Ok(next) => {
                lemma_with_lines_appended(next, a.drop_first(), b);
            },
            Err(e) => {},
        }
    }
}

proof fn lemma_keywords()
    ensures
        "controller_id"@.first() == 'c',
        "fabric_label"@.first() == 'f',
        "device"@.first() == 'd',
        "endpoint"@.first() == 'e',
        "controller_id"@.len() > 0,
        "fabric_label"@.len() > 0,
        "device"@.len() > 0,
        "endpoint"@.len() > 0,
        lacks("controller_id"@, '\t') && lacks("controller_id"@, '\n'),
        lacks("fabric_label"@, '\t') && lacks("fabric_label"@, '\n'),
        lacks("device"@, '\t') && lacks("device"@, '\n'),
        lacks("endpoint"@, '\t') && lacks("endpoint"@, '\n'),
{
    reveal_strlit("controller_id");
    reveal_strlit("fabric_label");
    reveal_strlit("device");
    reveal_strlit("endpoint");
}

/// A device as it comes back.
pub open spec fn device_back(d: KnownDeviceView) -> KnownDeviceView {
    KnownDeviceView { last_address: state::without_return(d.last_address), ..d }
}

/// An alias as it comes back.
pub open spec fn alias_back(a: EndpointAliasView) -> EndpointAliasView {
    EndpointAliasView { label: state::without_return(a.label), ..a }
}

/// A state as it comes back. Whatever stands last in a line loses one carriage return at its end;
/// everything else is as it was.
pub open spec fn state_back(s: AppStateView) -> AppStateView {
    AppStateView {
        controller_id: s.controller_id,
        fabric_label: state::without_return(s.fabric_label),
        devices: s.devices.map_values(|d: KnownDeviceView| device_back(d)),
        endpoint_aliases: s.endpoint_aliases.map_values(|a: EndpointAliasView| alias_back(a)),
    }
}

proof fn lemma_decimal(n: nat, max: nat)
    requires
        n <= max,
    ensures
        number::number_of(number::decimal_text(n), 10, max) == Ok::<nat, NumberError>(n),
        lacks(number::decimal_text(n), '\t'),
        lacks(number::decimal_text(n), '\n'),
        state::without_return(number::decimal_text(n)) == number::decimal_text(n),
{
    number::decimal_reads_back(n, max);
    let t = number::decimal_text(n);
    assert forall|i: int| 0 <= i < t.len() implies t[i] != '\t' && t[i] != '\n' && t[i]
        != '\r' by {
        assert(number::is_digit(t[i]));
    }
}

proof fn lemma_device_row(d: KnownDeviceView)
    ensures
        sound_row(state::device_row(d)),
        forall|st: AppStateView| #[trigger]
            state::with_row(st, row_back(state::device_row(d))) == Ok::<AppStateView, NumberError>(
                AppStateView { devices: st.devices.push(device_back(d)), ..st },
            ),
{
    lemma_keywords();
    lemma_decimal(d.node_id as nat, u64::MAX as nat);
    escaped_field_stays_in_its_place(d.label);
    escaped_field_stays_in_its_place(d.last_address);
    escaped_field_reads_back(d.label);
    escaped_field_reads_back(state::without_return(d.last_address));
    let row = state::device_row(d);
    assert forall|i: int| 0 <= i < row.len() implies lacks(#[trigger] row[i], '\t') && lacks(
        row[i],
        '\n',
    ) by {}
    assert(row_back(row)[0] == "device"@);
}

proof fn lemma_alias_row(a: EndpointAliasView)
    ensures
        sound_row(state::alias_row(a)),
        forall|st: AppStateView| #[trigger]
            state::with_row(st, row_back(state::alias_row(a))) == Ok::<AppStateView, NumberError>(
                AppStateView { endpoint_aliases: st.endpoint_aliases.push(alias_back(a)), ..st },
            ),
{
    lemma_keywords();
    lemma_decimal(a.node_id as nat, u64::MAX as nat);
    lemma_decimal(a.endpoint_id as nat, u16::MAX as nat);
    escaped_field_stays_in_its_place(a.label);
    escaped_field_reads_back(state::without_return(a.label));
    let row = state::alias_row(a);
    assert forall|i: int| 0 <= i < row.len() implies lacks(#[trigger] row[i], '\t') && lacks(
        row[i],
        '\n',
    ) by {}
    assert(row_back(row)[0] == "endpoint"@);
}

proof fn lemma_devices_back(st: AppStateView, devices: Seq<KnownDeviceView>)
    ensures
        ({
            let rows = devices.map_values(|d: KnownDeviceView| state::device_row(d));
            state::with_lines(st, lines_back(rows)) == Ok::<AppStateView, NumberError>(
                AppStateView {
                    devices: st.devices + devices.map_values(|d: KnownDeviceView| device_back(d)),
                    ..st
                },
            )
        }),
    decreases devices.len(),
{
    let rows = devices.map_values(|d: KnownDeviceView| state::device_row(d));
    let backs = devices.map_values(|d: KnownDeviceView| device_back(d));
    if devices.len() == 0 {
        assert(lines_back(rows) =~= seq![]);
        assert(st.devices + backs =~= st.devices);
    } else {
        let d = devices.first();
        let rest = devices.drop_first();
        lemma_device_row(d);
        lemma_line_of_row(state::device_row(d));
        let next = AppStateView { devices: st.devices.push(device_back(d)), ..st };
        lemma_devices_back(next, rest);
        assert(lines_back(rows).drop_first() =~= lines_back(
            rest.map_values(|d: KnownDeviceView| state::device_row(d)),
        ));
        assert(state::with_line(st, lines_back(rows).first()) == Ok::<AppStateView, NumberError>(next));
        assert(next.devices + rest.map_values(|d: KnownDeviceView| device_back(d)) =~= st.devices
            + backs);
    }
}

proof fn lemma_aliases_back(st: AppStateView, aliases: Seq<EndpointAliasView>)
    ensures
        ({
            let rows = aliases.map_values(|a: EndpointAliasView| state::alias_row(a));
            state::with_lines(st, lines_back(rows)) == Ok::<AppStateView, NumberError>(
                AppStateView {
                    endpoint_aliases: st.endpoint_aliases + aliases.map_values(
                        |a: EndpointAliasView| alias_back(a),
                    ),
                    ..st
                },
            )
        }),
    decreases aliases.len(),
{
    let rows = aliases.map_values(|a: EndpointAliasView| state::alias_row(a));
    let backs = aliases.map_values(|a: EndpointAliasView| alias_back(a));
    if aliases.len() == 0 {
        assert(lines_back(rows) =~= seq![]);
        assert(st.endpoint_aliases + backs =~= st.endpoint_aliases);
    } else {
        let a = aliases.first();
        let rest = aliases.drop_first();
        lemma_alias_row(a);
        lemma_line_of_row(state::alias_row(a));
        let next = AppStateView { endpoint_aliases: st.endpoint_aliases.push(alias_back(a)), ..st };
        lemma_aliases_back(next, rest);
        assert(lines_back(rows).drop_first() =~= lines_back(
            rest.map_values(|a: EndpointAliasView| state::alias_row(a)),
        ));
        assert(state::with_line(st, lines_back(rows).first()) == Ok::<AppStateView, NumberError>(next));
        assert(next.endpoint_aliases + rest.map_values(|a: EndpointAliasView| alias_back(a))
            =~= st.endpoint_aliases + backs);
    }
}

/// Every state that is stored can be loaded again, and comes back as it was but for a carriage
/// return at the end of a line.
pub proof fn stored_state_loads(s: AppStateView)
    ensures
        state::stored_state(state::saved_text(s)) == Ok::<AppStateView, NumberError>(state_back(s)),
{
    let first = seq!["controller_id"@, number::decimal_text(s.controller_id as nat)];
    let second = seq!["fabric_label"@, state::escaped(s.fabric_label)];
    let head = seq![first, second];
    let devices = s.devices.map_values(|d: KnownDeviceView| state::device_row(d));
    let aliases = s.endpoint_aliases.map_values(|a: EndpointAliasView| state::alias_row(a));
    let rows = state::state_rows(s);
    lemma_keywords();
    lemma_decimal(s.controller_id as nat, u64::MAX as nat);
    escaped_field_stays_in_its_place(s.fabric_label);
    escaped_field_reads_back(state::without_return(s.fabric_label));
    assert(sound_row(first));
    assert(sound_row(second));
    assert forall|i: int| 0 <= i < rows.len() implies sound_row(#[trigger] rows[i]) by {
        let n = s.devices.len();
        if i >= 2 && i < 2 + n {
            lemma_device_row(s.devices[i - 2]);
        } else if i >= 2 + n {
            lemma_alias_row(s.endpoint_aliases[i - 2 - n]);
        }
    }
    lemma_lines_of_rows(rows);
    assert(lines_back(rows) =~= lines_back(head) + lines_back(devices) + lines_back(aliases));

    lemma_line_of_row(first);
    lemma_line_of_row(second);
    let fresh = state::fresh_state();
    let s1 = AppStateView { controller_id: s.controller_id, ..fresh };
    let s2 = AppStateView { fabric_label: state::without_return(s.fabric_label), ..s1 };
    let hl = lines_back(head);
    assert(row_back(first) =~= first);
    assert(row_back(second)[0] == "fabric_label"@);
    assert(state::with_line(fresh, hl[0]) == Ok::<AppStateView, NumberError>(s1));
    assert(state::with_line(s1, hl[1]) == Ok::<AppStateView, NumberError>(s2));
    assert(hl.drop_first().drop_first() =~= seq![]);
    assert(hl.drop_first().first() == hl[1]);
    reveal_with_fuel(state::with_lines, 3);
    assert(state::with_lines(fresh, hl) == Ok::<AppStateView, NumberError>(s2));
    lemma_with_lines_appended(fresh, hl + lines_back(devices), lines_back(aliases));
    lemma_with_lines_appended(fresh, hl, lines_back(devices));
    lemma_devices_back(s2, s.devices);
    let s3 = AppStateView {
        devices: s2.devices + s.devices.map_values(|d: KnownDeviceView| device_back(d)),
        ..s2
    };
    lemma_aliases_back(s3, s.endpoint_aliases);
    assert(s3.devices =~= state_back(s).devices);
    assert(s3.endpoint_aliases + s.endpoint_aliases.map_values(
        |a: EndpointAliasView| alias_back(a),
    ) =~= state_back(s).endpoint_aliases);
}

/// Whether a text ends with a carriage return.
pub open spec fn ends_with_return(s: Seq<char>) -> bool {
    s.len() > 0 && s.last() == '\r'
}

/// A state comes back exactly as it was stored, unless a text that stands last in its line ends
/// with a carriage return.
pub proof fn stored_state_loads_unchanged(s: AppStateView)
    requires
        !ends_with_return(s.fabric_label),
        forall|i: int| 0 <= i < s.devices.len() ==> !ends_with_return(#[trigger] s.devices[i].last_address),
        forall|i: int|
            0 <= i < s.endpoint_aliases.len() ==> !ends_with_return(
                #[trigger] s.endpoint_aliases[i].label,
            ),
    ensures
        state::stored_state(state::saved_text(s)) == Ok::<AppStateView, NumberError>(s),
{
    stored_state_loads(s);
    assert(state_back(s).devices =~= s.devices) by {
        assert forall|i: int| 0 <= i < s.devices.len() implies device_back(#[trigger] s.devices[i])
            == s.devices[i] by {
            assert(!ends_with_return(s.devices[i].last_address));
        }
    }
    assert(state_back(s).endpoint_aliases =~= s.endpoint_aliases) by {
        assert forall|i: int| 0 <= i < s.endpoint_aliases.len() implies alias_back(
            #[trigger] s.endpoint_aliases[i],
        ) == s.endpoint_aliases[i] by {
            assert(!ends_with_return(s.endpoint_aliases[i].label));
        }
    }
}

// Rows

/// Whether a text is one of the words that rows begin with.
pub open spec fn is_keyword(s: Seq<char>) -> bool {
    s == "controller_id"@ || s == "fabric_label"@ || s == "device"@ || s == "endpoint"@
}

/// A row that begins with no word that is known changes nothing, whatever stands in it; nor does a
/// line of whitespace.
pub proof fn unknown_rows_change_nothing(st: AppStateView, parts: Seq<Seq<char>>, line: Seq<char>)
    requires
        parts.len() > 0,
    ensures
        !is_keyword(parts[0]) ==> state::with_row(st, parts) == Ok::<AppStateView, NumberError>(st),
        (forall|i: int| 0 <= i < line.len() ==> text::is_space(#[trigger] line[i]))
            ==> state::with_line(st, line) == Ok::<AppStateView, NumberError>(st),
{
    if forall|i: int| 0 <= i < line.len() ==> text::is_space(#[trigger] line[i]) {
        text_laws::only_outer_space_is_trimmed(line);
        let t = text::trimmed(line);
        if t.len() > 0 {
            let (front, back) = choose|front: Seq<char>, back: Seq<char>|
                text_laws::is_blank(front) && text_laws::is_blank(back) && line == #[trigger] (front
                    + t + back);
            assert(line[front.len() as int] == t.first());
        }
    }
}

/// What stands in a row behind the fields that belong there does not matter.
pub proof fn further_fields_do_not_matter(
    st: AppStateView,
    parts: Seq<Seq<char>>,
    more: Seq<Seq<char>>,
)
    requires
        parts.len() >= 2,
        parts[0] == "device"@ || parts[0] == "endpoint"@ ==> parts.len() >= 4,
    ensures
        state::with_row(st, parts + more) == state::with_row(st, parts),
{
}

/// A row tells what it says: a row with an id sets the id of the controller, one with a label that
/// of the fabric, and a row with a device or with an alias adds it behind the others. Whatever else
/// is known stays.
pub proof fn rows_are_taken_in(
    st: AppStateView,
    id: u64,
    label: Seq<char>,
    d: KnownDeviceView,
    a: EndpointAliasView,
)
    ensures
        state::with_row(st, seq!["controller_id"@, number::decimal_text(id as nat)]) == Ok::<
            AppStateView,
            NumberError,
        >(AppStateView { controller_id: id, ..st }),
        state::with_row(st, seq!["fabric_label"@, state::escaped(label)]) == Ok::<
            AppStateView,
            NumberError,
        >(AppStateView { fabric_label: label, ..st }),
        state::with_row(
            st,
            seq![
                "device"@,
                state::escaped(d.label),
                number::decimal_text(d.node_id as nat),
                state::escaped(d.last_address),
            ],
        ) == Ok::<AppStateView, NumberError>(AppStateView { devices: st.devices.push(d), ..st }),
        state::with_row(
            st,
            seq![
                "endpoint"@,
                number::decimal_text(a.node_id as nat),
                number::decimal_text(a.endpoint_id as nat),
                state::escaped(a.label),
            ],
        ) == Ok::<AppStateView, NumberError>(
            AppStateView { endpoint_aliases: st.endpoint_aliases.push(a), ..st },
        ),
{
    lemma_keywords();
    lemma_decimal(id as nat, u64::MAX as nat);
    lemma_decimal(d.node_id as nat, u64::MAX as nat);
    lemma_decimal(a.node_id as nat, u64::MAX as nat);
    lemma_decimal(a.endpoint_id as nat, u16::MAX as nat);
    escaped_field_reads_back(label);
    escaped_field_reads_back(d.label);
    escaped_field_reads_back(d.last_address);
    escaped_field_reads_back(a.label);
}

/// A field without a backslash, a tab and a line end is stored as it is; those three are stored with
/// a backslash in front, and stand for themselves again when they are read.
pub proof fn plain_fields_are_stored_as_they_are(s: Seq<char>)
    requires
        lacks(s, '\\'),
    ensures
        state::unescaped(s) == s,
        lacks(s, '\t') && lacks(s, '\n') ==> state::escaped(s) == s,
        state::escaped(seq!['\\']) == seq!['\\', '\\'],
        state::escaped(seq!['\t']) == seq!['\\', 't'],
        state::escaped(seq!['\n']) == seq!['\\', 'n'],
    decreases s.len(),
{
    reveal_with_fuel(state::escaped, 2);
    assert(state::escaped(seq!['\\']) =~= seq!['\\', '\\']);
    assert(state::escaped(seq!['\t']) =~= seq!['\\', 't']);
    assert(state::escaped(seq!['\n']) =~= seq!['\\', 'n']);
    if s.len() > 0 {
        let rest = s.drop_first();
        assert forall|i: int| 0 <= i < rest.len() implies #[trigger] rest[i] != '\\' by {
            assert(rest[i] == s[i + 1]);
        }
        plain_fields_are_stored_as_they_are(rest);
        assert(s[0] != '\\');
        assert(s =~= seq![s.first()] + rest);
        if lacks(s, '\t') && lacks(s, '\n') {
            assert forall|i: int| 0 <= i < rest.len() implies #[trigger] rest[i] != '\t' && rest[i]
                != '\n' by {
                assert(rest[i] == s[i + 1]);
            }
            assert(lacks(rest, '\t') && lacks(rest, '\n'));
            assert(s[0] != '\t' && s[0] != '\n');
        }
    } else {
        assert(state::unescaped(s) =~= s);
        assert(state::escaped(s) =~= s);
    }
}

/// A row whose number is none is an error, and so is a state with such a row in it.
pub proof fn bad_numbers_are_errors(st: AppStateView, parts: Seq<Seq<char>>)
    requires
        parts.len() >= 4,
    ensures
        ({
            let bad = |s: Seq<char>, max: nat| number::number_of(s, 10, max) is Err;
            let r = state::with_row(st, parts);
            &&& parts[0] == "controller_id"@ && bad(parts[1], u64::MAX as nat) ==> r is Err
            &&& parts[0] == "device"@ && bad(parts[2], u64::MAX as nat) ==> r is Err
            &&& parts[0] == "endpoint"@ && (bad(parts[1], u64::MAX as nat) || bad(
                parts[2],
                u16::MAX as nat,
            )) ==> r is Err
        }),
{
    lemma_keywords();
}

// Storing and loading

/// What is loaded from a state that was saved is the state that was saved.
pub proof fn saving_and_loading_changes_nothing(
    s: &AppState,
    saved: String,
    stored: &str,
    r: Result<AppState, NumberError>,
)
    requires
        call_ensures(AppState::save, (s,), saved),
        stored@ == saved@,
        call_ensures(AppState::load, (Some(stored),), r),
        !ends_with_return(s.deep_view().fabric_label),
        forall|i: int|
            0 <= i < s.deep_view().devices.len() ==> !ends_with_return(
                #[trigger] s.deep_view().devices[i].last_address,
            ),
        forall|i: int|
            0 <= i < s.deep_view().endpoint_aliases.len() ==> !ends_with_return(
                #[trigger] s.deep_view().endpoint_aliases[i].label,
            ),
    ensures
        r matches Ok(t) && t.deep_view() == s.deep_view(),
{
    stored_state_loads_unchanged(s.deep_view());
}

/// Where nothing has been stored, nothing is remembered, and that is no error. The first device then
/// gets an id of its own.
pub proof fn client_starts_afresh(r: Result<AppState, NumberError>)
    requires
        call_ensures(AppState::load, (None::<&str>,), r),
    ensures
        r matches Ok(s) && {
            &&& s.devices@.len() == 0
            &&& s.endpoint_aliases@.len() == 0
            &&& s.controller_id == 100
            &&& s.fabric_label@ == "matter-client"@
            &&& state::next_id(s.deep_view().devices) == 4097
        },
{
    let s = r->Ok_0;
    assert(s.deep_view().devices.len() == s.devices@.len());
    assert(s.deep_view().endpoint_aliases.len() == s.endpoint_aliases@.len());
}

/// A field is read back as it was when it was escaped.
pub proof fn escaping_is_undone(value: &str, written: String, field: &str, r: String)
    requires
        call_ensures(state::escape_field, (value,), written),
        field@ == written@,
        call_ensures(state::unescape_field, (field,), r),
    ensures
        r@ == value@,
        lacks(written@, '\t'),
        lacks(written@, '\n'),
{
    escaped_field_reads_back(value@);
    escaped_field_stays_in_its_place(value@);
}

/// The next device gets the id behind the highest of those that are known, if there is one.
pub proof fn next_id_follows_the_highest(s: &AppState, free: bool, r: u64)
    requires
        call_ensures(AppState::has_free_node_id, (s,), free),
        free ==> call_ensures(AppState::next_node_id, (s,), r),
    ensures
        free <==> forall|i: int|
            0 <= i < s.devices@.len() ==> (#[trigger] s.devices@[i]).node_id < u64::MAX,
        free ==> forall|i: int|
            0 <= i < s.devices@.len() ==> (#[trigger] s.devices@[i]).node_id < r,
        free && s.devices@.len() > 0 ==> exists|i: int|
            0 <= i < s.devices@.len() && (#[trigger] s.devices@[i]).node_id == r - 1,
{
    let devices = s.devices.deep_view();
    assert(devices.len() == s.devices@.len());
    assert(forall|i: int|
        0 <= i < devices.len() ==> (#[trigger] devices[i]).node_id == s.devices@[i].node_id);
    assert(forall|i: int|
        0 <= i < devices.len() ==> (#[trigger] s.devices@[i]).node_id == devices[i].node_id);
    state::next_id_is_fresh(devices);
    if free && devices.len() > 0 {
        let i = choose|i: int|
            0 <= i < devices.len() && (#[trigger] devices[i]).node_id == state::next_id(devices) - 1;
        assert(s.devices@[i].node_id == r - 1);
    }
}

/// A row that lacks fields changes nothing.
pub proof fn short_rows_change_nothing(st: AppStateView, parts: Seq<Seq<char>>)
    requires
        parts.len() > 0,
        parts.len() < 2 || (parts.len() < 4 && (parts[0] == "device"@ || parts[0] == "endpoint"@)),
    ensures
        state::with_row(st, parts) == Ok::<AppStateView, NumberError>(st),
{
    lemma_keywords();
}

/// A backslash in front of a character for which it says nothing stays where it is, and so does one
/// at the end.
pub proof fn other_backslashes_stay(a: Seq<char>, c: char, b: Seq<char>)
    requires
        lacks(a, '\\'),
        c != 't' && c != 'n' && c != '\\',
    ensures
        state::unescaped(a + seq!['\\', c] + b) == a + seq!['\\', c] + state::unescaped(b),
        state::unescaped(a + seq!['\\']) == a + seq!['\\'],
    decreases a.len(),
{
    let s = a + seq!['\\', c] + b;
    let t = a + seq!['\\'];
    if a.len() == 0 {
        assert(s.skip(2) =~= b);
        assert(s[1] == c);
        assert(state::unescaped(s) =~= a + seq!['\\', c] + state::unescaped(b));
        assert(t =~= seq!['\\']);
        assert(state::unescaped(t) =~= t);
    } else {
        let rest = a.drop_first();
        assert forall|i: int| 0 <= i < rest.len() implies #[trigger] rest[i] != '\\' by {
            assert(rest[i] == a[i + 1]);
        }
        other_backslashes_stay(rest, c, b);
        assert(a[0] != '\\');
        assert(s.drop_first() =~= rest + seq!['\\', c] + b);
        assert(t.drop_first() =~= rest + seq!['\\']);
        assert(state::unescaped(s) =~= a + seq!['\\', c] + state::unescaped(b));
        assert(state::unescaped(t) =~= t);
    }
}

/// A line ends at a line feed, with a carriage return in front of it or without one; what follows is
/// the next line.
pub proof fn lines_end_at_line_feeds(line: Seq<char>, rest: Seq<char>)
    requires
        lacks(line, '\n'),
        !ends_with_return(line),
    ensures
        state::lines_of(line + seq!['\n'] + rest) == seq![line] + state::lines_of(rest),
        state::lines_of(line + seq!['\r', '\n'] + rest) == seq![line] + state::lines_of(rest),
        line.len() > 0 ==> state::lines_of(line) == seq![line],
        state::lines_of(Seq::<char>::empty()).len() == 0,
{
    let s = line + seq!['\n'] + rest;
    let t = line + seq!['\r', '\n'] + rest;
    let with_return = line.push('\r');
    lemma_first_feed(line, rest);
    lemma_first_feed(with_return, rest);
    assert(with_return + seq!['\n'] + rest =~= t);
    assert(with_return.drop_last() =~= line);
    text::lemma_span_before(line, '\n');
    assert(state::lines_of(s) =~= seq![line] + state::lines_of(rest));
    assert(state::lines_of(t) =~= seq![line] + state::lines_of(rest));
}

proof fn lemma_first_feed(line: Seq<char>, rest: Seq<char>)
    requires
        lacks(line, '\n'),
    ensures
        ({
            let s = line + seq!['\n'] + rest;
            let n = line.len() as int;
            &&& text::span_before(s, '\n') == n
            &&& s.take(n) == line
            &&& s.skip(n + 1) == rest
        }),
{
    let s = line + seq!['\n'] + rest;
    let n = line.len() as int;
    text::lemma_span_before(s, '\n');
    let k = text::span_before(s, '\n');
    assert(s[n] == '\n');
    if k < n {
        assert(line[k] == '\n');
    }
    assert(s.take(n) =~= line);
    assert(s.skip(n + 1) =~= rest);
}

} // verus!
