//! What the client remembers between two runs, and the text it is stored as.

use crate::number;
use crate::number::{decimal, parse_number, NumberError};
use crate::text;
use crate::text::{chars_of, index_of, same_text, split, substring, trim};
use vstd::prelude::*;

verus! {

/// The controller id of a client that has never stored one.
pub const DEFAULT_CONTROLLER_ID: u64 = 100;

/// A device that this client has commissioned.
#[derive(Debug)]
pub struct KnownDevice {
    pub label: String,
    pub node_id: u64,
    pub last_address: String,
}

/// The name that this client gives to an endpoint of a device.
#[derive(Debug)]
pub struct EndpointAlias {
    pub node_id: u64,
    pub endpoint_id: u16,
    pub label: String,
}

/// What the client remembers between two runs.
#[derive(Debug)]
pub struct AppState {
    pub controller_id: u64,
    pub fabric_label: String,
    pub devices: Vec<KnownDevice>,
    pub endpoint_aliases: Vec<EndpointAlias>,
}

/// The contents of a [`KnownDevice`].
#[verifier::ext_equal]
pub struct KnownDeviceView {
    pub label: Seq<char>,
    pub node_id: u64,
    pub last_address: Seq<char>,
}

/// The contents of an [`EndpointAlias`].
#[verifier::ext_equal]
pub struct EndpointAliasView {
    pub node_id: u64,
    pub endpoint_id: u16,
    pub label: Seq<char>,
}

/// The contents of an [`AppState`].
#[verifier::ext_equal]
pub struct AppStateView {
    pub controller_id: u64,
    pub fabric_label: Seq<char>,
    pub devices: Seq<KnownDeviceView>,
    pub endpoint_aliases: Seq<EndpointAliasView>,
}

impl DeepView for KnownDevice {
    type V = KnownDeviceView;

    open spec fn deep_view(&self) -> KnownDeviceView {
        KnownDeviceView {
            label: self.label@,
            node_id: self.node_id,
            last_address: self.last_address@,
        }
    }
}

impl DeepView for EndpointAlias {
    type V = EndpointAliasView;

    open spec fn deep_view(&self) -> EndpointAliasView {
        EndpointAliasView {
            node_id: self.node_id,
            endpoint_id: self.endpoint_id,
            label: self.label@,
        }
    }
}

impl DeepView for AppState {
    type V = AppStateView;

    open spec fn deep_view(&self) -> AppStateView {
        AppStateView {
            controller_id: self.controller_id,
            fabric_label: self.fabric_label@,
            devices: self.devices.deep_view(),
            endpoint_aliases: self.endpoint_aliases.deep_view(),
        }
    }
}

impl Clone for KnownDevice {
    fn clone(&self) -> (r: Self)
        ensures
            r.deep_view() == self.deep_view(),
    {
        KnownDevice {
            label: self.label.clone(),
            node_id: self.node_id,
            last_address: self.last_address.clone(),
        }
    }
}

/// The state of a client that starts for the first time.
pub open spec fn fresh_state() -> AppStateView {
    AppStateView {
        controller_id: DEFAULT_CONTROLLER_ID,
        fabric_label: "matter-client"@,
        devices: seq![],
        endpoint_aliases: seq![],
    }
}

impl Default for AppState {
    fn default() -> (r: Self)
        ensures
            r.deep_view() == fresh_state(),
    {
        AppState {
            controller_id: DEFAULT_CONTROLLER_ID,
            fabric_label: "matter-client".to_string(),
            devices: Vec::new(),
            endpoint_aliases: Vec::new(),
        }
    }
}

// Fields: tabs and line ends are written as two characters each

/// How one character of a field is stored.
pub open spec fn escaped_char(c: char) -> Seq<char> {
    if c == '\\' {
        seq!['\\', '\\']
    } else if c == '\t' {
        seq!['\\', 't']
    } else if c == '\n' {
        seq!['\\', 'n']
    } else {
        seq![c]
    }
}

/// How a field is stored.
pub open spec fn escaped(s: Seq<char>) -> Seq<char>
    decreases s.len(),
{
    if s.len() == 0 {
        seq![]
    } else {
        escaped_char(s.first()) + escaped(s.drop_first())
    }
}

/// What the character behind a backslash makes of the two.
pub open spec fn unescaped_pair(c: char) -> Seq<char> {
    if c == 't' {
        seq!['\t']
    } else if c == 'n' {
        seq!['\n']
    } else if c == '\\' {
        seq!['\\']
    } else {
        seq!['\\', c]
    }
}

/// The field that a stored text stands for.
pub open spec fn unescaped(s: Seq<char>) -> Seq<char>
    decreases s.len(),
{
    if s.len() == 0 {
        seq![]
    } else if s.first() != '\\' {
        seq![s.first()] + unescaped(s.drop_first())
    } else if s.len() == 1 {
        seq!['\\']
    } else {
        unescaped_pair(s[1]) + unescaped(s.skip(2))
    }
}

/// Writes a field so that it holds neither a tab nor a line end.
pub fn escape_field(value: &str) -> (r: String)
    ensures
        r@ == escaped(value@),
{
    let v = chars_of(value);
    let mut out: String = String::new();
    let mut i: usize = 0;
    assert(v@.skip(0) =~= v@);
    assert(out@ + escaped(v@) =~= escaped(v@));
    while i < v.len()
        invariant
            0 <= i <= v.len(),
            out@ + escaped(v@.skip(i as int)) == escaped(v@),
        decreases v.len() - i,
    {
        let ch = v[i];
        let ghost before = out@;
        if ch == '\\' {
            out.push('\\');
            out.push('\\');
        } else if ch == '\t' {
            out.push('\\');
            out.push('t');
        } else if ch == '\n' {
            out.push('\\');
            out.push('n');
        } else {
            out.push(ch);
        }
        proof {
            let rest = v@.skip(i as int);
            assert(rest.drop_first() =~= v@.skip(i + 1));
            assert(out@ =~= before + escaped_char(ch));
            assert(out@ + escaped(v@.skip(i + 1)) =~= before + (escaped_char(ch) + escaped(
                v@.skip(i + 1),
            )));
        }
        i += 1;
    }
    assert(out@ + escaped(v@.skip(i as int)) =~= out@);
    out
}

/// Reads a field back.
pub fn unescape_field(value: &str) -> (r: String)
    ensures
        r@ == unescaped(value@),
{
    let v = chars_of(value);
    let mut out: String = String::new();
    let mut i: usize = 0;
    assert(v@.skip(0) =~= v@);
    assert(out@ + unescaped(v@) =~= unescaped(v@));
    while i < v.len()
        invariant
            0 <= i <= v.len(),
            out@ + unescaped(v@.skip(i as int)) == unescaped(v@),
        decreases v.len() - i,
    {
        let ch = v[i];
        let ghost rest = v@.skip(i as int);
        let ghost before = out@;
        if ch != '\\' {
            out.push(ch);
            proof {
                assert(rest.drop_first() =~= v@.skip(i + 1));
                assert(out@ + unescaped(v@.skip(i + 1)) =~= before + (seq![ch] + unescaped(
                    v@.skip(i + 1),
                )));
            }
            i += 1;
        } else if i + 1 == v.len() {
            out.push('\\');
            proof {
                assert(unescaped(v@.skip(i + 1)) =~= seq![]);
                assert(out@ + unescaped(v@.skip(i + 1)) =~= before + seq!['\\']);
            }
            i += 1;
        } else {
            let next = v[i + 1];
            if next == 't' {
                out.push('\t');
            } else if next == 'n' {
                out.push('\n');
            } else if next == '\\' {
                out.push('\\');
            } else {
                out.push('\\');
                out.push(next);
            }
            proof {
                assert(rest.skip(2) =~= v@.skip(i + 2));
                assert(out@ =~= before + unescaped_pair(next));
                assert(out@ + unescaped(v@.skip(i + 2)) =~= before + (unescaped_pair(next)
                    + unescaped(v@.skip(i + 2))));
            }
            i += 2;
        }
    }
    assert(out@ + unescaped(v@.skip(i as int)) =~= out@);
    out
}

// Lines

/// A line without the carriage return in front of its end.
pub open spec fn without_return(s: Seq<char>) -> Seq<char> {
    if s.len() > 0 && s.last() == '\r' {
        s.drop_last()
    } else {
        s
    }
}

/// The lines of a text. A line ends at a line feed, or at a carriage return with a line feed; the
/// last line needs no end.
pub open spec fn lines_of(s: Seq<char>) -> Seq<Seq<char>>
    decreases s.len(),
    via lines_of_decreases
{
    let n = text::span_before(s, '\n');
    if s.len() == 0 {
        seq![]
    } else if n >= s.len() {
        seq![s]
    } else {
        seq![without_return(s.take(n))] + lines_of(s.skip(n + 1))
    }
}

#[via_fn]
proof fn lines_of_decreases(s: Seq<char>) {
    text::lemma_span_before(s, '\n');
}

/// Cuts a text into its lines.
pub fn lines(v: &[char]) -> (r: Vec<String>)
    ensures
        r.deep_view() == lines_of(v@),
{
    let mut r: Vec<String> = Vec::new();
    let mut from: usize = 0;
    assert(v@.skip(0) =~= v@);
    assert(r.deep_view() + lines_of(v@) =~= lines_of(v@));
    while from < v.len()
        invariant
            from <= v@.len(),
            r.deep_view() + lines_of(v@.skip(from as int)) == lines_of(v@),
        decreases v@.len() - from,
    {
        let to = index_of(v, '\n', from);
        let ghost rest = v@.skip(from as int);
        let ghost before = r.deep_view();
        proof {
            text::lemma_span_before(rest, '\n');
        }
        if to == v.len() {
            let line = substring(v, from, to);
            r.push(line);
            proof {
                assert(line@ =~= rest);
                assert(r.deep_view() =~= before + seq![line@]);
                assert(lines_of(v@.skip(to as int)) =~= seq![]);
                assert(r.deep_view() + lines_of(v@.skip(to as int)) =~= before + lines_of(rest));
            }
            from = to;
        } else {
            let end: usize = if to > from && v[to - 1] == '\r' {
                to - 1
            } else {
                to
            };
            let line = substring(v, from, end);
            r.push(line);
            proof {
                let n = text::span_before(rest, '\n');
                assert(line@ =~= without_return(rest.take(n)));
                assert(rest.skip(n + 1) =~= v@.skip(to + 1));
                assert(r.deep_view() =~= before + seq![line@]);
                assert(r.deep_view() + lines_of(v@.skip(to + 1)) =~= before + (seq![line@]
                    + lines_of(v@.skip(to + 1))));
            }
            from = to + 1;
        }
    }
    assert(r.deep_view() + lines_of(v@.skip(from as int)) =~= r.deep_view());
    r
}

// Reading a stored state

/// The state after one more row. A row that names nothing known, or is too short, changes nothing.
pub open spec fn with_row(state: AppStateView, parts: Seq<Seq<char>>) -> Result<
    AppStateView,
    NumberError,
> {
    if parts[0] == "controller_id"@ && parts.len() >= 2 {
        match number::number_of(parts[1], 10, u64::MAX as nat) {
            Ok(n) => Ok(AppStateView { controller_id: n as u64, ..state }),
            Err(e) => Err(e),
        }
    } else if parts[0] == "fabric_label"@ && parts.len() >= 2 {
        Ok(AppStateView { fabric_label: unescaped(parts[1]), ..state })
    } else if parts[0] == "device"@ && parts.len() >= 4 {
        match number::number_of(parts[2], 10, u64::MAX as nat) {
            Ok(n) => Ok(
                AppStateView {
                    devices: state.devices.push(
                        KnownDeviceView {
                            label: unescaped(parts[1]),
                            node_id: n as u64,
                            last_address: unescaped(parts[3]),
                        },
                    ),
                    ..state
                },
            ),
            Err(e) => Err(e),
        }
    } else if parts[0] == "endpoint"@ && parts.len() >= 4 {
        match number::number_of(parts[1], 10, u64::MAX as nat) {
            Ok(n) => match number::number_of(parts[2], 10, u16::MAX as nat) {
                Ok(m) => Ok(
                    AppStateView {
                        endpoint_aliases: state.endpoint_aliases.push(
                            EndpointAliasView {
                                node_id: n as u64,
                                endpoint_id: m as u16,
                                label: unescaped(parts[3]),
                            },
                        ),
                        ..state
                    },
                ),
                Err(e) => Err(e),
            },
            Err(e) => Err(e),
        }
    } else {
        Ok(state)
    }
}

/// The state after one more line. A blank line changes nothing; the fields of a row stand between
/// tabs.
pub open spec fn with_line(state: AppStateView, line: Seq<char>) -> Result<
    AppStateView,
    NumberError,
> {
    if text::trimmed(line).len() == 0 {
        Ok(state)
    } else {
        with_row(state, text::pieces(line, '\t'))
    }
}

/// The state after some more lines, up to the first with a bad number.
pub open spec fn with_lines(state: AppStateView, lines: Seq<Seq<char>>) -> Result<
    AppStateView,
    NumberError,
>
    decreases lines.len(),
{
    if lines.len() == 0 {
        Ok(state)
    } else {
        match with_line(state, lines.first()) {
            Ok(next) => with_lines(next, lines.drop_first()),
            Err(e) => Err(e),
        }
    }
}

/// The state that a stored text stands for.
pub open spec fn stored_state(s: Seq<char>) -> Result<AppStateView, NumberError> {
    with_lines(fresh_state(), lines_of(s))
}

proof fn lemma_pieces_nonempty(s: Seq<char>, sep: char)
    ensures
        text::pieces(s, sep).len() >= 1,
{
}

impl AppState {
    fn add_row(&mut self, parts: &Vec<String>) -> (r: Result<(), NumberError>)
        requires
            parts@.len() >= 1,
        ensures
            match r {
                Ok(_) => with_row(old(self).deep_view(), parts.deep_view())
                    == Ok::<AppStateView, NumberError>(final(self).deep_view()),
                Err(e) => with_row(old(self).deep_view(), parts.deep_view())
                    == Err::<AppStateView, NumberError>(e),
            },
    {
        let kind = parts[0].as_str();
        let n = parts.len();
        if same_text(kind, "controller_id") && n >= 2 {
            match parse_number(parts[1].as_str(), 10, u64::MAX) {
                Ok(id) => {
                    self.controller_id = id;
                    Ok(())
                },
                Err(e) => Err(e),
            }
        } else if same_text(kind, "fabric_label") && n >= 2 {
            self.fabric_label = unescape_field(parts[1].as_str());
            Ok(())
        } else if same_text(kind, "device") && n >= 4 {
            match parse_number(parts[2].as_str(), 10, u64::MAX) {
                Ok(node_id) => {
                    self.devices.push(
                        KnownDevice {
                            label: unescape_field(parts[1].as_str()),
                            node_id,
                            last_address: unescape_field(parts[3].as_str()),
                        },
                    );
                    assert(self.devices.deep_view() =~= old(self).devices.deep_view().push(
                        self.devices@.last().deep_view(),
                    ));
                    Ok(())
                },
                Err(e) => Err(e),
            }
        } else if same_text(kind, "endpoint") && n >= 4 {
            match parse_number(parts[1].as_str(), 10, u64::MAX) {
                Ok(node_id) => match parse_number(parts[2].as_str(), 10, u16::MAX as u64) {
                    Ok(endpoint_id) => {
                        self.endpoint_aliases.push(
                            EndpointAlias {
                                node_id,
                                endpoint_id: endpoint_id as u16,
                                label: unescape_field(parts[3].as_str()),
                            },
                        );
                        assert(self.endpoint_aliases.deep_view() =~= old(
                            self,
                        ).endpoint_aliases.deep_view().push(
                            self.endpoint_aliases@.last().deep_view(),
                        ));
                        Ok(())
                    },
                    Err(e) => Err(e),
                },
                Err(e) => Err(e),
            }
        } else {
            Ok(())
        }
    }

    /// Reads a stored state. Where nothing has been stored yet, the client starts afresh.
    pub fn load(stored: Option<&str>) -> (r: Result<AppState, NumberError>)
        ensures
            match r {
                Ok(state) => Ok::<AppStateView, NumberError>(state.deep_view()) == match stored {
                    Some(text) => stored_state(text@),
                    None => Ok(fresh_state()),
                },
                Err(e) => stored matches Some(text) && stored_state(text@) == Err::<
                    AppStateView,
                    NumberError,
                >(e),
            },
    {
        let mut state = AppState::default();
        let text = match stored {
            Some(text) => text,
            None => {
                return Ok(state);
            },
        };
        let all = lines(chars_of(text).as_slice());
        let ghost whole = all.deep_view();
        let mut i: usize = 0;
        assert(whole.skip(0) =~= whole);
        while i < all.len()
            invariant
                0 <= i <= all.len(),
                whole == all.deep_view(),
                stored == Some(text),
                whole == lines_of(text@),
                stored_state(text@) == with_lines(state.deep_view(), whole.skip(i as int)),
            decreases all.len() - i,
        {
            let line = all[i].as_str();
            proof {
                assert(whole.skip(i as int).drop_first() =~= whole.skip(i + 1));
                assert(whole.skip(i as int).first() == line@);
            }
            if !trim(line).as_str().is_empty() {
                let parts = split(chars_of(line).as_slice(), '\t');
                proof {
                    lemma_pieces_nonempty(line@, '\t');
                    assert(parts.deep_view().len() == parts@.len());
                }
                match state.add_row(&parts) {
                    Ok(_) => {},
                    Err(e) => {
                        return Err(e);
                    },
                }
            }
            i += 1;
        }
        Ok(state)
    }
}

// Writing a state down

/// The rows of a stored state, each a list of fields.
pub open spec fn state_rows(state: AppStateView) -> Seq<Seq<Seq<char>>> {
    seq![
        seq!["controller_id"@, number::decimal_text(state.controller_id as nat)],
        seq!["fabric_label"@, escaped(state.fabric_label)],
    ] + state.devices.map_values(|d: KnownDeviceView| device_row(d))
        + state.endpoint_aliases.map_values(|a: EndpointAliasView| alias_row(a))
}

/// The row of a device.
pub open spec fn device_row(d: KnownDeviceView) -> Seq<Seq<char>> {
    seq![
        "device"@,
        escaped(d.label),
        number::decimal_text(d.node_id as nat),
        escaped(d.last_address),
    ]
}

/// The row of an alias.
pub open spec fn alias_row(a: EndpointAliasView) -> Seq<Seq<char>> {
    seq![
        "endpoint"@,
        number::decimal_text(a.node_id as nat),
        number::decimal_text(a.endpoint_id as nat),
        escaped(a.label),
    ]
}

/// The rows as lines, their fields between tabs.
pub open spec fn rows_text(rows: Seq<Seq<Seq<char>>>) -> Seq<char>
    decreases rows.len(),
{
    if rows.len() == 0 {
        seq![]
    } else {
        rows_text(rows.drop_last()) + text::joined(rows.last(), seq!['\t']) + seq!['\n']
    }
}

/// The text that a state is stored as.
pub open spec fn saved_text(state: AppStateView) -> Seq<char> {
    rows_text(state_rows(state))
}

fn push_row(out: &mut String, fields: &Vec<String>, Ghost(rows): Ghost<Seq<Seq<Seq<char>>>>)
    requires
        old(out)@ == rows_text(rows),
    ensures
        final(out)@ == rows_text(rows.push(fields.deep_view())),
{
    let row = text::join(fields, "\t");
    out.append(row.as_str());
    out.append("\n");
    proof {
        reveal_strlit("\t");
        reveal_strlit("\n");
        assert("\t"@ =~= seq!['\t']);
        assert("\n"@ =~= seq!['\n']);
        assert(rows.push(fields.deep_view()).drop_last() =~= rows);
    }
}

impl AppState {
    /// Writes the state down as text.
    pub fn save(&self) -> (r: String)
        ensures
            r@ == saved_text(self.deep_view()),
    {
        let ghost state = self.deep_view();
        let ghost devices = state.devices.map_values(|d: KnownDeviceView| device_row(d));
        let ghost aliases = state.endpoint_aliases.map_values(|a: EndpointAliasView| alias_row(a));
        let mut out: String = String::new();
        let ghost mut rows: Seq<Seq<Seq<char>>> = seq![];

        let mut row: Vec<String> = Vec::new();
        row.push("controller_id".to_string());
        row.push(decimal(self.controller_id));
        push_row(&mut out, &row, Ghost(rows));
        proof {
            rows = rows.push(row.deep_view());
        }
        let ghost first = row.deep_view();
        let mut row: Vec<String> = Vec::new();
        row.push("fabric_label".to_string());
        row.push(escape_field(self.fabric_label.as_str()));
        push_row(&mut out, &row, Ghost(rows));
        let ghost second = row.deep_view();
        let ghost head = seq![first, second];
        proof {
            rows = rows.push(second);
            assert(first =~= seq!["controller_id"@, number::decimal_text(state.controller_id as nat)]);
            assert(second =~= seq!["fabric_label"@, escaped(state.fabric_label)]);
            assert(rows =~= head + devices.take(0));
        }

        let mut i: usize = 0;
        while i < self.devices.len()
            invariant
                state == self.deep_view(),
                devices == state.devices.map_values(|d: KnownDeviceView| device_row(d)),
                0 <= i <= self.devices.len(),
                rows == head + devices.take(i as int),
                out@ == rows_text(rows),
            decreases self.devices.len() - i,
        {
            let device = &self.devices[i];
            let mut row: Vec<String> = Vec::new();
            row.push("device".to_string());
            row.push(escape_field(device.label.as_str()));
            row.push(decimal(device.node_id));
            row.push(escape_field(device.last_address.as_str()));
            push_row(&mut out, &row, Ghost(rows));
            proof {
                assert(row.deep_view() =~= device_row(device.deep_view()));
                assert(devices[i as int] == row.deep_view());
                rows = rows.push(row.deep_view());
                assert(rows =~= head + devices.take(i + 1));
            }
            i += 1;
        }
        assert(rows =~= head + devices + aliases.take(0));

        let mut i: usize = 0;
        while i < self.endpoint_aliases.len()
            invariant
                state == self.deep_view(),
                aliases == state.endpoint_aliases.map_values(
                    |a: EndpointAliasView| alias_row(a),
                ),
                0 <= i <= self.endpoint_aliases.len(),
                rows == head + devices + aliases.take(i as int),
                out@ == rows_text(rows),
            decreases self.endpoint_aliases.len() - i,
        {
            let alias = &self.endpoint_aliases[i];
            let mut row: Vec<String> = Vec::new();
            row.push("endpoint".to_string());
            row.push(decimal(alias.node_id));
            row.push(decimal(alias.endpoint_id as u64));
            row.push(escape_field(alias.label.as_str()));
            push_row(&mut out, &row, Ghost(rows));
            proof {
                assert(row.deep_view() =~= alias_row(alias.deep_view()));
                assert(aliases[i as int] == row.deep_view());
                rows = rows.push(row.deep_view());
                assert(rows =~= head + devices + aliases.take(i + 1));
            }
            i += 1;
        }
        assert(rows =~= state_rows(state));
        out
    }

    /// Whether there is an id above those of the known devices.
    pub fn has_free_node_id(&self) -> (r: bool)
        ensures
            r == has_free_id(self.devices.deep_view()),
    {
        let ghost devices = self.devices.deep_view();
        let mut i: usize = 0;
        while i < self.devices.len()
            invariant
                i <= self.devices.len(),
                devices == self.devices.deep_view(),
                forall|j: int| 0 <= j < i ==> (#[trigger] devices[j]).node_id < u64::MAX,
            decreases self.devices.len() - i,
        {
            assert(devices[i as int] == self.devices@[i as int].deep_view());
            if self.devices[i].node_id == u64::MAX {
                return false;
            }
            i += 1;
        }
        true
    }

    /// An id that no known device has: one above the highest, or the first of a fresh client.
    pub fn next_node_id(&self) -> (r: u64)
        requires
            has_free_id(self.devices.deep_view()),
        ensures
            r == next_id(self.devices.deep_view()),
    {
        if self.devices.len() == 0 {
            return 0x1001;
        }
        let ghost devices = self.devices.deep_view();
        let mut highest: u64 = self.devices[0].node_id;
        let mut i: usize = 1;
        assert(devices.take(1).drop_last() =~= seq![]);
        assert(devices.take(1).last() == self.devices@[0].deep_view());
        assert(devices[0] == self.devices@[0].deep_view());
        assert(highest_id(devices.take(1)) == highest) by {
            reveal_with_fuel(highest_id, 2);
        }
        while i < self.devices.len()
            invariant
                1 <= i <= self.devices@.len(),
                devices == self.devices.deep_view(),
                has_free_id(devices),
                highest == highest_id(devices.take(i as int)),
                highest < u64::MAX,
            decreases self.devices.len() - i,
        {
            assert(devices.take(i + 1).drop_last() =~= devices.take(i as int));
            assert(devices.take(i + 1).last() == self.devices@[i as int].deep_view());
            assert(devices[i as int] == self.devices@[i as int].deep_view());
            if self.devices[i].node_id > highest {
                highest = self.devices[i].node_id;
            }
            i += 1;
        }
        assert(devices.take(i as int) =~= devices);
        highest + 1
    }
}

/// Whether the highest id of the devices leaves one above it.
pub open spec fn has_free_id(devices: Seq<KnownDeviceView>) -> bool {
    forall|i: int| 0 <= i < devices.len() ==> (#[trigger] devices[i]).node_id < u64::MAX
}

/// The highest id of devices.
pub open spec fn highest_id(devices: Seq<KnownDeviceView>) -> int
    decreases devices.len(),
{
    if devices.len() == 0 {
        0
    } else {
        let before = highest_id(devices.drop_last());
        if devices.last().node_id > before {
            devices.last().node_id as int
        } else {
            before
        }
    }
}

/// The id that the next device gets.
pub open spec fn next_id(devices: Seq<KnownDeviceView>) -> int {
    if devices.len() == 0 {
        0x1001
    } else {
        highest_id(devices) + 1
    }
}

/// The id that the next device gets is above that of every known device.
pub proof fn next_id_is_fresh(devices: Seq<KnownDeviceView>)
    ensures
        forall|i: int| 0 <= i < devices.len() ==> (#[trigger] devices[i]).node_id < next_id(devices),
        devices.len() > 0 ==> exists|i: int|
            0 <= i < devices.len() && (#[trigger] devices[i]).node_id == next_id(devices) - 1,
    decreases devices.len(),
{
    if devices.len() > 0 {
        let front = devices.drop_last();
        next_id_is_fresh(front);
        let last = devices.len() - 1;
        assert forall|i: int| 0 <= i < devices.len() implies (#[trigger] devices[i]).node_id
            < next_id(devices) by {
            if i < last {
                assert(front[i] == devices[i]);
            }
        }
        if front.len() == 0 {
            assert(highest_id(front) == 0);
            assert(devices[last].node_id == highest_id(devices));
        } else {
            let i = choose|i: int|
                0 <= i < front.len() && (#[trigger] front[i]).node_id == next_id(front) - 1;
            assert(devices[i] == front[i]);
            assert(devices[last].node_id == highest_id(devices) || devices[i].node_id
                == highest_id(devices));
        }
    }
}

} // verus!
