//! The rows of the adapter table and the port that the detail panel
//! shows.

use vstd::prelude::*;

use crate::adapters::{adapter_rows, selection_rows, AdapterInfo, PortInfo, PortState};
use crate::app_state::AppState;
use crate::format::{rate_summary, truncate_rate};
use crate::text::{push_char, same_text};

verus! {

/// One row of the adapter table, without its throughput columns.
#[derive(Debug)]
pub enum TableRow {
    /// The single row shown when no adapter was found.
    NoAdapters,
    /// An adapter's header row.
    Adapter { name: String, selected: bool },
    /// A port's row: its number, state and state label, and link rate
    /// summary.
    Port {
        port_number: u16,
        state: PortState,
        state_label: String,
        link: String,
        selected: bool,
    },
}

/// A table row with its text as character sequences.
pub enum RowView {
    NoAdapters,
    Adapter { name: Seq<char>, selected: bool },
    Port {
        port_number: u16,
        state: PortState,
        state_label: Seq<char>,
        link: Seq<char>,
        selected: bool,
    },
}

impl View for TableRow {
    type V = RowView;

    open spec fn view(&self) -> RowView {
        match self {
            TableRow::NoAdapters => RowView::NoAdapters,
            TableRow::Adapter { name, selected } => RowView::Adapter {
                name: name@,
                selected: *selected,
            },
            TableRow::Port { port_number, state, state_label, link, selected } => RowView::Port {
                port_number: *port_number,
                state: *state,
                state_label: state_label@,
                link: link@,
                selected: *selected,
            },
        }
    }
}

impl RowView {
    /// Whether the row is highlighted as the selection.
    pub open spec fn is_selected(self) -> bool {
        match self {
            RowView::NoAdapters => false,
            RowView::Adapter { selected, .. } => selected,
            RowView::Port { selected, .. } => selected,
        }
    }
}

/// The label of a port's state. An active port's label starts with a dot
/// that pulses: filled for the first 30 of every 60 frames, hollow for the
/// rest.
pub open spec fn state_label(state: PortState, frame_count: u64) -> Seq<char> {
    match state {
        PortState::Active => seq![if frame_count % 60 < 30 { '●' } else { '○' }] + seq![
            'A',
            'C',
            'T',
            'I',
            'V',
            'E',
        ],
        PortState::Down => seq!['○', 'D', 'O', 'W', 'N'],
        PortState::Unknown => seq!['?', 'U', 'N', 'K', 'N'],
    }
}

/// The rows of one adapter that starts at table row `first`: its header,
/// then one row per port.
pub open spec fn adapter_table_rows(
    adapter: AdapterInfo,
    first: int,
    selected_row: int,
    frame_count: u64,
) -> Seq<RowView> {
    seq![RowView::Adapter { name: adapter.name@, selected: selected_row == first }].add(
        Seq::new(
            adapter.ports@.len(),
            |k: int|
                RowView::Port {
                    port_number: adapter.ports@[k].port_number,
                    state: adapter.ports@[k].state,
                    state_label: state_label(adapter.ports@[k].state, frame_count),
                    link: rate_summary(adapter.ports@[k].rate@),
                    selected: selected_row == first + 1 + k,
                },
        ),
    )
}

/// The rows of a list of adapters, in order, numbered from the first row.
pub open spec fn adapters_table_rows(
    adapters: Seq<AdapterInfo>,
    selected_row: int,
    frame_count: u64,
) -> Seq<RowView>
    decreases adapters.len(),
{
    if adapters.len() == 0 {
        seq![]
    } else {
        adapters_table_rows(adapters.drop_last(), selected_row, frame_count).add(
            adapter_table_rows(
                adapters.last(),
                selection_rows(adapters.drop_last()).len() as int,
                selected_row,
                frame_count,
            ),
        )
    }
}

/// The rows of the table: a single notice without adapters, else each
/// adapter's rows.
pub open spec fn table_view(
    adapters: Seq<AdapterInfo>,
    selected_row: int,
    frame_count: u64,
) -> Seq<RowView> {
    if adapters.len() == 0 {
        seq![RowView::NoAdapters]
    } else {
        adapters_table_rows(adapters, selected_row, frame_count)
    }
}

fn push_str_chars(s: &mut String, c0: char, c1: char, c2: char, c3: char, c4: char)
    ensures
        final(s)@ == old(s)@ + seq![c0, c1, c2, c3, c4],
{
    let ghost start = s@;
    push_char(s, c0);
    push_char(s, c1);
    push_char(s, c2);
    push_char(s, c3);
    push_char(s, c4);
    assert(s@ =~= start + seq![c0, c1, c2, c3, c4]);
}

/// The label of a port's state in the table.
pub fn port_state_label(state: PortState, frame_count: u64) -> (label: String)
    ensures
        label@ == state_label(state, frame_count),
{
    let mut label = String::new();
    match state {
        PortState::Active => {
            // Subtle pulse: alternates between bright and dim dot
            push_char(&mut label, if frame_count % 60 < 30 { '●' } else { '○' });
            push_char(&mut label, 'A');
            push_str_chars(&mut label, 'C', 'T', 'I', 'V', 'E');
        },
        PortState::Down => {
            push_str_chars(&mut label, '○', 'D', 'O', 'W', 'N');
        },
        PortState::Unknown => {
            push_str_chars(&mut label, '?', 'U', 'N', 'K', 'N');
        },
    }
    assert(label@ =~= state_label(state, frame_count));
    label
}

/// The rows of the adapter table for `adapters` with `selected_row`
/// highlighted, at animation frame `frame_count`.
pub fn table_rows(adapters: &[AdapterInfo], selected_row: usize, frame_count: u64) -> (rows: Vec<
    TableRow,
>)
    ensures
        rows@.map_values(|row: TableRow| row@) == table_view(
            adapters@,
            selected_row as int,
            frame_count,
        ),
{
    let mut rows: Vec<TableRow> = Vec::new();
    if adapters.len() == 0 {
        rows.push(TableRow::NoAdapters);
        assert(rows@.map_values(|row: TableRow| row@) =~= seq![RowView::NoAdapters]);
        return rows;
    }
    let mut i: usize = 0;
    while i < adapters.len()
        invariant
            0 <= i <= adapters@.len(),
            rows@.map_values(|row: TableRow| row@) == adapters_table_rows(
                adapters@.take(i as int),
                selected_row as int,
                frame_count,
            ),
            rows@.len() == selection_rows(adapters@.take(i as int)).len(),
        decreases adapters@.len() - i,
    {
        let adapter = &adapters[i];
        let ghost first = rows@.len() as int;
        let ghost before = rows@.map_values(|row: TableRow| row@);
        let header_selected = selected_row == rows.len();
        rows.push(TableRow::Adapter { name: adapter.name.clone(), selected: header_selected });
        assert(rows@.map_values(|row: TableRow| row@) =~= before.push(
            RowView::Adapter { name: adapter.name@, selected: selected_row == first },
        ));
        let mut j: usize = 0;
        while j < adapter.ports.len()
            invariant
                0 <= j <= adapter.ports@.len(),
                adapter == adapters@[i as int],
                first + 1 + j == rows@.len(),
                rows@.map_values(|row: TableRow| row@) == before.add(
                    adapter_table_rows(*adapter, first, selected_row as int, frame_count).take(
                        1 + j,
                    ),
                ),
            decreases adapter.ports@.len() - j,
        {
            let port = &adapter.ports[j];
            let ghost so_far = rows@.map_values(|row: TableRow| row@);
            let selected = selected_row == rows.len();
            let row = TableRow::Port {
                port_number: port.port_number,
                state: port.state,
                state_label: port_state_label(port.state, frame_count),
                link: truncate_rate(&port.rate),
                selected,
            };
            rows.push(row);
            assert(rows@.map_values(|row: TableRow| row@) =~= so_far.push(row@));
            assert(adapter_table_rows(*adapter, first, selected_row as int, frame_count).take(
                2 + j,
            ) =~= adapter_table_rows(*adapter, first, selected_row as int, frame_count).take(
                1 + j,
            ).push(row@));
            j += 1;
        }
        proof {
            let whole = adapter_table_rows(*adapter, first, selected_row as int, frame_count);
            assert(whole.take(1 + j) =~= whole);
            let prefix = adapters@.take(i as int);
            assert(adapters@.take(i + 1).drop_last() =~= prefix);
            assert(adapter_rows(*adapter).len() == 1 + adapter.ports@.len());
        }
        i += 1;
    }
    assert(adapters@.take(adapters@.len() as int) =~= adapters@);
    rows
}

/// Row `i` of the table and row `i` of the selection list describe the
/// same thing: a header for an adapter header, the same port number for a
/// port; and only row `selected_row` is highlighted.
pub open spec fn row_follows_item(
    row: RowView,
    item: Option<(Seq<char>, u16)>,
    i: int,
    selected_row: int,
) -> bool {
    &&& (row is Adapter <==> item is None)
    &&& (row is Port <==> item is Some)
    &&& (row matches RowView::Port { port_number, .. } ==> port_number == item.unwrap().1)
    &&& (row.is_selected() <==> i == selected_row)
}

/// The table rows of a list of adapters line up with its selection list,
/// row for row.
pub proof fn lemma_rows_follow_items(adapters: Seq<AdapterInfo>, selected_row: int, frame_count: u64)
    ensures
        adapters_table_rows(adapters, selected_row, frame_count).len() == selection_rows(
            adapters,
        ).len(),
        forall|i: int|
            0 <= i < selection_rows(adapters).len() ==> row_follows_item(
                #[trigger] adapters_table_rows(adapters, selected_row, frame_count)[i],
                selection_rows(adapters)[i],
                i,
                selected_row,
            ),
    decreases adapters.len(),
{
    if adapters.len() > 0 {
        let init = adapters.drop_last();
        let last = adapters.last();
        lemma_rows_follow_items(init, selected_row, frame_count);
        let offset = selection_rows(init).len() as int;
        let rows = adapters_table_rows(adapters, selected_row, frame_count);
        let items = selection_rows(adapters);
        let head_rows = adapters_table_rows(init, selected_row, frame_count);
        let tail_rows = adapter_table_rows(last, offset, selected_row, frame_count);
        let tail_items = adapter_rows(last);
        assert(rows == head_rows.add(tail_rows));
        assert(items == selection_rows(init).add(tail_items));
        assert forall|i: int| 0 <= i < items.len() implies row_follows_item(
            #[trigger] rows[i],
            items[i],
            i,
            selected_row,
        ) by {
            if i < offset {
                assert(rows[i] == head_rows[i]);
                assert(items[i] == selection_rows(init)[i]);
            } else {
                let k = i - offset;
                assert(rows[i] == tail_rows[k]);
                assert(items[i] == tail_items[k]);
            }
        }
    }
}

/// When the state's rows are those of `adapters` and its selection is on
/// a port, the table highlights exactly that row, and that row shows the
/// port that `selected_port` names.
pub proof fn lemma_highlight_is_selected_port(
    state: AppState,
    adapters: Seq<AdapterInfo>,
    frame_count: u64,
)
    requires
        state.items() == selection_rows(adapters),
        crate::app_state::is_port_row(state.selectable_items@, state.selected_row as int),
    ensures
        ({
            let rows = table_view(adapters, state.selected_row as int, frame_count);
            let row = state.selected_row as int;
            &&& rows.len() == state.items().len()
            &&& rows[row] matches RowView::Port { port_number, selected, .. }
            &&& selected
            &&& port_number == state.items()[row].unwrap().1
            &&& forall|i: int| 0 <= i < rows.len() && i != row ==> !(#[trigger] rows[i]).is_selected()
        }),
{
    let row = state.selected_row as int;
    lemma_rows_follow_items(adapters, row, frame_count);
    assert(state.items()[row] is Some);
    if adapters.len() == 0 {
        assert(selection_rows(adapters).len() == 0);
    }
    let rows = table_view(adapters, row, frame_count);
    let items = selection_rows(adapters);
    assert(row_follows_item(rows[row], items[row], row, row));
    assert forall|i: int| 0 <= i < rows.len() && i != row implies !(#[trigger] rows[i]).is_selected() by {
        assert(row_follows_item(rows[i], items[i], i, row));
    }
}

/// Each adapter's rows describe that adapter: counting table rows from the
/// top, adapter `a` starts at the row after the rows of the adapters
/// before it (one header plus one row per port each); that row is its
/// header with its name, and the `k`-th row after it is the row of its
/// `k`-th port, with that port's number, its own state, the label of that
/// state, and the summary of its rate. A row is highlighted exactly when it
/// is `selected_row`.
pub proof fn lemma_port_rows_describe_their_ports(
    adapters: Seq<AdapterInfo>,
    selected_row: int,
    frame_count: u64,
    a: int,
    k: int,
)
    requires
        0 <= a < adapters.len(),
        0 <= k < adapters[a].ports@.len(),
    ensures
        ({
            let rows = table_view(adapters, selected_row, frame_count);
            let first = selection_rows(adapters.take(a)).len() as int;
            let port = adapters[a].ports@[k];
            &&& first + 1 + k < rows.len()
            &&& rows[first] == RowView::Adapter {
                name: adapters[a].name@,
                selected: selected_row == first,
            }
            &&& rows[first + 1 + k] matches RowView::Port {
                port_number,
                state,
                state_label: label,
                link,
                selected,
            }
            &&& port_number == port.port_number
            &&& state == port.state
            &&& label == state_label(port.state, frame_count)
            &&& link == rate_summary(port.rate@)
            &&& selected == (selected_row == first + 1 + k)
        }),
    decreases adapters.len(),
{
    let init = adapters.drop_last();
    let last = adapters.last();
    let rows = adapters_table_rows(adapters, selected_row, frame_count);
    let head = adapters_table_rows(init, selected_row, frame_count);
    lemma_rows_follow_items(init, selected_row, frame_count);
    let offset = selection_rows(init).len() as int;
    let tail = adapter_table_rows(last, offset, selected_row, frame_count);
    assert(rows == head.add(tail));
    if a < adapters.len() - 1 {
        lemma_port_rows_describe_their_ports(init, selected_row, frame_count, a, k);
        assert(init.take(a) =~= adapters.take(a));
        assert(init[a] == adapters[a]);
        let first = selection_rows(adapters.take(a)).len() as int;
        assert(init.len() > 0);
        assert(head == table_view(init, selected_row, frame_count));
        assert(rows[first] == head[first]);
        assert(rows[first + 1 + k] == head[first + 1 + k]);
    } else {
        assert(adapters.take(a) =~= init);
        assert(rows[offset] == tail[0]);
        assert(rows[offset + 1 + k] == tail[1 + k]);
    }
}

/// `a` is the first adapter of `adapters` with the name `name`.
pub open spec fn first_named(adapters: Seq<AdapterInfo>, name: Seq<char>, a: int) -> bool {
    &&& 0 <= a < adapters.len()
    &&& adapters[a].name@ == name
    &&& forall|b: int| 0 <= b < a ==> adapters[b].name@ != name
}

/// `p` is the first port of `ports` with the number `number`.
pub open spec fn first_numbered(ports: Seq<PortInfo>, number: u16, p: int) -> bool {
    &&& 0 <= p < ports.len()
    &&& ports[p].port_number == number
    &&& forall|q: int| 0 <= q < p ==> ports[q].port_number != number
}

/// The port that the detail panel describes: among the ports of the first
/// adapter named `name`, the first numbered `number`; none when there is
/// no such adapter or it has no such port.
pub fn find_port<'a>(adapters: &'a [AdapterInfo], name: &str, number: u16) -> (port: Option<
    &'a PortInfo,
>)
    ensures
        port is None <==> forall|a: int, p: int|
            !(#[trigger] first_named(adapters@, name@, a) && #[trigger] first_numbered(
                adapters@[a].ports@,
                number,
                p,
            )),
        port matches Some(found) ==> exists|a: int, p: int|
            #[trigger] first_named(adapters@, name@, a) && #[trigger] first_numbered(
                adapters@[a].ports@,
                number,
                p,
            ) && *found == adapters@[a].ports@[p],
{
    let mut a: usize = 0;
    while a < adapters.len() && !same_text(adapters[a].name.as_str(), name)
        invariant
            a <= adapters@.len(),
            forall|b: int| 0 <= b < a ==> adapters@[b].name@ != name@,
        decreases adapters@.len() - a,
    {
        a += 1;
    }
    if a == adapters.len() {
        return None;
    }
    let adapter = &adapters[a];
    assert(first_named(adapters@, name@, a as int));
    let mut p: usize = 0;
    while p < adapter.ports.len() && adapter.ports[p].port_number != number
        invariant
            adapter == adapters@[a as int],
            p <= adapter.ports@.len(),
            forall|q: int| 0 <= q < p ==> adapter.ports@[q].port_number != number,
        decreases adapter.ports@.len() - p,
    {
        p += 1;
    }
    if p == adapter.ports.len() {
        proof {
            assert forall|b: int, q: int|
                !(#[trigger] first_named(adapters@, name@, b) && #[trigger] first_numbered(
                    adapters@[b].ports@,
                    number,
                    q,
                )) by {
                if first_named(adapters@, name@, b) {
                    assert(b == a);
                }
            }
        }
        None
    } else {
        assert(first_numbered(adapter.ports@, number, p as int));
        proof {
            assert forall|b: int, q: int|
                first_named(adapters@, name@, b) && first_numbered(
                    adapters@[b].ports@,
                    number,
                    q,
                ) implies b == a && q == p by {}
        }
        Some(&adapter.ports[p])
    }
}

/// Every port row of the selection list of `adapters` comes from a port of
/// one of them, and holds that adapter's name and that port's number.
pub proof fn lemma_port_row_origin(adapters: Seq<AdapterInfo>, i: int)
    requires
        0 <= i < selection_rows(adapters).len(),
        selection_rows(adapters)[i] is Some,
    ensures
        exists|a: int, k: int|
            0 <= a < adapters.len() && 0 <= k < adapters[a].ports@.len() && selection_rows(
                adapters,
            )[i] == Some((adapters[a].name@, #[trigger] adapters[a].ports@[k].port_number)),
    decreases adapters.len(),
{
    let init = adapters.drop_last();
    let last = adapters.last();
    let offset = selection_rows(init).len() as int;
    assert(selection_rows(adapters) == selection_rows(init).add(adapter_rows(last)));
    if i < offset {
        lemma_port_row_origin(init, i);
        let (a, k) = choose|a: int, k: int|
            0 <= a < init.len() && 0 <= k < init[a].ports@.len() && selection_rows(init)[i]
                == Some((init[a].name@, #[trigger] init[a].ports@[k].port_number));
        assert(adapters[a] == init[a]);
        assert(selection_rows(adapters)[i] == selection_rows(init)[i]);
    } else {
        let k = i - offset - 1;
        assert(adapter_rows(last)[i - offset] == selection_rows(adapters)[i]);
        assert(adapters[adapters.len() - 1] == last);
        assert(selection_rows(adapters)[i] == Some(
            (adapters[adapters.len() - 1].name@, adapters[adapters.len() - 1].ports@[k].port_number),
        ));
    }
}

/// When adapter names are distinct and the state's rows are those of
/// `adapters`, the port that the table selects is one that the detail
/// panel's lookup finds: the adapter it names has a port with its number.
pub proof fn lemma_detail_finds_selected_port(state: AppState, adapters: Seq<AdapterInfo>)
    requires
        state.items() == selection_rows(adapters),
        crate::app_state::is_port_row(state.selectable_items@, state.selected_row as int),
        forall|a: int, b: int|
            0 <= a < b < adapters.len() ==> #[trigger] adapters[a].name@ != #[trigger] adapters[b].name@,
    ensures
        ({
            let (name, number) = state.items()[state.selected_row as int].unwrap();
            exists|a: int, p: int|
                #[trigger] first_named(adapters, name, a) && #[trigger] first_numbered(
                    adapters[a].ports@,
                    number,
                    p,
                )
        }),
{
    let row = state.selected_row as int;
    assert(state.items()[row] is Some);
    lemma_port_row_origin(adapters, row);
    let (name, number) = state.items()[row].unwrap();
    let (a, k) = choose|a: int, k: int|
        0 <= a < adapters.len() && 0 <= k < adapters[a].ports@.len() && selection_rows(adapters)[row]
            == Some((adapters[a].name@, #[trigger] adapters[a].ports@[k].port_number));
    assert forall|b: int| 0 <= b < a implies adapters[b].name@ != name by {
        assert(adapters[b].name@ != adapters[a].name@);
    }
    assert(first_named(adapters, name, a));
    let ports = adapters[a].ports@;
    let p = first_port_numbered(ports, number, k);
    assert(first_numbered(ports, number, p));
}

/// The first index of a port numbered `number`, given that port `k` has
/// that number.
proof fn first_port_numbered(ports: Seq<PortInfo>, number: u16, k: int) -> (p: int)
    requires
        0 <= k < ports.len(),
        ports[k].port_number == number,
    ensures
        first_numbered(ports, number, p),
    decreases k,
{
    if exists|q: int| 0 <= q < k && ports[q].port_number == number {
        let q = choose|q: int| 0 <= q < k && ports[q].port_number == number;
        first_port_numbered(ports, number, q)
    } else {
        k
    }
}

} // verus!
