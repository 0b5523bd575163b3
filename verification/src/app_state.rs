//! State of the interactive view: which row of the adapter table is
//! selected, whether the detail panel is open, which detail tab is shown
//! and in which unit throughput is displayed.

use vstd::prelude::*;

use crate::adapters::{adapter_rows, selection_rows, AdapterInfo};

verus! {

/// Number of tabs of the detail panel (throughput, packets, errors).
pub const DETAIL_TABS: usize = 3;

/// Whether `row` of the table's item list is a port (a selectable row);
/// rows past the end, and adapter headers, are not.
pub open spec fn is_port_row<T>(items: Seq<Option<T>>, row: int) -> bool {
    0 <= row < items.len() && items[row] is Some
}

/// Application state for the UI.
#[derive(Debug)]
pub struct AppState {
    /// Currently selected row index (for navigation)
    pub selected_row: usize,
    /// Whether detail view is expanded
    pub detail_expanded: bool,
    /// Currently selected tab in detail view
    pub detail_tab: usize,
    /// Scroll offset for the main table
    pub scroll_offset: usize,
    /// Animation frame counter
    pub frame_count: u64,
    /// Display throughput in bits/sec instead of bytes/sec
    pub use_bits: bool,
    /// One entry per table row: `None` for an adapter header, or the
    /// adapter's name and the port number for a port row.
    pub selectable_items: Vec<Option<(String, u16)>>,
}

/// A table row seen as text and a port number.
pub open spec fn item_view(item: Option<(String, u16)>) -> Option<(Seq<char>, u16)> {
    match item {
        None => None,
        Some((name, port)) => Some((name@, port)),
    }
}

impl AppState {
    /// The table rows of this state, names taken as character sequences.
    pub open spec fn items(self) -> Seq<Option<(Seq<char>, u16)>> {
        self.selectable_items@.map_values(|item: Option<(String, u16)>| item_view(item))
    }

    /// Every field but `selected_row` is the same in `self` and `other`.
    pub open spec fn same_but_row(self, other: AppState) -> bool {
        &&& self.detail_expanded == other.detail_expanded
        &&& self.detail_tab == other.detail_tab
        &&& self.scroll_offset == other.scroll_offset
        &&& self.frame_count == other.frame_count
        &&& self.use_bits == other.use_bits
        &&& self.selectable_items == other.selectable_items
    }

    /// `after` is `self` with the selection moved down: to the next port
    /// row, skipping adapter headers, or to the last row when no port
    /// follows; the selection stays where it is on the last row (or
    /// beyond the list).
    pub open spec fn moved_down(self, after: AppState) -> bool {
        let items = self.selectable_items@;
        let row = self.selected_row as int;
        let new = after.selected_row as int;
        &&& self.same_but_row(after)
        &&& if row + 1 < items.len() {
            &&& row < new < items.len()
            &&& (is_port_row(items, new) || new == items.len() - 1)
            &&& forall|j: int| row < j < new ==> !is_port_row(items, j)
        } else {
            new == row
        }
    }

    /// `after` is `self` with the selection moved up: to the previous port
    /// row, skipping adapter headers, or to the first row when no port
    /// precedes; the selection stays on the first row.
    pub open spec fn moved_up(self, after: AppState) -> bool {
        let items = self.selectable_items@;
        let row = self.selected_row as int;
        let new = after.selected_row as int;
        &&& self.same_but_row(after)
        &&& if row > 0 {
            &&& 0 <= new < row
            &&& (new == 0 || is_port_row(items, new))
            &&& forall|j: int| new < j < row ==> !is_port_row(items, j)
        } else {
            new == row
        }
    }

    /// Every field but `selected_row` and `selectable_items` is the same in
    /// `self` and `other`.
    pub open spec fn same_settings(self, other: AppState) -> bool {
        &&& self.detail_expanded == other.detail_expanded
        &&& self.detail_tab == other.detail_tab
        &&& self.scroll_offset == other.scroll_offset
        &&& self.frame_count == other.frame_count
        &&& self.use_bits == other.use_bits
    }

    /// `after` holds the rows of `adapters` and a selection settled from
    /// the one of `self`: a selection past the end is first brought to the
    /// last row, then moved down past adapter headers to the next port row
    /// (or to the last row when no port follows). With no rows the
    /// selection is the first row.
    pub open spec fn settled_on(self, adapters: Seq<AdapterInfo>, after: AppState) -> bool {
        let items = after.selectable_items@;
        let n = items.len();
        let row = self.selected_row as int;
        let new = after.selected_row as int;
        &&& self.same_settings(after)
        &&& after.items() == selection_rows(adapters)
        &&& if n == 0 {
            new == 0
        } else {
            let start = if row < n { row } else { n - 1 };
            &&& start <= new < n
            &&& (is_port_row(items, new) || new == n - 1)
            &&& forall|j: int| start <= j < new ==> !is_port_row(items, j)
        }
    }

    /// `after` is `self` one frame later, showing `adapters`: the frame
    /// counter advanced by one and the rows rebuilt and settled.
    pub open spec fn next_frame(self, adapters: Seq<AdapterInfo>, after: AppState) -> bool {
        let counted = AppState { frame_count: (self.frame_count + 1) as u64, ..self };
        counted.settled_on(adapters, after)
    }

    /// `after` is `self` with only `detail_expanded` flipped.
    pub open spec fn detail_toggled(self, after: AppState) -> bool {
        after == AppState { detail_expanded: !self.detail_expanded, ..self }
    }

    /// `after` is `self` with only `use_bits` flipped.
    pub open spec fn bits_toggled(self, after: AppState) -> bool {
        after == AppState { use_bits: !self.use_bits, ..self }
    }

    /// `after` is `self` with the detail tab advanced cyclically.
    pub open spec fn tab_advanced(self, after: AppState) -> bool {
        after == AppState { detail_tab: ((self.detail_tab + 1) % 3) as usize, ..self }
    }

    /// `after` is `self` with the detail tab moved back cyclically: from
    /// the first tab to the last, else one back.
    pub open spec fn tab_retreated(self, after: AppState) -> bool {
        after == AppState {
            detail_tab: if self.detail_tab == 0 { 2 } else { (self.detail_tab - 1) as usize },
            ..self
        }
    }

    /// A fresh state: first row selected, detail view closed on its first
    /// tab, counters at zero, bytes/sec display, no rows.
    pub fn new() -> (state: Self)
        ensures
            state.selected_row == 0,
            !state.detail_expanded,
            state.detail_tab == 0,
            state.scroll_offset == 0,
            state.frame_count == 0,
            !state.use_bits,
            state.selectable_items@.len() == 0,
    {
        AppState {
            selected_row: 0,
            detail_expanded: false,
            detail_tab: 0,
            scroll_offset: 0,
            frame_count: 0,
            use_bits: false,
            selectable_items: Vec::new(),
        }
    }

    /// Check if a row is a header (not selectable)
    fn is_header_row(&self, row: usize) -> (header: bool)
        ensures
            header == !is_port_row(self.selectable_items@, row as int),
    {
        if row < self.selectable_items.len() {
            match &self.selectable_items[row] {
                None => true,
                Some(_) => false,
            }
        } else {
            true
        }
    }

    /// Move selection up
    pub fn select_prev(&mut self)
        ensures
            old(self).moved_up(*final(self)),
    {
        if self.selected_row > 0 {
            self.selected_row -= 1;
            // Skip adapter header rows
            while self.selected_row > 0 && self.is_header_row(self.selected_row)
                invariant
                    old(self).same_but_row(*self),
                    self.selected_row < old(self).selected_row,
                    forall|j: int|
                        self.selected_row < j < old(self).selected_row ==> !is_port_row(
                            self.selectable_items@,
                            j,
                        ),
                decreases self.selected_row,
            {
                self.selected_row -= 1;
            }
        }
    }

    /// Move selection down
    pub fn select_next(&mut self)
        requires
            old(self).selected_row < usize::MAX,
        ensures
            old(self).moved_down(*final(self)),
    {
        if self.selected_row + 1 < self.selectable_items.len() {
            self.selected_row += 1;
            // Skip adapter header rows
            while self.selected_row + 1 < self.selectable_items.len() && self.is_header_row(
                self.selected_row,
            )
                invariant
                    old(self).same_but_row(*self),
                    old(self).selected_row < self.selected_row < self.selectable_items.len(),
                    forall|j: int|
                        old(self).selected_row < j < self.selected_row ==> !is_port_row(
                            self.selectable_items@,
                            j,
                        ),
                decreases self.selectable_items@.len() - self.selected_row,
            {
                self.selected_row += 1;
            }
        }
    }

    /// Get currently selected port: the adapter name and port number of
    /// the selected row, or `None` when it is a header or past the rows.
    pub fn selected_port(&self) -> (port: Option<(&str, u16)>)
        ensures
            port is Some <==> is_port_row(self.selectable_items@, self.selected_row as int),
            port matches Some((name, number)) ==> self.items()[self.selected_row as int] == Some(
                (name@, number),
            ),
    {
        if self.selected_row < self.selectable_items.len() {
            match &self.selectable_items[self.selected_row] {
                Some((name, number)) => Some((name.as_str(), *number)),
                None => None,
            }
        } else {
            None
        }
    }

    /// Rebuild the rows from `adapters` (a header per adapter, then a row
    /// per port) and bring the selection back onto the rows, off headers.
    pub fn update_selectable_items(&mut self, adapters: &[AdapterInfo])
        ensures
            old(self).settled_on(adapters@, *final(self)),
    {
        self.selectable_items.clear();
        let mut i: usize = 0;
        while i < adapters.len()
            invariant
                0 <= i <= adapters@.len(),
                old(self).same_settings(*self),
                self.selected_row == old(self).selected_row,
                self.items() == selection_rows(adapters@.take(i as int)),
            decreases adapters@.len() - i,
        {
            let adapter = &adapters[i];
            let ghost before = self.items();
            self.selectable_items.push(None);
            assert(self.items() =~= before.push(None));
            let mut j: usize = 0;
            while j < adapter.ports.len()
                invariant
                    0 <= j <= adapter.ports@.len(),
                    adapter == adapters@[i as int],
                    old(self).same_settings(*self),
                    self.selected_row == old(self).selected_row,
                    self.items() == before.push(None).add(
                        adapter.ports@.take(j as int).map_values(
                            |p: crate::adapters::PortInfo| Some((adapter.name@, p.port_number)),
                        ),
                    ),
                decreases adapter.ports@.len() - j,
            {
                let ghost rows = self.items();
                let item = Some((adapter.name.clone(), adapter.ports[j].port_number));
                self.selectable_items.push(item);
                assert(self.items() =~= rows.push(item_view(item)));
                assert(adapter.ports@.take(j + 1) =~= adapter.ports@.take(j as int).push(
                    adapter.ports@[j as int],
                ));
                j += 1;
            }
            assert(adapter.ports@.take(j as int) =~= adapter.ports@);
            assert(adapters@.take(i + 1).drop_last() =~= adapters@.take(i as int));
            assert(self.items() =~= selection_rows(adapters@.take(i + 1))) by {
                assert(adapter_rows(*adapter) =~= seq![None].add(
                    adapter.ports@.map_values(
                        |p: crate::adapters::PortInfo| Some((adapter.name@, p.port_number)),
                    ),
                ));
            }
            i += 1;
        }
        assert(adapters@.take(adapters@.len() as int) =~= adapters@);
        // Ensure selection is valid
        if self.selected_row >= self.selectable_items.len() {
            self.selected_row = self.selectable_items.len().saturating_sub(1);
        }
        let ghost start = self.selected_row as int;
        // Skip adapter headers
        while self.selected_row < self.selectable_items.len() && self.is_header_row(
            self.selected_row,
        )
            invariant
                old(self).same_settings(*self),
                self.items() == selection_rows(adapters@),
                start == if (old(self).selected_row as int) < self.selectable_items@.len() {
                    old(self).selected_row as int
                } else if self.selectable_items@.len() == 0 {
                    0
                } else {
                    self.selectable_items@.len() - 1
                },
                start <= self.selected_row,
                self.selectable_items@.len() == 0 ==> self.selected_row == 0,
                self.selectable_items@.len() > 0 ==> self.selected_row
                    < self.selectable_items@.len(),
                forall|j: int|
                    start <= j < self.selected_row ==> !is_port_row(self.selectable_items@, j),
            ensures
                old(self).settled_on(adapters@, *self),
            decreases self.selectable_items@.len() - self.selected_row,
        {
            if self.selected_row + 1 < self.selectable_items.len() {
                self.selected_row += 1;
            } else {
                break;
            }
        }
    }

    /// Start a new frame showing `adapters`: count the frame, then rebuild
    /// the rows and settle the selection on them.
    pub fn begin_frame(&mut self, adapters: &[AdapterInfo])
        requires
            old(self).frame_count < u64::MAX,
        ensures
            old(self).next_frame(adapters@, *final(self)),
    {
        self.frame_count += 1;
        self.update_selectable_items(adapters);
    }

    /// Toggle detail view
    pub fn toggle_detail(&mut self)
        ensures
            old(self).detail_toggled(*final(self)),
    {
        self.detail_expanded = !self.detail_expanded;
    }

    /// Toggle bits/sec vs bytes/sec throughput display
    pub fn toggle_bits(&mut self)
        ensures
            old(self).bits_toggled(*final(self)),
    {
        self.use_bits = !self.use_bits;
    }

    /// Cycle detail tab
    pub fn next_tab(&mut self)
        requires
            old(self).detail_tab < usize::MAX,
        ensures
            old(self).tab_advanced(*final(self)),
    {
        self.detail_tab = (self.detail_tab + 1) % DETAIL_TABS;
    }

    /// Cycle detail tab backward
    pub fn prev_tab(&mut self)
        ensures
            old(self).tab_retreated(*final(self)),
    {
        self.detail_tab = if self.detail_tab == 0 {
            2
        } else {
            self.detail_tab - 1
        };
    }
}

/// Moving down from a port row that is not the last row, and then up
/// again, comes back to that row with nothing else changed.
pub proof fn lemma_select_prev_undoes_select_next(a: AppState, b: AppState, c: AppState)
    requires
        is_port_row(a.selectable_items@, a.selected_row as int),
        a.selected_row + 1 < a.selectable_items@.len(),
        a.moved_down(b),
        b.moved_up(c),
    ensures
        c == a,
{
    let items = a.selectable_items@;
    assert(c.selected_row == a.selected_row) by {
        if c.selected_row < a.selected_row {
            assert(!is_port_row(items, a.selected_row as int));
        }
    }
}

/// Moving up from a port row (other than the first row) and then down
/// again comes back to that row, with nothing else changed.
pub proof fn lemma_select_next_undoes_select_prev(a: AppState, b: AppState, c: AppState)
    requires
        is_port_row(a.selectable_items@, a.selected_row as int),
        a.selected_row > 0,
        a.moved_up(b),
        b.moved_down(c),
    ensures
        c == a,
{
    let items = a.selectable_items@;
    assert(c.selected_row == a.selected_row) by {
        if c.selected_row < a.selected_row {
            assert(!is_port_row(items, c.selected_row as int));
            assert(c.selected_row == items.len() - 1);
        }
        if c.selected_row > a.selected_row {
            assert(!is_port_row(items, a.selected_row as int));
        }
    }
}

/// Navigation keeps a selection that lies within the rows within them;
/// moving down never moves the selection up and moving up never moves it
/// down.
pub proof fn lemma_navigation_stays_in_rows(a: AppState, b: AppState)
    requires
        a.moved_down(b) || a.moved_up(b),
    ensures
        a.selected_row < a.selectable_items@.len() ==> b.selected_row < b.selectable_items@.len(),
        a.moved_down(b) ==> a.selected_row <= b.selected_row,
        a.moved_up(b) ==> b.selected_row <= a.selected_row,
{
}

/// After the rows are rebuilt, the selection is a row of the list (when
/// the list has rows), and it is a port row whenever some port row lies at
/// or after where it started.
pub proof fn lemma_settled_selection_is_valid(
    before: AppState,
    adapters: Seq<AdapterInfo>,
    after: AppState,
    port: int,
)
    requires
        before.settled_on(adapters, after),
    ensures
        after.selectable_items@.len() > 0 ==> after.selected_row < after.selectable_items@.len(),
        is_port_row(after.selectable_items@, port) && (before.selected_row as int) <= port
            ==> is_port_row(after.selectable_items@, after.selected_row as int),
{
    let items = after.selectable_items@;
    if is_port_row(items, port) && (before.selected_row as int) <= port {
        if !is_port_row(items, after.selected_row as int) {
            assert(after.selected_row == items.len() - 1);
            assert(port < items.len());
            assert(!is_port_row(items, port));
        }
    }
}

/// Rebuilding the rows from the same adapters again leaves the rows and
/// the selection as they are: redrawing does not move the selection.
pub proof fn lemma_settling_is_stable(
    a: AppState,
    adapters: Seq<AdapterInfo>,
    b: AppState,
    c: AppState,
)
    requires
        a.settled_on(adapters, b),
        b.settled_on(adapters, c),
    ensures
        c.items() == b.items(),
        c.selected_row == b.selected_row,
        c.same_settings(b),
{
    let items = b.selectable_items@;
    assert(c.items().len() == c.selectable_items@.len());
    assert(b.items().len() == b.selectable_items@.len());
    assert forall|j: int| 0 <= j < items.len() implies #[trigger] is_port_row(items, j)
        == is_port_row(c.selectable_items@, j) by {
        assert(b.items()[j] == item_view(items[j]));
        assert(c.items()[j] == item_view(c.selectable_items@[j]));
    }
    if items.len() > 0 {
        let new = c.selected_row as int;
        let row = b.selected_row as int;
        if new > row {
            assert(!is_port_row(c.selectable_items@, row));
            assert(!is_port_row(items, row));
        }
    }
}

/// Toggling the detail view twice restores the state.
pub proof fn lemma_toggle_detail_twice(a: AppState, b: AppState, c: AppState)
    requires
        a.detail_toggled(b),
        b.detail_toggled(c),
    ensures
        c == a,
{
}

/// Toggling the throughput unit twice restores the state.
pub proof fn lemma_toggle_bits_twice(a: AppState, b: AppState, c: AppState)
    requires
        a.bits_toggled(b),
        b.bits_toggled(c),
    ensures
        c == a,
{
}

/// Moving between tabs keeps the tab among the three tabs of the detail
/// panel, once it is among them.
pub proof fn lemma_tabs_stay_in_range(a: AppState, b: AppState)
    requires
        a.tab_advanced(b) || (a.tab_retreated(b) && a.detail_tab < DETAIL_TABS),
    ensures
        b.detail_tab < DETAIL_TABS,
{
}

/// Advancing the tab three times comes back to the starting tab.
pub proof fn lemma_three_tab_steps_cycle(a: AppState, b: AppState, c: AppState, d: AppState)
    requires
        a.detail_tab < DETAIL_TABS,
        a.tab_advanced(b),
        b.tab_advanced(c),
        c.tab_advanced(d),
    ensures
        d == a,
{
}

/// Going back one tab undoes going forward one tab, and the other way
/// round.
pub proof fn lemma_prev_tab_undoes_next_tab(a: AppState, b: AppState, c: AppState)
    requires
        a.detail_tab < DETAIL_TABS,
        (a.tab_advanced(b) && b.tab_retreated(c)) || (a.tab_retreated(b) && b.tab_advanced(c)),
    ensures
        c == a,
{
}

} // verus!
