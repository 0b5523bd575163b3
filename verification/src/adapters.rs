//! The adapters and ports that the monitor shows, and the rows of the
//! adapter table that they give.

use vstd::prelude::*;

verus! {

/// Link state of a port.
#[derive(Debug, Clone, Copy, PartialEq, Eq, Structural)]
pub enum PortState {
    Active,
    Down,
    Unknown,
}

/// One port of an adapter, as far as the table reads it.
#[derive(Debug, Clone)]
pub struct PortInfo {
    /// Port number within its adapter
    pub port_number: u16,
    /// Link state
    pub state: PortState,
    /// Link rate as reported, e.g. "100 Gb/sec (4X EDR)"
    pub rate: String,
}

/// One adapter with its ports.
#[derive(Debug, Clone)]
pub struct AdapterInfo {
    /// Adapter name, e.g. "mlx5_0"
    pub name: String,
    /// Its ports, in display order
    pub ports: Vec<PortInfo>,
}

/// The table rows of one adapter: a header row (`None`), then one row per
/// port holding the adapter's name and the port's number.
pub open spec fn adapter_rows(adapter: AdapterInfo) -> Seq<Option<(Seq<char>, u16)>> {
    seq![None].add(
        adapter.ports@.map_values(|p: PortInfo| Some((adapter.name@, p.port_number))),
    )
}

/// The table rows of a list of adapters: each adapter's rows, in order.
pub open spec fn selection_rows(adapters: Seq<AdapterInfo>) -> Seq<Option<(Seq<char>, u16)>>
    decreases adapters.len(),
{
    if adapters.len() == 0 {
        seq![]
    } else {
        selection_rows(adapters.drop_last()).add(adapter_rows(adapters.last()))
    }
}

} // verus!
