//! Verified core of an InfiniBand traffic monitor: the state of the
//! interactive table, the layout of its rows, and the text it shows.

pub mod adapters;
pub mod app_state;
pub mod text;
pub mod format;

pub mod keys;
pub mod table;
