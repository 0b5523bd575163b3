use ibtop::adapters::{AdapterInfo, PortInfo, PortState};
use ibtop::app_state::AppState;
use ibtop::format::{
    format_bytes, hostname_or_unknown, leading_ascii_digits, render_inline_sparkline,
    truncate_rate, utilization_bar,
};
use ibtop::keys::{command_for_key, Command, KeyAction, KeyInput};
use ibtop::table::{find_port, port_state_label, table_rows, TableRow};
use ibtop::text::same_text;

fn port(number: u16, state: PortState, rate: &str) -> PortInfo {
    PortInfo { port_number: number, state, rate: rate.to_string() }
}

fn sample_adapters() -> Vec<AdapterInfo> {
    vec![
        AdapterInfo {
            name: "mlx5_0".to_string(),
            ports: vec![
                port(1, PortState::Active, "100 Gb/sec (4X EDR)"),
                port(2, PortState::Down, "200 Gb/sec"),
            ],
        },
        AdapterInfo {
            name: "mlx5_1".to_string(),
            ports: vec![port(1, PortState::Unknown, "  400 Gb/sec (4X NDR)")],
        },
    ]
}

fn nav_state() -> AppState {
    let mut state = AppState::new();
    state.selectable_items = vec![
        None,
        Some(("mlx5_0".to_string(), 1)),
        Some(("mlx5_0".to_string(), 2)),
        None,
        Some(("mlx5_1".to_string(), 1)),
    ];
    state
}

#[test]
fn format_bytes_fraction_and_limits() {
    assert_eq!(format_bytes(1536), "1.5KB");
    assert_eq!(format_bytes(1024 * 1024 - 1), "1023.9KB");
    assert_eq!(format_bytes(5 * 1024 * 1024 + 300 * 1024), "5.2MB");
    // Past PB no larger unit exists: the count of PB keeps growing.
    assert_eq!(format_bytes(1024u64.pow(5) * 2048), "2048.0PB");
    assert_eq!(format_bytes(u64::MAX), "16383.9PB");
}

#[test]
fn sparkline_clamps_high_samples() {
    assert_eq!(render_inline_sparkline(&[9, 0, 100, 3]), "█▁█▄");
}

#[test]
fn truncate_rate_edge_cases() {
    assert_eq!(truncate_rate(""), "");
    assert_eq!(truncate_rate("(4X EDR)"), "");
    assert_eq!(truncate_rate("  56 Gb/sec\t(4X FDR) (x)"), "56 Gb/sec");
    assert_eq!(truncate_rate(" \u{3000}10 Gb/sec \u{a0}"), "10 Gb/sec");
}

#[test]
fn leading_digits_of_rates() {
    assert_eq!(leading_ascii_digits("400 Gb/sec (4X NDR)"), "400");
    assert_eq!(leading_ascii_digits("800Gb/sec"), "800");
    assert_eq!(leading_ascii_digits("invalid"), "");
    assert_eq!(leading_ascii_digits(""), "");
    assert_eq!(leading_ascii_digits("12"), "12");
}

#[test]
fn utilization_bar_cells() {
    let bar = utilization_bar(5, 10);
    assert_eq!(bar, "█████░░░░░");
    assert_eq!(bar.chars().count(), 10);
    assert_eq!(utilization_bar(12, 4), "████");
    assert_eq!(utilization_bar(0, 3), "░░░");
    assert_eq!(utilization_bar(3, 0), "");
}

#[test]
fn hostname_falls_back_to_unknown() {
    assert_eq!(hostname_or_unknown(None), "unknown");
    assert_eq!(hostname_or_unknown(Some("node17".to_string())), "node17");
}

#[test]
fn same_text_compares_characters() {
    assert!(same_text("mlx5_0", "mlx5_0"));
    assert!(!same_text("mlx5_0", "mlx5_1"));
    assert!(!same_text("mlx5", "mlx5_0"));
    assert!(same_text("", ""));
}

#[test]
fn select_next_at_end_and_beyond() {
    let mut state = nav_state();
    state.selected_row = 4;
    state.select_next();
    assert_eq!(state.selected_row, 4);
    state.selected_row = 9;
    state.select_next();
    assert_eq!(state.selected_row, 9);
}

#[test]
fn select_next_stops_on_trailing_header() {
    let mut state = AppState::new();
    state.selectable_items = vec![None, Some(("a".to_string(), 1)), None, None];
    state.selected_row = 1;
    state.select_next();
    assert_eq!(state.selected_row, 3);
}

#[test]
fn select_prev_reaches_first_row() {
    let mut state = nav_state();
    state.selected_row = 1;
    state.select_prev();
    assert_eq!(state.selected_row, 0);
    state.select_prev();
    assert_eq!(state.selected_row, 0);
    // From beyond the rows, moving up finds the last port.
    state.selected_row = 7;
    state.select_prev();
    assert_eq!(state.selected_row, 4);
}

#[test]
fn prev_undoes_next_on_port_rows() {
    for start in [1usize, 2] {
        let mut state = nav_state();
        state.selected_row = start;
        state.select_next();
        state.select_prev();
        assert_eq!(state.selected_row, start);
    }
    for start in [1usize, 2, 4] {
        let mut state = nav_state();
        state.selected_row = start;
        state.select_prev();
        state.select_next();
        assert_eq!(state.selected_row, start);
    }
}

#[test]
fn tabs_cycle_both_ways() {
    let mut state = AppState::new();
    for tab in 0..3 {
        state.detail_tab = tab;
        state.next_tab();
        state.next_tab();
        state.next_tab();
        assert_eq!(state.detail_tab, tab);
        state.next_tab();
        state.prev_tab();
        assert_eq!(state.detail_tab, tab);
        state.prev_tab();
        state.next_tab();
        assert_eq!(state.detail_tab, tab);
    }
    state.detail_tab = 7;
    state.prev_tab();
    assert_eq!(state.detail_tab, 6);
    state.next_tab();
    assert_eq!(state.detail_tab, 1);
}

#[test]
fn selected_port_names_the_row() {
    let mut state = nav_state();
    state.selected_row = 2;
    assert_eq!(state.selected_port(), Some(("mlx5_0", 2)));
    state.selected_row = 3;
    assert_eq!(state.selected_port(), None);
    state.selected_row = 5;
    assert_eq!(state.selected_port(), None);
}

#[test]
fn update_builds_rows_and_settles_selection() {
    let adapters = sample_adapters();
    let mut state = AppState::new();
    state.update_selectable_items(&adapters);
    assert_eq!(
        state.selectable_items,
        vec![
            None,
            Some(("mlx5_0".to_string(), 1)),
            Some(("mlx5_0".to_string(), 2)),
            None,
            Some(("mlx5_1".to_string(), 1)),
        ]
    );
    // Row 0 is a header: the selection moves to the first port.
    assert_eq!(state.selected_row, 1);

    state.selected_row = 3;
    state.update_selectable_items(&adapters);
    assert_eq!(state.selected_row, 4);

    state.selected_row = 40;
    state.update_selectable_items(&adapters);
    assert_eq!(state.selected_row, 4);

    state.update_selectable_items(&[]);
    assert!(state.selectable_items.is_empty());
    assert_eq!(state.selected_row, 0);
}

#[test]
fn update_with_adapter_without_ports() {
    let adapters = vec![AdapterInfo { name: "mlx4_0".to_string(), ports: vec![] }];
    let mut state = AppState::new();
    state.update_selectable_items(&adapters);
    assert_eq!(state.selectable_items, vec![None]);
    assert_eq!(state.selected_row, 0);
}

#[test]
fn begin_frame_counts_frames() {
    let adapters = sample_adapters();
    let mut state = AppState::new();
    state.begin_frame(&adapters);
    state.begin_frame(&adapters);
    assert_eq!(state.frame_count, 2);
    assert_eq!(state.selectable_items.len(), 5);
    assert_eq!(state.selected_row, 1);
}

#[test]
fn keys_map_to_commands() {
    assert_eq!(command_for_key(KeyInput::Char('q'), false, false), Command::Quit);
    assert_eq!(command_for_key(KeyInput::Esc, false, true), Command::Quit);
    assert_eq!(command_for_key(KeyInput::Char('c'), true, false), Command::Quit);
    assert_eq!(command_for_key(KeyInput::Char('c'), false, false), Command::Ignore);
    assert_eq!(command_for_key(KeyInput::Char('j'), false, false), Command::SelectNext);
    assert_eq!(command_for_key(KeyInput::Down, false, false), Command::SelectNext);
    assert_eq!(command_for_key(KeyInput::Char('k'), false, false), Command::SelectPrev);
    assert_eq!(command_for_key(KeyInput::Up, false, false), Command::SelectPrev);
    assert_eq!(command_for_key(KeyInput::Enter, false, false), Command::ToggleDetail);
    assert_eq!(command_for_key(KeyInput::Tab, false, false), Command::Ignore);
    assert_eq!(command_for_key(KeyInput::Tab, false, true), Command::NextTab);
    assert_eq!(command_for_key(KeyInput::BackTab, false, true), Command::PrevTab);
    assert_eq!(command_for_key(KeyInput::Char('b'), false, false), Command::ToggleBits);
    assert_eq!(command_for_key(KeyInput::Char('r'), false, false), Command::Refresh);
    assert_eq!(command_for_key(KeyInput::Other, false, false), Command::Ignore);
}

#[test]
fn handle_key_drives_the_state() {
    let mut state = nav_state();
    state.selected_row = 1;
    assert_eq!(state.handle_key(KeyInput::Char('j'), false), KeyAction::Continue);
    assert_eq!(state.selected_row, 2);
    assert_eq!(state.handle_key(KeyInput::Down, false), KeyAction::Continue);
    assert_eq!(state.selected_row, 4);
    assert_eq!(state.handle_key(KeyInput::Up, false), KeyAction::Continue);
    assert_eq!(state.selected_row, 2);
    // Tab does nothing while the detail panel is closed.
    assert_eq!(state.handle_key(KeyInput::Tab, false), KeyAction::Continue);
    assert_eq!(state.detail_tab, 0);
    assert_eq!(state.handle_key(KeyInput::Enter, false), KeyAction::Continue);
    assert!(state.detail_expanded);
    state.handle_key(KeyInput::Tab, false);
    assert_eq!(state.detail_tab, 1);
    state.handle_key(KeyInput::BackTab, false);
    state.handle_key(KeyInput::BackTab, false);
    assert_eq!(state.detail_tab, 2);
    state.handle_key(KeyInput::Char('b'), false);
    assert!(state.use_bits);
    assert_eq!(state.handle_key(KeyInput::Char('r'), false), KeyAction::Refresh);
    assert_eq!(state.handle_key(KeyInput::Char('q'), false), KeyAction::Quit);
    assert_eq!(state.handle_key(KeyInput::Char('c'), true), KeyAction::Quit);
    assert_eq!(state.selected_row, 2);
}

#[test]
fn state_labels_pulse() {
    assert_eq!(port_state_label(PortState::Active, 0), "●ACTIVE");
    assert_eq!(port_state_label(PortState::Active, 29), "●ACTIVE");
    assert_eq!(port_state_label(PortState::Active, 30), "○ACTIVE");
    assert_eq!(port_state_label(PortState::Active, 60), "●ACTIVE");
    assert_eq!(port_state_label(PortState::Down, 5), "○DOWN");
    assert_eq!(port_state_label(PortState::Unknown, 5), "?UNKN");
}

fn describe(row: &TableRow) -> String {
    match row {
        TableRow::NoAdapters => "none".to_string(),
        TableRow::Adapter { name, selected } => format!("A {} {}", name, selected),
        TableRow::Port { port_number, state_label, link, selected, .. } => {
            format!("P {} {} {} {}", port_number, state_label, link, selected)
        }
    }
}

#[test]
fn table_rows_follow_the_selection() {
    let adapters = sample_adapters();
    let rows: Vec<String> = table_rows(&adapters, 2, 31).iter().map(describe).collect();
    assert_eq!(
        rows,
        vec![
            "A mlx5_0 false",
            "P 1 ○ACTIVE 100 Gb/sec false",
            "P 2 ○DOWN 200 Gb/sec true",
            "A mlx5_1 false",
            "P 1 ?UNKN 400 Gb/sec false",
        ]
    );
    let rows: Vec<String> = table_rows(&adapters, 3, 0).iter().map(describe).collect();
    assert_eq!(rows[3], "A mlx5_1 true");
    let empty: Vec<String> = table_rows(&[], 0, 0).iter().map(describe).collect();
    assert_eq!(empty, vec!["none"]);
}

#[test]
fn highlighted_row_is_the_selected_port() {
    let adapters = sample_adapters();
    let mut state = AppState::new();
    state.selected_row = 3;
    state.begin_frame(&adapters);
    let rows = table_rows(&adapters, state.selected_row, state.frame_count);
    let (_, number) = state.selected_port().unwrap();
    match &rows[state.selected_row] {
        TableRow::Port { port_number, selected, .. } => {
            assert!(*selected);
            assert_eq!(*port_number, number);
        }
        other => panic!("unexpected row {:?}", other),
    }
}

#[test]
fn find_port_takes_first_adapter_with_the_name() {
    let mut adapters = sample_adapters();
    assert_eq!(find_port(&adapters, "mlx5_0", 2).map(|p| p.rate.clone()), Some("200 Gb/sec".to_string()));
    assert!(find_port(&adapters, "mlx5_0", 3).is_none());
    assert!(find_port(&adapters, "mlx5_9", 1).is_none());
    // A second adapter with the same name is not searched.
    adapters.push(AdapterInfo {
        name: "mlx5_0".to_string(),
        ports: vec![port(3, PortState::Active, "1 Gb/sec")],
    });
    assert!(find_port(&adapters, "mlx5_0", 3).is_none());
}

#[test]
fn redraw_keeps_the_selection() {
    let adapters = sample_adapters();
    let mut state = AppState::new();
    state.selected_row = 3;
    state.update_selectable_items(&adapters);
    let rows = state.selectable_items.clone();
    let selected = state.selected_row;
    state.update_selectable_items(&adapters);
    assert_eq!(state.selectable_items, rows);
    assert_eq!(state.selected_row, selected);
}

#[test]
fn detail_panel_finds_the_selected_port() {
    let adapters = sample_adapters();
    let mut state = AppState::new();
    state.begin_frame(&adapters);
    state.select_next();
    let (name, number) = state.selected_port().unwrap();
    let found = find_port(&adapters, name, number).unwrap();
    assert_eq!(found.port_number, number);
    assert_eq!(found.state, PortState::Down);
}
