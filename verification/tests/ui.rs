use ibtop::app_state::AppState;
use ibtop::format::{format_bytes, render_inline_sparkline, truncate_rate};

#[test]
fn test_format_bytes() {
    assert_eq!(format_bytes(0), "0B");
    assert_eq!(format_bytes(1023), "1023B");
    assert_eq!(format_bytes(1024), "1.0KB");
    assert_eq!(format_bytes(1025), "1.0KB");
    assert_eq!(format_bytes(1024 * 1024), "1.0MB");
    assert_eq!(format_bytes(1024 * 1024 * 1024), "1.0GB");
    assert_eq!(format_bytes(1024 * 1024 * 1024 * 1024), "1.0TB");
    assert_eq!(format_bytes(1024 * 1024 * 1024 * 1024 * 1024), "1.0PB");
}

#[test]
fn test_toggle_bits() {
    let mut state = AppState::new();
    assert!(!state.use_bits);
    state.toggle_bits();
    assert!(state.use_bits);
    state.toggle_bits();
    assert!(!state.use_bits);
}

#[test]
fn test_render_inline_sparkline() {
    let data = vec![0, 1, 2, 3, 4, 5, 6, 7];
    let result = render_inline_sparkline(&data);
    assert_eq!(result, "▁▂▃▄▅▆▇█");
}

#[test]
fn test_render_inline_sparkline_empty() {
    let data: Vec<u64> = vec![];
    let result = render_inline_sparkline(&data);
    assert!(result.is_empty());
}

#[test]
fn test_truncate_rate() {
    assert_eq!(truncate_rate("100 Gb/sec (4X EDR)"), "100 Gb/sec");
    assert_eq!(truncate_rate("200 Gb/sec"), "200 Gb/sec");
}

#[test]
fn test_app_state_navigation() {
    let mut state = AppState::new();
    state.selectable_items = vec![
        None,
        Some(("mlx5_0".to_string(), 1)),
        Some(("mlx5_0".to_string(), 2)),
        None,
        Some(("mlx5_1".to_string(), 1)),
    ];
    state.selected_row = 1;

    state.select_next();
    assert_eq!(state.selected_row, 2);

    state.select_next();
    // Should skip the None at index 3
    assert_eq!(state.selected_row, 4);

    state.select_prev();
    assert_eq!(state.selected_row, 2);
}

#[test]
fn test_app_state_toggle_detail() {
    let mut state = AppState::new();
    assert!(!state.detail_expanded);

    state.toggle_detail();
    assert!(state.detail_expanded);

    state.toggle_detail();
    assert!(!state.detail_expanded);
}

#[test]
fn test_app_state_tab_cycling() {
    let mut state = AppState::new();
    assert_eq!(state.detail_tab, 0);

    state.next_tab();
    assert_eq!(state.detail_tab, 1);

    state.next_tab();
    assert_eq!(state.detail_tab, 2);

    state.next_tab();
    assert_eq!(state.detail_tab, 0);

    state.prev_tab();
    assert_eq!(state.detail_tab, 2);
}
