use nebulous::state::{Action, ActiveView, App, Event, KeyInput, UIEvent};
use nebulous::table::{NebTable, TableRow, KV};
use nebulous::value::ItemValue;

fn app_with_tables(names: &[&str]) -> App {
    let mut app = App::new();
    let names: Vec<String> = names.iter().map(|s| s.to_string()).collect();
    app.load_tables(&names);
    app
}

fn row(keys: &[&str]) -> TableRow {
    TableRow {
        data: keys
            .iter()
            .map(|k| KV { key: k.to_string(), value: ItemValue::Null })
            .collect(),
    }
}

fn table_with_rows(n: usize) -> NebTable {
    let rows = (0..n).map(|_| row(&["id"])).collect();
    NebTable::new(vec!["id".to_string()], rows)
}

#[test]
fn new_app_starts_on_table_list() {
    let app = App::new();
    assert_eq!(app.active, ActiveView::TableList);
    assert_eq!(app.list_cursor, Some(0));
    assert_eq!(app.row_cursor, None);
    assert!(app.table_list.is_empty());
    assert!(app.selected_table.rows.is_empty());
    assert!(app.selected_table.headers.is_empty());
}

#[test]
fn down_wraps_around_whole_list() {
    // Wrap invariant: on a list of length N, N "down" presses return the
    // cursor to its starting value.
    let mut app = app_with_tables(&["a", "b", "c", "d"]);
    app.list_cursor = Some(2);
    for _ in 0..4 {
        app.move_down();
    }
    assert_eq!(app.list_cursor, Some(2));
}

#[test]
fn down_from_last_wraps_to_zero_then_advances() {
    // List ["a","b","c"], cursor on the last entry: one "down" moves to 0,
    // one more moves to 1.
    let mut app = app_with_tables(&["a", "b", "c"]);
    app.list_cursor = Some(2);
    app.move_down();
    assert_eq!(app.list_cursor, Some(0));
    app.move_down();
    assert_eq!(app.list_cursor, Some(1));
}

#[test]
fn row_cursor_down_wraps_to_one() {
    // The data pane's down-wrap goes to index 1, not 0.
    let mut app = App::new();
    app.select_table(table_with_rows(3));
    app.toggle_active_pane();
    assert_eq!(app.active, ActiveView::TableData);
    assert_eq!(app.row_cursor, Some(0));
    app.move_down();
    assert_eq!(app.row_cursor, Some(1));
    app.move_down();
    assert_eq!(app.row_cursor, Some(2));
    app.move_down();
    assert_eq!(app.row_cursor, Some(1));
}

#[test]
fn up_wraps_to_last_index() {
    let mut app = app_with_tables(&["a", "b", "c"]);
    app.move_up();
    assert_eq!(app.list_cursor, Some(2));
    app.move_up();
    assert_eq!(app.list_cursor, Some(1));
}

#[test]
fn empty_list_navigation_changes_nothing() {
    let mut app = App::new();
    app.move_down();
    assert_eq!(app.list_cursor, Some(0));
    app.move_up();
    assert_eq!(app.list_cursor, Some(0));
}

#[test]
fn out_of_range_cursor_recovers_on_next_navigation() {
    // A fresh, shorter name list leaves the cursor out of range; the next
    // navigation wraps it back in.
    let mut app = app_with_tables(&["a", "b", "c", "d", "e"]);
    app.list_cursor = Some(4);
    app.load_tables(&["a".to_string(), "b".to_string()]);
    assert_eq!(app.list_cursor, Some(4));
    app.move_down();
    assert_eq!(app.list_cursor, Some(0));
}

#[test]
fn toggle_twice_returns_to_original_pane() {
    let mut app = App::new();
    app.toggle_active_pane();
    assert_eq!(app.active, ActiveView::TableData);
    app.toggle_active_pane();
    assert_eq!(app.active, ActiveView::TableList);
}

#[test]
fn first_toggle_initializes_row_cursor_once() {
    let mut app = App::new();
    app.toggle_active_pane();
    assert_eq!(app.row_cursor, Some(0));
    app.select_table(table_with_rows(3));
    app.toggle_active_pane();
    app.row_cursor = Some(2);
    app.toggle_active_pane();
    // The cursor set earlier is kept, not reset to 0.
    assert_eq!(app.row_cursor, Some(2));
}

#[test]
fn select_dispatches_exactly_one_load_and_keeps_pane() {
    // Selecting "users" while the list pane is active dispatches exactly
    // one load request and does not change the active pane.
    let mut app = app_with_tables(&["users", "orders"]);
    app.list_cursor = Some(0);
    let action = app.handle_key(KeyInput::Select);
    match action {
        Action::Dispatch(UIEvent::LoadTable(name)) => assert_eq!(name, "users"),
        _ => panic!("expected exactly one dispatched load request"),
    }
    assert_eq!(app.active, ActiveView::TableList);
    assert_eq!(app.list_cursor, Some(0));
}

#[test]
fn select_out_of_range_dispatches_nothing() {
    let mut app = app_with_tables(&["users"]);
    app.list_cursor = Some(5);
    let action = app.handle_key(KeyInput::Select);
    assert!(matches!(action, Action::Redraw));
}

#[test]
fn select_in_data_pane_dispatches_nothing() {
    let mut app = app_with_tables(&["users"]);
    app.toggle_active_pane();
    let action = app.handle_key(KeyInput::Select);
    assert!(matches!(action, Action::Redraw));
}

#[test]
fn quit_key_requests_quit() {
    let mut app = App::new();
    assert!(matches!(app.handle_key(KeyInput::Quit), Action::Quit));
}

#[test]
fn load_request_becomes_background_load() {
    let mut app = App::new();
    let action = app.handle_ui_event(UIEvent::LoadTable("orders".to_string()));
    match action {
        Action::StartLoad(name) => assert_eq!(name, "orders"),
        _ => panic!("expected a background load to start"),
    }
}

#[test]
fn last_applied_table_wins() {
    // Loads issued for "orders" then "customers"; "customers" completes
    // first, "orders" completes last: the last applied result is shown.
    let mut app = App::new();
    let customers = NebTable::new(vec!["customer_id".to_string()], vec![row(&["customer_id"])]);
    let orders = NebTable::new(vec!["order_id".to_string()], vec![row(&["order_id"])]);
    app.handle_ui_event(UIEvent::DisplayTable(customers));
    app.handle_ui_event(UIEvent::DisplayTable(orders));
    assert_eq!(app.selected_table.headers, vec!["order_id".to_string()]);
}

#[test]
fn tick_rerenders_same_state_without_mutation() {
    let mut app = app_with_tables(&["a", "b"]);
    app.list_cursor = Some(1);
    app.toggle_active_pane();
    let before_active = app.active;
    let before_list = app.table_list.clone();
    let before_list_cursor = app.list_cursor;
    let before_row_cursor = app.row_cursor;
    let action = app.handle_event(Event::Tick);
    assert!(matches!(action, Action::Redraw));
    assert_eq!(app.active, before_active);
    assert_eq!(app.table_list, before_list);
    assert_eq!(app.list_cursor, before_list_cursor);
    assert_eq!(app.row_cursor, before_row_cursor);
}

#[test]
fn refresh_replaces_list_and_keeps_cursor() {
    let mut app = app_with_tables(&["a"]);
    app.list_cursor = Some(0);
    let action = app.handle_ui_event(UIEvent::RefreshDynamoTableList(vec![
        "x".to_string(),
        "y".to_string(),
    ]));
    assert!(matches!(action, Action::Redraw));
    assert_eq!(app.table_list, vec!["x".to_string(), "y".to_string()]);
    assert_eq!(app.list_cursor, Some(0));
}

#[test]
fn key_events_route_through_handle_event() {
    let mut app = app_with_tables(&["a", "b"]);
    let action = app.handle_event(Event::Input(KeyInput::Down));
    assert!(matches!(action, Action::Redraw));
    assert_eq!(app.list_cursor, Some(1));
    let action = app.handle_event(Event::Input(KeyInput::Quit));
    assert!(matches!(action, Action::Quit));
}
