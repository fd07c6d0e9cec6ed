use rsquid::grid::ResultGrid;
use rsquid::page::{Focus, PageCommand, PageEvent, QueryPage};
use rsquid::schema::{flat_count_checked, resolve_selection, TableInfo};

fn strings(items: &[&str]) -> Vec<String> {
    items.iter().map(|s| s.to_string()).collect()
}

fn grid(headers: &[&str], rows: &[&[&str]]) -> ResultGrid {
    ResultGrid {
        headers: strings(headers),
        rows: rows.iter().map(|r| strings(r)).collect(),
    }
}

fn type_text(p: &mut QueryPage, text: &str) {
    for c in text.chars() {
        assert_eq!(p.handle_event(PageEvent::Char(c)), PageCommand::Nothing);
    }
}

#[test]
fn typing_edits_at_the_cursor() {
    let mut p = QueryPage::new();
    type_text(&mut p, "SELECT 2");
    assert_eq!(p.query_text(), "SELECT 2");
    assert_eq!(p.cursor_position, 8);
    p.handle_event(PageEvent::Left);
    p.handle_event(PageEvent::Delete);
    assert_eq!(p.query_text(), "SELECT ");
    type_text(&mut p, "1");
    assert_eq!(p.query_text(), "SELECT 1");
    p.handle_event(PageEvent::Backspace);
    assert_eq!(p.query_text(), "SELECT ");
    type_text(&mut p, "1");
    p.handle_event(PageEvent::PageUp);
    assert_eq!(p.cursor_position, 0);
    p.handle_event(PageEvent::PageDown);
    assert_eq!(p.cursor_position, 8);
}

#[test]
fn editing_counts_characters_not_bytes() {
    let mut p = QueryPage::new();
    type_text(&mut p, "héllo");
    assert_eq!(p.cursor_position, 5);
    p.handle_event(PageEvent::Left);
    p.handle_event(PageEvent::Left);
    p.handle_event(PageEvent::Left);
    p.handle_event(PageEvent::Left);
    p.handle_event(PageEvent::Delete);
    assert_eq!(p.query_text(), "hllo");
}

#[test]
fn cursor_marker_sits_at_the_cursor() {
    let mut p = QueryPage::new();
    type_text(&mut p, "ab");
    p.handle_event(PageEvent::Left);
    assert_eq!(p.query_with_cursor(), "a|b");
}

#[test]
fn executing_a_blank_query_reports_empty() {
    let mut p = QueryPage::new();
    type_text(&mut p, "   ");
    let cmd = p.handle_event(PageEvent::Execute);
    assert_eq!(cmd, PageCommand::Nothing);
    assert_eq!(p.error, Some("Query is empty".to_string()));
}

#[test]
fn executing_a_query_requests_a_run() {
    let mut p = QueryPage::new();
    type_text(&mut p, "SELECT 1");
    let cmd = p.handle_event(PageEvent::Execute);
    assert_eq!(cmd, PageCommand::RunQuery);
    assert_eq!(p.error, None);
    assert!(p.results.is_empty());
}

#[test]
fn finish_execute_stores_grid_or_error() {
    let mut p = QueryPage::new();
    p.finish_execute(Ok(grid(&["a"], &[&["1"], &["2"]])));
    assert_eq!(p.headers, strings(&["a"]));
    assert_eq!(p.results.len(), 2);
    assert_eq!(p.selected_row, 0);
    assert_eq!(p.error, None);
    p.finish_execute(Err("boom".to_string()));
    assert_eq!(p.error, Some("Query error: boom".to_string()));
    assert!(p.results.is_empty());
}

#[test]
fn focus_cycles_between_query_and_results() {
    let mut p = QueryPage::new();
    // without results the cycle key keeps the editor focused
    p.handle_event(PageEvent::CycleFocus);
    assert_eq!(p.focus, Focus::Query);
    p.finish_execute(Ok(grid(&["a"], &[&["1"]])));
    p.handle_event(PageEvent::CycleFocus);
    assert_eq!(p.focus, Focus::Results);
    p.handle_event(PageEvent::CycleFocus);
    assert_eq!(p.focus, Focus::Query);
    p.handle_event(PageEvent::FocusExplorer);
    assert_eq!(p.focus, Focus::Explorer);
    p.handle_event(PageEvent::CycleFocus);
    assert_eq!(p.focus, Focus::Query);
    assert_eq!(p.handle_event(PageEvent::Escape), PageCommand::Back);
}

#[test]
fn result_cursor_is_clamped_to_visible_rows() {
    let mut p = QueryPage::new();
    p.finish_execute(Ok(grid(&["a"], &[&["1"], &["2"], &["3"], &["4"], &["5"]])));
    p.handle_event(PageEvent::CycleFocus);
    assert_eq!(p.focus, Focus::Results);
    p.set_max_results(2);
    for _ in 0..10 {
        p.handle_event(PageEvent::Down);
        assert!(p.selected_row <= 1);
    }
    assert_eq!(p.selected_row, 1);
    for _ in 0..10 {
        p.handle_event(PageEvent::Up);
    }
    assert_eq!(p.selected_row, 0);
    p.handle_event(PageEvent::Bottom);
    assert_eq!(p.selected_row, 1);
    p.handle_event(PageEvent::Top);
    assert_eq!(p.selected_row, 0);
    // lifting the cap makes all rows reachable again
    p.set_max_results(0);
    p.handle_event(PageEvent::Bottom);
    assert_eq!(p.selected_row, 4);
    p.handle_event(PageEvent::PageUp);
    assert_eq!(p.selected_row, 0);
    p.handle_event(PageEvent::PageDown);
    assert_eq!(p.selected_row, 4);
}

#[test]
fn horizontal_offset_is_clamped_to_headers() {
    let mut p = QueryPage::new();
    p.finish_execute(Ok(grid(&["a", "b", "c"], &[&["1", "2", "3"]])));
    p.handle_event(PageEvent::CycleFocus);
    for _ in 0..5 {
        p.handle_event(PageEvent::Right);
    }
    assert_eq!(p.horizontal_scroll, 2);
    p.handle_event(PageEvent::Left);
    assert_eq!(p.horizontal_scroll, 1);
    for _ in 0..5 {
        p.handle_event(PageEvent::Left);
    }
    assert_eq!(p.horizontal_scroll, 0);
}

#[test]
fn visible_headers_show_at_most_ten_columns() {
    let mut p = QueryPage::new();
    let names: Vec<String> = (0..12).map(|i| format!("c{}", i)).collect();
    let row: Vec<String> = (0..12).map(|i| format!("{}", i)).collect();
    p.finish_execute(Ok(ResultGrid { headers: names, rows: vec![row] }));
    let window = p.visible_headers();
    assert_eq!(window.len(), 10);
    assert_eq!(window[0], "c0");
    p.handle_event(PageEvent::CycleFocus);
    p.handle_event(PageEvent::Right);
    p.handle_event(PageEvent::Right);
    p.handle_event(PageEvent::Right);
    let window = p.visible_headers();
    assert_eq!(window.len(), 9);
    assert_eq!(window[0], "c3");
    assert_eq!(window[8], "c11");
}

#[test]
fn visible_cells_follow_the_header_window() {
    let mut p = QueryPage::new();
    let names: Vec<String> = (0..12).map(|i| format!("c{}", i)).collect();
    let row: Vec<String> = (0..12).map(|i| format!("{}", i)).collect();
    p.finish_execute(Ok(ResultGrid { headers: names, rows: vec![row] }));
    assert_eq!(p.visible_row_cells(0).len(), 10);
    assert_eq!(p.visible_row_cells(0)[0], "0");
    p.handle_event(PageEvent::CycleFocus);
    p.handle_event(PageEvent::Right);
    p.handle_event(PageEvent::Right);
    p.handle_event(PageEvent::Right);
    let cells = p.visible_row_cells(0);
    assert_eq!(cells.len(), 9);
    assert_eq!(cells[0], "3");
    assert_eq!(cells[8], "11");
}

fn two_tables() -> Vec<TableInfo> {
    vec![
        TableInfo { name: "users".to_string(), fields: None, expanded: false },
        TableInfo { name: "orders".to_string(), fields: None, expanded: false },
    ]
}

#[test]
fn explorer_expansion_is_lazy_and_cached() {
    let mut p = QueryPage::new();
    p.set_tables(two_tables());
    p.handle_event(PageEvent::FocusExplorer);
    // activating an unloaded node asks for its columns
    let cmd = p.handle_event(PageEvent::Enter);
    assert_eq!(cmd, PageCommand::LoadColumns(0));
    assert!(!p.tables[0].expanded);
    p.finish_columns(0, Some(strings(&["id", "name"])));
    assert!(p.tables[0].expanded);
    assert_eq!(p.tables[0].fields, Some(strings(&["id", "name"])));
    assert_eq!(flat_count_checked(&p.tables), Some(4));
    // collapsing keeps the cache; the next activation needs no query
    let cmd = p.handle_event(PageEvent::Enter);
    assert_eq!(cmd, PageCommand::Nothing);
    assert!(!p.tables[0].expanded);
    assert_eq!(p.tables[0].fields, Some(strings(&["id", "name"])));
    let cmd = p.handle_event(PageEvent::Enter);
    assert_eq!(cmd, PageCommand::Nothing);
    assert!(p.tables[0].expanded);
    assert_eq!(p.tables[0].fields, Some(strings(&["id", "name"])));
}

#[test]
fn failed_introspection_degrades_silently() {
    let mut p = QueryPage::new();
    p.set_tables(two_tables());
    p.handle_event(PageEvent::FocusExplorer);
    assert_eq!(p.handle_event(PageEvent::Enter), PageCommand::LoadColumns(0));
    p.finish_columns(0, None);
    assert!(!p.tables[0].expanded);
    assert_eq!(p.tables[0].fields, None);
    // the other table can still be browsed and expanded
    p.handle_event(PageEvent::Down);
    assert_eq!(p.handle_event(PageEvent::Enter), PageCommand::LoadColumns(1));
}

#[test]
fn explorer_selection_walks_the_flattened_tree() {
    let mut p = QueryPage::new();
    p.set_tables(two_tables());
    p.finish_columns(0, Some(strings(&["id", "name"])));
    // flattened: users, id, name, orders
    assert_eq!(resolve_selection(&p.tables, 0), Some(0));
    assert_eq!(resolve_selection(&p.tables, 1), None);
    assert_eq!(resolve_selection(&p.tables, 2), None);
    assert_eq!(resolve_selection(&p.tables, 3), Some(1));
    assert_eq!(resolve_selection(&p.tables, 4), None);
    p.handle_event(PageEvent::FocusExplorer);
    for _ in 0..10 {
        p.handle_event(PageEvent::Down);
    }
    assert_eq!(p.explorer_selected, 3);
    // the selection lands on the second table: activating it asks for its columns
    assert_eq!(p.handle_event(PageEvent::Enter), PageCommand::LoadColumns(1));
}

#[test]
fn set_query_moves_cursor_to_the_end() {
    let mut p = QueryPage::new();
    p.handle_event(PageEvent::FocusExplorer);
    p.set_query("SELECT 1".to_string());
    assert_eq!(p.query_text(), "SELECT 1");
    assert_eq!(p.cursor_position, 8);
    assert_eq!(p.focus, Focus::Query);
}

#[test]
fn clear_query_only_when_editing() {
    let mut p = QueryPage::new();
    type_text(&mut p, "abc");
    p.finish_execute(Ok(grid(&["a"], &[&["1"]])));
    p.handle_event(PageEvent::CycleFocus);
    p.handle_event(PageEvent::ClearQuery);
    assert_eq!(p.query_text(), "abc");
    p.handle_event(PageEvent::CycleFocus);
    p.handle_event(PageEvent::ClearQuery);
    assert_eq!(p.query_text(), "");
    assert_eq!(p.cursor_position, 0);
}
