use depot::scan::{Category, ScanItem, ScanMsg};
use depot::tui::{category_color, filter_label, row_cells, truncate, App, Disp, Key, Outcome, Row, Tint};
use depot::util::Timestamp;

fn item(category: Category, kind: &str, size: u64, path: &str) -> ScanItem {
    ScanItem {
        category,
        kind: kind.to_string(),
        label: kind.to_string(),
        paths: vec![path.to_string()],
        size,
        modified: None,
    }
}

fn sample() -> App {
    let mut app = App::new();
    app.push(item(Category::Python, "virtualenv", 300, "/p1"));
    app.push(item(Category::Node, "node_modules", 100, "/n1"));
    app.push(item(Category::Node, "node_modules", 500, "/n2"));
    app.push(item(Category::Build, "rust target", 50, "/b1"));
    app
}

fn paths(app: &App) -> Vec<String> {
    app.rows.iter().map(|r| r.item.paths[0].clone()).collect()
}

#[test]
fn new_view_is_empty_and_scanning() {
    let app = App::new();
    assert!(app.rows.is_empty());
    assert!(app.disp.is_empty());
    assert_eq!(app.selected, None);
    assert_eq!(app.filter, vec![Category::Node, Category::Python, Category::Model, Category::Build]);
    assert!(app.scanning);
    assert_eq!(app.status, "Starting\u{2026}");
    assert_eq!(app.current_row(), None);
}

#[test]
fn rows_are_grouped_by_category_then_largest_first() {
    let app = sample();
    assert_eq!(paths(&app), vec!["/n2", "/n1", "/p1", "/b1"]);
    assert_eq!(
        app.disp,
        vec![
            Disp::Header(Category::Node),
            Disp::Item(0),
            Disp::Item(1),
            Disp::Header(Category::Python),
            Disp::Item(2),
            Disp::Header(Category::Build),
            Disp::Item(3),
        ]
    );
}

#[test]
fn cursor_starts_on_first_item_and_follows_its_row() {
    let mut app = App::new();
    app.push(item(Category::Node, "node_modules", 100, "/small"));
    assert_eq!(app.selected, Some(1));
    assert_eq!(app.current_row(), Some(0));
    app.push(item(Category::Node, "node_modules", 900, "/big"));
    // the cursor stays on the same row, which moved down
    assert_eq!(app.rows[app.current_row().unwrap()].item.paths[0], "/small");
}

#[test]
fn stepping_skips_headers_and_stops_at_edges() {
    let mut app = sample();
    // the cursor stayed on the first row pushed, the virtualenv
    assert_eq!(app.selected, Some(4));
    app.step(false);
    assert_eq!(app.selected, Some(2));
    app.step(false);
    assert_eq!(app.selected, Some(1));
    app.step(false);
    assert_eq!(app.selected, Some(1));
    app.step(true);
    assert_eq!(app.selected, Some(2));
    app.step(true);
    assert_eq!(app.selected, Some(4));
    app.step(true);
    assert_eq!(app.selected, Some(6));
    app.step(true);
    assert_eq!(app.selected, Some(6));
}

#[test]
fn toggling_twice_restores_the_ticks() {
    let mut app = sample();
    app.toggle();
    assert!(app.rows[2].selected);
    assert_eq!(app.selected_count(), 1);
    assert_eq!(app.selected_size(), 300);
    app.toggle();
    assert!(app.rows.iter().all(|r| !r.selected));
}

#[test]
fn tick_all_only_touches_shown_categories() {
    let mut app = sample();
    app.toggle_filter(Category::Python);
    app.set_all(true);
    let ticks: Vec<bool> = app.rows.iter().map(|r| r.selected).collect();
    assert_eq!(ticks, vec![true, true, false, true]);
    assert_eq!(app.visible_total(), 650);
    app.set_all(false);
    assert_eq!(app.selected_count(), 0);
}

#[test]
fn filter_hides_a_category_and_toggles_back() {
    let mut app = sample();
    app.toggle_filter(Category::Node);
    assert!(!app.filter.contains(&Category::Node));
    assert_eq!(app.disp, vec![Disp::Header(Category::Python), Disp::Item(2), Disp::Header(Category::Build), Disp::Item(3)]);
    assert_eq!(app.selected, Some(1));
    assert_eq!(app.visible_total(), 350);
    assert_eq!(app.subtotal(Category::Node), 600);
    app.toggle_filter(Category::Node);
    assert!(app.filter.contains(&Category::Node));
    assert_eq!(app.disp.len(), 7);
}

#[test]
fn delete_with_nothing_ticked() {
    let mut app = sample();
    assert!(app.delete_request().is_empty());
    assert_eq!(app.last_action, "Nothing selected");
}

#[test]
fn delete_drops_gone_rows_and_reports() {
    let mut app = sample();
    app.toggle();
    app.step(false);
    app.toggle();
    let req = app.delete_request();
    assert_eq!(req, vec!["/n1".to_string(), "/p1".to_string()]);
    // "/p1" could not be removed
    app.delete_done(&vec![true, false, true, true]);
    assert_eq!(paths(&app), vec!["/n2", "/p1", "/b1"]);
    assert_eq!(app.last_action, "Moved 1 item(s) to Recycle Bin \u{b7} freed ~400 B");
    assert_eq!(app.rows[app.current_row().unwrap()].item.paths[0], "/n2");
}

#[test]
fn keys_drive_the_view() {
    let mut app = sample();
    assert!(matches!(app.on_key(Key::Char('k')), Outcome::Continue));
    assert_eq!(app.selected, Some(2));
    assert!(matches!(app.on_key(Key::Char(' ')), Outcome::Continue));
    assert!(app.rows[1].selected);
    match app.on_key(Key::Char('d')) {
        Outcome::Delete(p) => assert_eq!(p, vec!["/n1".to_string()]),
        _ => panic!("expected a delete request"),
    }
    assert!(matches!(app.on_key(Key::Char('2')), Outcome::Continue));
    assert!(!app.filter.contains(&Category::Python));
    assert!(matches!(app.on_key(Key::Other), Outcome::Continue));
    assert!(matches!(app.on_key(Key::Char('r')), Outcome::Rescan));
    assert!(app.rows.is_empty());
    assert!(app.scanning);
    assert_eq!(app.status, "Rescanning\u{2026}");
    assert!(matches!(app.on_key(Key::Char('q')), Outcome::Quit));
    assert!(matches!(app.on_key(Key::Esc), Outcome::Quit));
}

#[test]
fn scan_messages_update_the_view() {
    let mut app = App::new();
    app.on_msg(ScanMsg::Status("Scanning /home".to_string()));
    assert_eq!(app.status, "Scanning /home");
    assert_eq!(app.scan_state(), "  [scanning\u{2026} Scanning /home]");
    app.on_msg(ScanMsg::Item(item(Category::Model, "torch hub", 10, "/t")));
    assert_eq!(app.rows.len(), 1);
    app.on_msg(ScanMsg::Done);
    assert!(!app.scanning);
    assert_eq!(app.scan_state(), "  [scan complete]");
}

#[test]
fn text_cells() {
    let app = sample();
    assert_eq!(app.list_title(), " 4 items \u{b7} 950 B ");
    let (title, sub) = app.header_cells(Category::Node);
    assert_eq!(title, "  Node / JavaScript ");
    assert_eq!(sub, "\u{2014} 600 B");
    let (visible, ticked) = app.footer_cells();
    assert_eq!(visible, " 950 B visible ");
    assert_eq!(ticked, "0 B in 0 selected ");
    assert_eq!(filter_label(0, Category::Node), "[1]node ");
    assert_eq!(category_color(Category::Python), Tint::Blue);
    let now = Timestamp { before_epoch: false, secs: 7200, nanos: 0 };
    let row = Row { item: item(Category::Node, "node_modules", 2048, "/w/node_modules"), selected: true };
    let (check, size, age, detail) = row_cells(&row, now);
    assert_eq!(check, "   [x] ");
    assert_eq!(size, "   2.0 KB ");
    assert_eq!(age, "\u{2014}        ");
    assert_eq!(detail, "node_modules  /w/node_modules");
}

#[test]
fn truncation() {
    assert_eq!(truncate("abc", 3), "abc");
    assert_eq!(truncate("abcd", 3), "ab\u{2026}");
    assert_eq!(truncate("abcd", 0), "\u{2026}");
}
