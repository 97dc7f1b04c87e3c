use flow::buffer::{Buffer, BufferCollection, Filter, Offset};
use flow::lines::{Line, LineCollection};

fn strings(v: &[&str]) -> Vec<String> {
    v.iter().map(|s| s.to_string()).collect()
}

fn contents(c: &LineCollection) -> Vec<String> {
    (0..c.len()).map(|i| c.get(i).content.clone()).collect()
}

#[test]
fn capacity_two_keeps_last_two() {
    let mut c = LineCollection::new(2);
    c.extend(strings(&["a", "b", "c"]));
    c.clear_excess();
    assert_eq!(contents(&c), strings(&["b", "c"]));
}

#[test]
fn capacity_zero_stays_empty() {
    let mut c = LineCollection::new(0);
    c.extend(strings(&["a", "b"]));
    c.clear_excess();
    assert_eq!(c.len(), 0);
}

#[test]
fn batches_keep_most_recent_in_order() {
    let mut c = LineCollection::new(4);
    c.extend(strings(&["1", "2"]));
    c.clear_excess();
    assert_eq!(contents(&c), strings(&["1", "2"]));
    c.extend(strings(&["3", "4", "5"]));
    c.clear_excess();
    assert_eq!(contents(&c), strings(&["2", "3", "4", "5"]));
    c.extend(vec![]);
    c.clear_excess();
    assert_eq!(contents(&c), strings(&["2", "3", "4", "5"]));
    c.extend(strings(&["6", "7", "8", "9", "10"]));
    c.clear_excess();
    assert_eq!(contents(&c), strings(&["7", "8", "9", "10"]));
}

#[test]
fn line_keeps_stripped_text() {
    let l = Line::new("\x1b[1mbold\x1b[0m".to_string());
    assert_eq!(l.content_without_ansi, "bold");
    assert!(l.components.is_some());
    let p = Line::new("plain".to_string());
    assert!(p.components.is_none());
}

#[test]
fn filter_error_lines() {
    let mut c = LineCollection::new(10);
    c.extend(strings(&["INFO a", "ERROR b", "INFO c"]));
    let b = Buffer::new(Filter::new("errors".to_string(), Some("ERROR".to_string())));
    let view: Vec<String> = b.parse(&c).iter().map(|l| l.content.clone()).collect();
    assert_eq!(view, strings(&["ERROR b"]));
    assert_eq!(b.virtual_height(&c), 1);
}

#[test]
fn filter_matches_text_without_escapes() {
    let mut c = LineCollection::new(10);
    c.extend(strings(&["ER\x1b[31mROR x", "ok"]));
    let b = Buffer::new(Filter::new("errors".to_string(), Some("ERROR".to_string())));
    assert_eq!(b.virtual_height(&c), 1);
    let all = Buffer::new(Filter::new("all".to_string(), None));
    assert_eq!(all.virtual_height(&c), 2);
    let empty = Buffer::new(Filter::new("empty".to_string(), Some(String::new())));
    assert_eq!(empty.virtual_height(&c), 2);
}

#[test]
fn top_then_bottom() {
    let mut b = Buffer::new(Filter::new("all".to_string(), None));
    assert_eq!(b.scroll(Offset::Top, 20, 100), 80);
    assert_eq!(b.reverse_index, 80);
    assert_eq!(b.scroll(Offset::Bottom, 20, 100), 0);
    assert!(!b.is_scrolled());
}

#[test]
fn adjust_clamps_overshoots() {
    let mut b = Buffer::new(Filter::new("all".to_string(), None));
    b.adjust_reverse_index(1_000_000, 30);
    assert_eq!(b.reverse_index, 30);
    b.adjust_reverse_index(-5, 30);
    assert_eq!(b.reverse_index, 25);
    b.adjust_reverse_index(i128::MIN, 30);
    assert_eq!(b.reverse_index, 0);
    b.adjust_reverse_index(i128::MAX, 7);
    assert_eq!(b.reverse_index, 7);
}

#[test]
fn viewport_scroll_and_small_views() {
    let mut b = Buffer::new(Filter::new("all".to_string(), None));
    assert_eq!(b.scroll(Offset::Viewport(1), 10, 100), 6);
    assert_eq!(b.scroll(Offset::Line(3), 10, 100), 9);
    assert_eq!(b.scroll(Offset::Line(-100), 10, 100), 0);
    assert_eq!(b.scroll(Offset::Top, 10, 5), 0);
    assert_eq!(b.scroll(Offset::Line(4), 0, 0), 0);
}

#[test]
fn tab_selection_clamps() {
    let filters = vec![
        Filter::new("all".to_string(), None),
        Filter::new("errors".to_string(), Some("ERROR".to_string())),
    ];
    let mut bc = BufferCollection::from_filters(filters);
    assert_eq!(bc.selected, 0);
    bc.select_previous();
    assert_eq!(bc.selected, 0);
    bc.select_next();
    assert_eq!(bc.selected, 1);
    assert_eq!(bc.selected_item().filter.name, "errors");
    bc.select_next();
    assert_eq!(bc.selected, 1);
}
