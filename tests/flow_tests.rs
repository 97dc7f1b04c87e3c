use flow::buffer::{Filter, Offset};
use flow::dispatcher::{Direction, Event, Flow, Outcome, SearchAction};
use flow::lines::Line;
use flow::search::{QueryState, Search, SearchMode};

fn strings(v: &[&str]) -> Vec<String> {
    v.iter().map(|s| s.to_string()).collect()
}

fn numbered(prefix: &str, n: usize) -> Vec<String> {
    (0..n).map(|i| format!("{} {}", prefix, i)).collect()
}

#[test]
fn search_finds_and_cycles() {
    let lines: Vec<Line> = strings(&["foo", "bar", "\x1b[1mfoo\x1b[0m", "food"])
        .into_iter()
        .map(Line::new)
        .collect();
    let view: Vec<&Line> = lines.iter().collect();
    let mut s = Search::new();
    assert_eq!(s.read_input("foo".to_string()), QueryState::Changed);
    assert_eq!(s.read_input("foo".to_string()), QueryState::Unchanged);
    s.run(&view);
    assert_eq!(s.matches, vec![0, 2, 3]);
    assert_eq!(s.current_match(), Some(0));
    s.find_next_match();
    let start = s.cursor;
    for _ in 0..s.matches.len() {
        s.find_next_match();
    }
    assert_eq!(s.cursor, start);
    s.find_previous_match();
    assert_eq!(s.current_match(), Some(0));
    s.find_previous_match();
    assert_eq!(s.current_match(), Some(3));
}

#[test]
fn search_without_matches_is_a_no_op() {
    let lines: Vec<Line> = strings(&["a", "b"]).into_iter().map(Line::new).collect();
    let view: Vec<&Line> = lines.iter().collect();
    let mut s = Search::new();
    s.run(&view);
    assert!(s.matches.is_empty());
    s.find_next_match();
    s.find_previous_match();
    assert_eq!(s.cursor, None);
    s.read_input("zzz".to_string());
    s.run(&view);
    assert_eq!(s.current_match(), None);
    s.toggle_filter_mode();
    assert_eq!(s.mode, SearchMode::FilterDown);
}

#[test]
fn scrolled_tab_keeps_its_place() {
    let filters = vec![Filter::new("errors".to_string(), Some("ERROR".to_string()))];
    let mut f = Flow::new(filters, 1000, 10);
    assert_eq!(f.step(Event::Idle(numbered("ERROR", 30))), Outcome::Redraw);
    assert_eq!(f.step(Event::ScrollContents(Offset::Line(5))), Outcome::Scroll(5));
    let batch = strings(&["ERROR x", "INFO y", "ERROR z", "INFO w", "ERROR v"]);
    assert_eq!(f.step(Event::Idle(batch)), Outcome::Redraw);
    assert_eq!(f.buffer_collection.selected_item().reverse_index, 8);
}

#[test]
fn tail_following_tab_stays_at_bottom() {
    let mut f = Flow::new(vec![Filter::new("all".to_string(), None)], 1000, 10);
    f.step(Event::Idle(numbered("line", 30)));
    f.step(Event::Idle(numbered("more", 5)));
    assert_eq!(f.buffer_collection.selected_item().reverse_index, 0);
    assert_eq!(f.step(Event::Idle(vec![])), Outcome::Nothing);
}

#[test]
fn top_bottom_through_dispatcher() {
    let mut f = Flow::new(vec![Filter::new("all".to_string(), None)], 1000, 20);
    f.step(Event::Idle(numbered("line", 100)));
    assert_eq!(f.step(Event::ScrollContents(Offset::Top)), Outcome::Scroll(80));
    assert_eq!(f.step(Event::ScrollContents(Offset::Bottom)), Outcome::Scroll(0));
}

#[test]
fn eviction_brings_position_into_range() {
    let mut f = Flow::new(vec![Filter::new("all".to_string(), None)], 12, 10);
    f.step(Event::Idle(numbered("line", 12)));
    assert_eq!(f.step(Event::ScrollContents(Offset::Top)), Outcome::Scroll(2));
    f.step(Event::Idle(numbered("more", 3)));
    assert_eq!(f.lines.len(), 12);
    assert_eq!(f.buffer_collection.selected_item().reverse_index, 2);
}

#[test]
fn tabs_search_resize_and_quit() {
    let filters = vec![
        Filter::new("all".to_string(), None),
        Filter::new("errors".to_string(), Some("ERROR".to_string())),
    ];
    let mut f = Flow::new(filters, 100, 2);
    f.step(Event::Idle(strings(&["INFO a", "ERROR b", "INFO c", "ERROR d"])));
    assert_eq!(f.step(Event::ScrollContents(Offset::Top)), Outcome::Scroll(2));
    assert_eq!(f.step(Event::SelectMenuItem(Direction::Right)), Outcome::Redraw);
    assert_eq!(f.buffer_collection.selected, 1);
    assert_eq!(f.buffer_collection.selected_item().reverse_index, 0);
    assert_eq!(f.step(Event::Search(SearchAction::ReadInput("d".to_string()))), Outcome::Redraw);
    assert_eq!(f.step(Event::Search(SearchAction::ReadInput("d".to_string()))), Outcome::Nothing);
    assert_eq!(f.search.matches, vec![1]);
    assert_eq!(f.step(Event::Search(SearchAction::FindNextMatch)), Outcome::Scroll(0));
    assert_eq!(f.step(Event::Search(SearchAction::ToggleFilterMode)), Outcome::Redraw);
    assert_eq!(f.search.mode, SearchMode::FilterDown);
    assert_eq!(f.step(Event::SelectMenuItem(Direction::Left)), Outcome::Redraw);
    assert_eq!(f.buffer_collection.selected_item().reverse_index, 0);
    assert_eq!(f.step(Event::Resize(1)), Outcome::Redraw);
    assert_eq!(f.viewport_height, 1);
    assert!(f.is_running());
    assert_eq!(f.step(Event::Quit), Outcome::Quit);
    assert!(!f.is_running());
}

#[test]
fn filter_down_shows_only_matches() {
    let mut f = Flow::new(vec![Filter::new("all".to_string(), None)], 100, 1);
    f.step(Event::Idle(strings(&["alpha", "beta", "alphabet", "gamma"])));
    assert_eq!(f.visible_lines().len(), 4);
    f.step(Event::Search(SearchAction::ReadInput("alpha".to_string())));
    assert_eq!(f.visible_lines().len(), 4);
    f.step(Event::Search(SearchAction::ToggleFilterMode));
    let shown: Vec<String> = f.visible_lines().iter().map(|l| l.content.clone()).collect();
    assert_eq!(shown, strings(&["alpha", "alphabet"]));
    assert_eq!(f.step(Event::ScrollContents(Offset::Top)), Outcome::Scroll(1));
    f.step(Event::Search(SearchAction::ReadInput(String::new())));
    assert_eq!(f.visible_lines().len(), 4);
}

#[test]
fn next_match_scrolls_it_into_view() {
    let mut f = Flow::new(vec![Filter::new("all".to_string(), None)], 100, 2);
    f.step(Event::Idle(numbered("line", 10)));
    f.step(Event::Search(SearchAction::ReadInput("line 3".to_string())));
    assert_eq!(f.search.matches, vec![3]);
    assert_eq!(f.step(Event::Search(SearchAction::FindNextMatch)), Outcome::Scroll(6));
    assert_eq!(f.buffer_collection.selected_item().reverse_index, 6);
    assert_eq!(f.step(Event::Search(SearchAction::FindPreviousMatch)), Outcome::Scroll(6));
    f.step(Event::Search(SearchAction::ToggleFilterMode));
    assert_eq!(f.step(Event::Search(SearchAction::FindNextMatch)), Outcome::Scroll(0));
}

#[test]
fn other_tabs_keep_their_position() {
    let filters = vec![
        Filter::new("all".to_string(), None),
        Filter::new("odd".to_string(), Some("odd".to_string())),
    ];
    let mut f = Flow::new(filters, 100, 2);
    f.step(Event::Idle(numbered("odd", 10)));
    f.step(Event::ScrollContents(Offset::Line(3)));
    f.step(Event::SelectMenuItem(Direction::Right));
    f.step(Event::ScrollContents(Offset::Line(5)));
    f.step(Event::Idle(numbered("even", 4)));
    f.step(Event::Resize(3));
    assert_eq!(f.buffer_collection.buffers[0].reverse_index, 3);
    assert_eq!(f.buffer_collection.selected, 1);
    assert_eq!(f.buffer_collection.buffers[1].reverse_index, 0);
    f.step(Event::Quit);
    assert_eq!(f.buffer_collection.buffers[0].reverse_index, 3);
}
