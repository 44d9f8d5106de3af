use skim_core::item::{Item, ItemPool};
use skim_core::layout::{Direction, Pane, Size, compose_frame, parse_preview};
use skim_core::matcher::{MatcherControl, MatcherMode, fuzzy_match, run_matcher};
use skim_core::model::ReaderControl;
use skim_core::query::Query;
use skim_core::status::StatusInfo;
use skim_core::text::{chars_to_string, str_to_chars, u64_to_string};

fn chars(s: &str) -> Vec<char> {
    s.chars().collect()
}

#[test]
fn pool_length_never_decreases_without_clear() {
    let mut pool = ItemPool::new();
    assert_eq!(pool.len(), 0);
    let mut batch = vec![Item::new(chars("a")), Item::new(chars("b"))];
    pool.append(&mut batch);
    assert_eq!(pool.len(), 2);
    pool.reset();
    assert_eq!(pool.len(), 2);
    let taken = pool.take();
    assert_eq!(taken.len(), 2);
    assert_eq!(pool.len(), 2);
    let mut more = vec![Item::new(chars("c"))];
    pool.append(&mut more);
    assert_eq!(pool.len(), 3);
    pool.clear();
    assert_eq!(pool.len(), 0);
}

#[test]
fn pool_take_returns_only_the_unseen_tail() {
    let mut pool = ItemPool::new();
    let mut batch = vec![Item::new(chars("a")), Item::new(chars("b"))];
    pool.append(&mut batch);
    let first = pool.take();
    assert_eq!(first.len(), 2);
    let mut more = vec![Item::new(chars("c"))];
    pool.append(&mut more);
    let second = pool.take();
    assert_eq!(second.len(), 1);
    let text: String = second[0].text.iter().collect();
    assert_eq!(text, "c");
}

#[test]
fn killing_a_matcher_control_twice_is_a_no_op() {
    let mut ctrl = MatcherControl {
        matched: Vec::new(),
        stopped: true,
        killed: false,
        num_matched: 0,
        num_processed: 0,
    };
    ctrl.kill();
    assert!(ctrl.killed);
    assert!(ctrl.stopped);
    ctrl.kill();
    assert!(ctrl.killed);
    assert!(ctrl.stopped);
    assert_eq!(ctrl.num_matched, 0);
}

#[test]
fn killing_a_reader_control_twice_is_a_no_op() {
    let mut rc = ReaderControl::start(chars("echo"));
    rc.kill();
    assert!(rc.killed);
    let cmd_after_one: String = rc.cmd.iter().collect();
    rc.kill();
    assert!(rc.killed);
    let cmd_after_two: String = rc.cmd.iter().collect();
    assert_eq!(cmd_after_one, cmd_after_two);
    assert!(!rc.processed);
}

#[test]
fn fuzzy_match_finds_in_order_subsequences() {
    assert_eq!(fuzzy_match(&chars("ab"), &chars("xaxbx")), Some(1));
    assert_eq!(fuzzy_match(&chars("abc"), &chars("abc")), Some(0));
    assert_eq!(fuzzy_match(&chars(""), &chars("anything")), Some(0));
    assert_eq!(fuzzy_match(&chars("ba"), &chars("ab")), None);
    assert_eq!(fuzzy_match(&chars("a"), &chars("")), None);
}

#[test]
fn run_matcher_sorts_by_rank_then_arrival() {
    let mut pool = ItemPool::new();
    let mut batch = vec![
        Item::new(chars("beta")),
        Item::new(chars("alpha")),
        Item::new(chars("gamma")),
    ];
    pool.append(&mut batch);
    let ctrl = run_matcher(&chars("a"), &mut pool, MatcherMode::Fuzzy);
    assert!(ctrl.stopped);
    assert_eq!(ctrl.num_processed, 3);
    assert_eq!(ctrl.num_matched, 3);
    let texts: Vec<String> = ctrl.matched.iter().map(|e| e.item.text.iter().collect()).collect();
    // alpha embeds "a" at 0, gamma at 1, beta at 3
    assert_eq!(texts, vec!["alpha".to_string(), "gamma".to_string(), "beta".to_string()]);
}

#[test]
fn run_matcher_regex_mode_ranks_by_arrival() {
    let mut pool = ItemPool::new();
    let mut batch = vec![
        Item::new(chars("apple")),
        Item::new(chars("banana")),
        Item::new(chars("apricot")),
    ];
    pool.append(&mut batch);
    let ctrl = run_matcher(&chars("^a"), &mut pool, MatcherMode::Regex);
    let texts: Vec<String> = ctrl.matched.iter().map(|e| e.item.text.iter().collect()).collect();
    assert_eq!(texts, vec!["apple".to_string(), "apricot".to_string()]);
}

#[test]
fn run_matcher_invalid_regex_matches_nothing() {
    let mut pool = ItemPool::new();
    let mut batch = vec![Item::new(chars("aaa"))];
    pool.append(&mut batch);
    let ctrl = run_matcher(&chars("("), &mut pool, MatcherMode::Regex);
    assert_eq!(ctrl.num_matched, 0);
}

#[test]
fn interpolation_replaces_every_placeholder() {
    let q = Query::new(chars("echo {} {}"), Vec::new(), chars("hi"));
    let cmd: String = q.get_cmd().iter().collect();
    assert_eq!(cmd, "echo hi hi");
}

#[test]
fn interpolation_without_placeholder_keeps_template() {
    let q = Query::new(chars("ls -l"), Vec::new(), chars("hi"));
    let cmd: String = q.get_cmd().iter().collect();
    assert_eq!(cmd, "ls -l");
}

#[test]
fn preview_spec_parses_tokens_in_any_order() {
    let w = parse_preview(&chars("up:30"));
    assert_eq!(w.direction, Direction::Up);
    assert_eq!(w.size, Size::Percent(30));
    assert!(w.shown);
    assert!(!w.wrap);

    let w2 = parse_preview(&chars("wrap:hidden:LEFT:75%"));
    assert_eq!(w2.direction, Direction::Left);
    assert_eq!(w2.size, Size::Percent(75));
    assert!(!w2.shown);
    assert!(w2.wrap);

    let w3 = parse_preview(&chars(""));
    assert_eq!(w3.direction, Direction::Right);
    assert_eq!(w3.size, Size::Percent(50));
    assert!(w3.shown);
}

#[test]
fn frame_composition_orders_panes() {
    let f = compose_frame(false, false, true, false, Direction::Right, Size::Percent(50));
    assert_eq!(f.main, vec![Pane::Selection, Pane::Status, Pane::Query]);
    assert!(f.preview.is_none());

    let r = compose_frame(true, true, false, true, Direction::Up, Size::Percent(40));
    assert_eq!(r.main, vec![Pane::QueryStatusRow, Pane::Header, Pane::Selection]);
    let p = r.preview.expect("preview pane requested");
    assert_eq!(p.direction, Direction::Up);
    assert_eq!(p.size, Size::Percent(40));
    assert_eq!(p.border, skim_core::layout::BorderSide::Bottom);
}

#[test]
fn status_line_shows_counters_and_flags() {
    let st = StatusInfo {
        total: 10,
        matched: 3,
        processed: 10,
        matcher_running: false,
        multi_selection: false,
        selected: 0,
        current_item_idx: 2,
        reading: false,
        time_millis: 0,
        matcher_mode: MatcherMode::Fuzzy,
        inline_info: false,
    };
    assert_eq!(st.status_line(), "  3/10");
    assert_eq!(st.cursor_line(), " 2 ");

    let busy = StatusInfo {
        total: 10,
        matched: 5,
        processed: 8,
        matcher_running: true,
        multi_selection: true,
        selected: 2,
        current_item_idx: 0,
        reading: true,
        time_millis: 0,
        matcher_mode: MatcherMode::Regex,
        inline_info: true,
    };
    // spinner frame 0, then counters, mode tag, percentage, selected count
    assert_eq!(busy.status_line(), " <- 5/10/RE (80%)  [2]");
}

#[test]
fn decimal_rendering_is_exact() {
    assert_eq!(u64_to_string(0), "0");
    assert_eq!(u64_to_string(7), "7");
    assert_eq!(u64_to_string(1234), "1234");
    assert_eq!(u64_to_string(1000), "1000");
}

#[test]
fn string_chars_round_trip() {
    let v = str_to_chars("hello world");
    assert_eq!(chars_to_string(&v), "hello world");
    let empty = str_to_chars("");
    assert_eq!(chars_to_string(&empty), "");
}
