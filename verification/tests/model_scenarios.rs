use skim_core::event::{Event, StepOutcome};
use skim_core::matcher::MatcherMode;
use skim_core::model::{ClearStrategy, Model, Options, resolve_default_command};

fn chars(s: &str) -> Vec<char> {
    s.chars().collect()
}

fn text_of(item: &skim_core::item::Item) -> String {
    item.text.iter().collect()
}

fn plain_options() -> Options {
    Options {
        cmd: Some(chars("echo")),
        query: Vec::new(),
        cmd_query: Vec::new(),
        delimiter: None,
        reverse: false,
        inline_info: false,
        preview: None,
        preview_window: None,
        header_lines: Vec::new(),
        multi: false,
    }
}

fn push(lines: &[&str]) -> Event {
    Event::ReaderPush(lines.iter().map(|s| s.to_string()).collect())
}

#[test]
fn type_a_accepts_alpha() {
    let mut m = Model::new(plain_options(), resolve_default_command(None));
    let events = vec![
        push(&["alpha", "beta", "gamma"]),
        Event::ReaderDone,
        Event::HeartBeat,
        Event::HeartBeat,
        Event::AddChar('a'),
        Event::HeartBeat,
        Event::Accept(None),
    ];
    let out = m.start(events).expect("accept should yield an output");
    let q: String = out.query;
    assert_eq!(q, "a");
    assert_eq!(out.selected_items.len(), 1);
    assert_eq!(text_of(&out.selected_items[0]), "alpha");
}

#[test]
fn type_ab_cursor_down_accepts_second_match() {
    let mut m = Model::new(plain_options(), resolve_default_command(None));
    let events = vec![
        push(&["a", "ab", "abc"]),
        Event::ReaderDone,
        Event::HeartBeat,
        Event::AddChar('a'),
        Event::AddChar('b'),
        Event::HeartBeat,
        Event::CursorDown,
        Event::Accept(None),
    ];
    let out = m.start(events).expect("accept should yield an output");
    assert_eq!(out.selected_items.len(), 1);
    let text = text_of(&out.selected_items[0]);
    assert!(text.starts_with("ab"));
    assert_eq!(text, "abc");
}

#[test]
fn toggle_preview_then_accept_omits_preview_pane() {
    let mut opts = plain_options();
    opts.preview = Some(chars("cat {}"));
    let mut m = Model::new(opts, resolve_default_command(None));
    assert!(!m.preview_hidden);
    assert!(m.frame().preview.is_some());
    let events = vec![
        push(&["one"]),
        Event::HeartBeat,
        Event::HeartBeat,
        Event::TogglePreview,
        Event::Accept(None),
    ];
    let out = m.start(events).expect("accept should yield an output");
    assert_eq!(out.selected_items.len(), 1);
    assert_eq!(text_of(&out.selected_items[0]), "one");
    assert!(m.preview_hidden);
    assert!(m.frame().preview.is_none());
}

#[test]
fn backspace_on_emptied_query_aborts() {
    let mut m = Model::new(plain_options(), resolve_default_command(None));
    let events = vec![Event::AddChar('x'), Event::DeleteCharEOF, Event::DeleteCharEOF];
    let out = m.start(events);
    assert!(out.is_none());
}

#[test]
fn regex_mode_filters_by_pattern() {
    let mut m = Model::new(plain_options(), resolve_default_command(None));
    let events = vec![
        push(&["apple", "banana", "apricot"]),
        Event::ReaderDone,
        Event::HeartBeat,
        Event::HeartBeat,
        Event::RotateMode,
        Event::AddChar('^'),
        Event::AddChar('a'),
        Event::AddChar('.'),
        Event::AddChar('*'),
        Event::HeartBeat,
        Event::Accept(None),
    ];
    let out = m.start(events).expect("accept should yield an output");
    assert_eq!(out.selected_items.len(), 1);
    let text = text_of(&out.selected_items[0]);
    assert!(text == "apple" || text == "apricot");
    assert_eq!(m.mode, MatcherMode::Regex);
    let status = m.status(0);
    let line = status.status_line();
    assert!(line.contains("/RE"));
}

#[test]
fn command_change_to_empty_reader_keeps_old_matches() {
    let mut opts = plain_options();
    opts.cmd = Some(chars("emit {}"));
    let mut m = Model::new(opts, resolve_default_command(None));
    let events = vec![
        push(&["one", "two"]),
        Event::HeartBeat,
        Event::HeartBeat,
        Event::AddCharCmd('x'),
        Event::ReaderDone,
        Event::HeartBeat,
        Event::Accept(None),
    ];
    let out = m.start(events).expect("accept should yield an output");
    // the new reader produced nothing: the pending clear strategy is a no-op
    // on an empty batch, so the previous matches are still selectable
    assert_eq!(out.selected_items.len(), 1);
    assert_eq!(text_of(&out.selected_items[0]), "one");
    assert_eq!(m.clear_strategy, ClearStrategy::ClearIfNotNull);
}

#[test]
fn accept_with_no_matches_returns_empty_list() {
    let mut opts = plain_options();
    opts.query = chars("zz");
    let mut m = Model::new(opts, resolve_default_command(None));
    let out = m.start(vec![Event::Accept(None)]).expect("accept should yield an output");
    assert_eq!(out.selected_items.len(), 0);
    let q: String = out.query;
    assert_eq!(q, "zz");
}

#[test]
fn accept_carries_key_label_and_cmd_query() {
    let mut opts = plain_options();
    opts.cmd_query = chars("seed");
    let mut m = Model::new(opts, resolve_default_command(None));
    let out = m
        .start(vec![Event::Accept(Some("ctrl-m".to_string()))])
        .expect("accept should yield an output");
    assert_eq!(out.accept_key.as_deref(), Some("ctrl-m"));
    assert_eq!(out.cmd, "seed");
}

#[test]
fn filter_change_does_not_restart_reader() {
    let mut m = Model::new(plain_options(), resolve_default_command(None));
    m.start_reader();
    m.handle_event(push(&["aa", "bb"]));
    m.handle_event(Event::HeartBeat);
    let before_cmd: String = m.reader_control.as_ref().unwrap().cmd.iter().collect();
    let outcome = m.handle_event(Event::AddChar('a'));
    assert!(matches!(outcome, StepOutcome::Continue));
    let rc = m.reader_control.as_ref().expect("reader must survive a filter change");
    let after_cmd: String = rc.cmd.iter().collect();
    assert_eq!(before_cmd, after_cmd);
    assert!(!rc.processed);
    // the pool was rescanned, not cleared
    assert_eq!(m.item_pool.len(), 2);
    let mc = m.matcher_control.as_ref().expect("matcher restarted");
    assert_eq!(mc.matched.len(), 1);
}

#[test]
fn command_change_clears_pool_and_restarts_reader() {
    let mut opts = plain_options();
    opts.cmd = Some(chars("emit {}"));
    let mut m = Model::new(opts, resolve_default_command(None));
    m.start_reader();
    m.handle_event(push(&["aa", "bb"]));
    m.handle_event(Event::HeartBeat);
    assert_eq!(m.item_pool.len(), 2);
    m.handle_event(Event::AddCharCmd('q'));
    assert_eq!(m.item_pool.len(), 0);
    let rc = m.reader_control.as_ref().expect("reader restarted");
    let cmd: String = rc.cmd.iter().collect();
    assert_eq!(cmd, "emit q");
    assert!(!rc.processed);
    assert!(rc.staged.is_empty());
    let mc = m.matcher_control.as_ref().expect("matcher restarted");
    assert_eq!(mc.matched.len(), 0);
    assert_eq!(m.clear_strategy, ClearStrategy::ClearIfNotNull);
}

#[test]
fn toggle_preview_twice_is_identity() {
    let mut opts = plain_options();
    opts.preview = Some(chars("cat {}"));
    let mut m = Model::new(opts, resolve_default_command(None));
    let initial = m.preview_hidden;
    m.handle_event(Event::TogglePreview);
    assert_eq!(m.preview_hidden, !initial);
    m.handle_event(Event::TogglePreview);
    assert_eq!(m.preview_hidden, initial);
}

#[test]
fn rotate_mode_twice_is_identity() {
    let mut m = Model::new(plain_options(), resolve_default_command(None));
    assert_eq!(m.mode, MatcherMode::Fuzzy);
    m.handle_event(Event::RotateMode);
    assert_eq!(m.mode, MatcherMode::Regex);
    m.handle_event(Event::RotateMode);
    assert_eq!(m.mode, MatcherMode::Fuzzy);
}

#[test]
fn strategy_stays_dont_clear_across_neutral_events() {
    let mut m = Model::new(plain_options(), resolve_default_command(None));
    m.start_reader();
    assert_eq!(m.clear_strategy, ClearStrategy::DontClear);
    m.handle_event(push(&["x"]));
    assert_eq!(m.clear_strategy, ClearStrategy::DontClear);
    m.handle_event(Event::HeartBeat);
    assert_eq!(m.clear_strategy, ClearStrategy::DontClear);
    m.handle_event(Event::HeartBeat);
    assert_eq!(m.clear_strategy, ClearStrategy::DontClear);
    m.handle_event(Event::TogglePreview);
    m.handle_event(Event::CursorDown);
    assert_eq!(m.clear_strategy, ClearStrategy::DontClear);
}

#[test]
fn exhausted_event_queue_counts_as_abort() {
    let mut m = Model::new(plain_options(), resolve_default_command(None));
    let out = m.start(vec![push(&["x"]), Event::HeartBeat]);
    assert!(out.is_none());
    assert!(m.reader_control.is_none());
    assert!(m.matcher_control.is_none());
}

#[test]
fn workers_are_killed_before_returning() {
    let mut m = Model::new(plain_options(), resolve_default_command(None));
    let events = vec![push(&["a"]), Event::HeartBeat, Event::Accept(None)];
    m.start(events).expect("accept should yield an output");
    assert!(m.reader_control.is_none());
    assert!(m.matcher_control.is_none());
}

#[test]
fn preview_targets_the_cursor_item() {
    let mut opts = plain_options();
    opts.preview = Some(chars("cat {}"));
    let mut m = Model::new(opts, resolve_default_command(None));
    m.start_reader();
    m.handle_event(push(&["one", "two"]));
    m.handle_event(Event::HeartBeat);
    m.handle_event(Event::HeartBeat);
    let item = m.current_preview_item().expect("preview visible with a cursor item");
    assert_eq!(text_of(&item), "one");
    m.handle_event(Event::CursorDown);
    let item2 = m.current_preview_item().expect("preview follows the cursor");
    assert_eq!(text_of(&item2), "two");
    m.handle_event(Event::TogglePreview);
    assert!(m.current_preview_item().is_none());
}

#[test]
fn invalid_delimiter_falls_back_to_default() {
    let mut opts = plain_options();
    opts.delimiter = Some(chars("("));
    let m = Model::new(opts, resolve_default_command(None));
    let d: String = m.delimiter.iter().collect();
    assert_eq!(d, "[\\t\\n ]+");

    let mut opts2 = plain_options();
    opts2.delimiter = Some(chars(","));
    let m2 = Model::new(opts2, resolve_default_command(None));
    let d2: String = m2.delimiter.iter().collect();
    assert_eq!(d2, ",");
}

#[test]
fn default_command_resolution() {
    let fallback: String = resolve_default_command(None).iter().collect();
    assert_eq!(fallback, "find .");
    let empty: String = resolve_default_command(Some(Vec::new())).iter().collect();
    assert_eq!(empty, "find .");
    let named: String = resolve_default_command(Some(chars("rg --files"))).iter().collect();
    assert_eq!(named, "rg --files");
}

#[test]
fn multi_select_toggle_collects_items() {
    let mut opts = plain_options();
    opts.multi = true;
    let mut m = Model::new(opts, resolve_default_command(None));
    let events = vec![
        push(&["one", "two", "three"]),
        Event::HeartBeat,
        Event::HeartBeat,
        Event::ToggleSelect,
        Event::CursorDown,
        Event::ToggleSelect,
        Event::Accept(None),
    ];
    let out = m.start(events).expect("accept should yield an output");
    let texts: Vec<String> = out.selected_items.iter().map(text_of).collect();
    assert_eq!(texts, vec!["one".to_string(), "two".to_string()]);
}
