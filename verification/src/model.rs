//! The model: the event loop that multiplexes the reader, the matcher and
//! the user's keystrokes over one channel, with the restart and cancellation
//! protocol that keeps stale rows off the screen.

use vstd::prelude::*;
use crate::event::{Event, StepOutcome};
use crate::header::Header;
use crate::item::{Item, ItemPool, clone_chars, texts_of};
use crate::layout::{
    FrameLayout, PreviewWindow, compose_frame, default_preview_window, parse_preview,
    preview_window_of,
};
use crate::matcher::{MatcherControl, MatcherMode, matched_ok, regex_pattern_valid, run_matcher};
use crate::output::SkimOutput;
use crate::query::{Query, interpolate};
use crate::selection::Selection;
use crate::status::StatusInfo;
use crate::text::{chars_eq, chars_to_string, str_to_chars};

verus! {

/// The deferred action applied when the next matcher batch is absorbed.
#[derive(Clone, Copy, PartialEq, Eq, Structural, Debug)]
pub enum ClearStrategy {
    /// Append the batch to the existing matches.
    DontClear,
    /// Drop the previous matches first: they belong to a stale query.
    Clear,
    /// Drop the previous matches only if the batch is non-empty, so an empty
    /// list never flashes while a new reader run warms up.
    ClearIfNotNull,
}

/// Whether the batch makes this strategy drop the previous matches.
pub open spec fn strategy_clears(strat: ClearStrategy, batch_len: int) -> bool {
    match strat {
        ClearStrategy::DontClear => false,
        ClearStrategy::Clear => true,
        ClearStrategy::ClearIfNotNull => batch_len > 0,
    }
}

/// The strategy left pending after a batch is absorbed: consumed strategies
/// revert to `DontClear`; `ClearIfNotNull` outlives empty batches.
pub open spec fn strategy_after(strat: ClearStrategy, batch_len: int) -> ClearStrategy {
    match strat {
        ClearStrategy::DontClear => ClearStrategy::DontClear,
        ClearStrategy::Clear => ClearStrategy::DontClear,
        ClearStrategy::ClearIfNotNull => if batch_len > 0 {
            ClearStrategy::DontClear
        } else {
            ClearStrategy::ClearIfNotNull
        },
    }
}

/// Handle to one reader run: the command it was spawned for, the items it
/// has staged since the last drain, and whether its input is exhausted.
pub struct ReaderControl {
    pub cmd: Vec<char>,
    pub staged: Vec<Item>,
    pub processed: bool,
    pub killed: bool,
}

/// The state a reader handle reaches when killed: only the kill mark
/// changes, and a killed handle stages nothing further.
pub open spec fn reader_killed(c: ReaderControl) -> ReaderControl {
    ReaderControl { killed: true, ..c }
}

/// The display texts of freshly read lines.
pub open spec fn lines_texts(ls: Seq<String>) -> Seq<Seq<char>> {
    ls.map_values(|s: String| s@)
}

impl ReaderControl {
    /// A fresh run for `cmd`: nothing staged, input not yet exhausted.
    pub fn start(cmd: Vec<char>) -> (r: ReaderControl)
        ensures
            r.cmd@ == cmd@,
            r.staged@.len() == 0,
            !r.processed,
            !r.killed,
    {
        ReaderControl { cmd, staged: Vec::new(), processed: false, killed: false }
    }

    pub fn is_processed(&self) -> (r: bool)
        ensures
            r == self.processed,
    {
        self.processed
    }

    /// Signal cancellation. Killing an already-killed handle changes
    /// nothing.
    pub fn kill(&mut self)
        ensures
            *final(self) == reader_killed(*old(self)),
    {
        self.killed = true;
    }

    /// Stage freshly read lines as items.
    pub fn push_lines(&mut self, lines: &Vec<String>)
        ensures
            texts_of(final(self).staged@) == texts_of(old(self).staged@) + lines_texts(lines@),
            final(self).cmd@ == old(self).cmd@,
            final(self).processed == old(self).processed,
            final(self).killed == old(self).killed,
    {
        let mut i: usize = 0;
        let ghost orig = self.staged@;
        proof {
            assert(lines_texts(lines@).subrange(0, 0) =~= Seq::<Seq<char>>::empty());
            assert(texts_of(orig) + lines_texts(lines@).subrange(0, 0) =~= texts_of(orig));
        }
        while i < lines.len()
            invariant
                i <= lines@.len(),
                texts_of(self.staged@) == texts_of(orig) + lines_texts(lines@).subrange(
                    0,
                    i as int,
                ),
                self.cmd@ == old(self).cmd@,
                self.processed == old(self).processed,
                self.killed == old(self).killed,
            decreases lines@.len() - i,
        {
            let chars = str_to_chars(lines[i].as_str());
            let it = Item::new(chars);
            let ghost prev = self.staged@;
            self.staged.push(it);
            proof {
                assert(texts_of(prev.push(it)) =~= texts_of(prev).push(it@));
                let lt = lines_texts(lines@);
                assert(lt[i as int] == lines@[i as int]@);
                assert(lt.subrange(0, i as int + 1) =~= lt.subrange(0, i as int).push(lt[i as int]));
                assert(texts_of(orig) + lt.subrange(0, i as int + 1)
                    =~= (texts_of(orig) + lt.subrange(0, i as int)).push(lt[i as int]));
            }
            i = i + 1;
        }
        proof {
            assert(lines_texts(lines@).subrange(0, lines@.len() as int) =~= lines_texts(lines@));
        }
    }

    /// Mark the run's input as exhausted.
    pub fn set_processed(&mut self)
        ensures
            *final(self) == (ReaderControl { processed: true, ..*old(self) }),
    {
        self.processed = true;
    }

    /// Atomically remove and return everything staged so far.
    pub fn take(&mut self) -> (r: Vec<Item>)
        ensures
            texts_of(r@) == texts_of(old(self).staged@),
            final(self).staged@.len() == 0,
            final(self).cmd@ == old(self).cmd@,
            final(self).processed == old(self).processed,
            final(self).killed == old(self).killed,
    {
        let mut out: Vec<Item> = Vec::new();
        let mut i: usize = 0;
        while i < self.staged.len()
            invariant
                i <= self.staged@.len(),
                self.staged@ == old(self).staged@,
                self.cmd@ == old(self).cmd@,
                self.processed == old(self).processed,
                self.killed == old(self).killed,
                texts_of(out@) == texts_of(self.staged@).subrange(0, i as int),
            decreases self.staged@.len() - i,
        {
            let it = self.staged[i].clone();
            let ghost prev = out@;
            out.push(it);
            proof {
                assert(texts_of(prev.push(it)) =~= texts_of(prev).push(it@));
                let st = texts_of(self.staged@);
                assert(st.subrange(0, i as int + 1) =~= st.subrange(0, i as int).push(st[i as int]));
            }
            i = i + 1;
        }
        proof {
            assert(texts_of(self.staged@).subrange(0, self.staged@.len() as int)
                =~= texts_of(self.staged@));
        }
        self.staged = Vec::new();
        out
    }
}

/// Killing a reader handle twice is the same as killing it once.
pub proof fn lemma_reader_kill_idempotent(c: ReaderControl)
    ensures
        reader_killed(reader_killed(c)) == reader_killed(c),
{
}

/// The configuration surface the model recognizes.
pub struct Options {
    /// Explicit source command; when absent the resolved default is used.
    pub cmd: Option<Vec<char>>,
    /// Initial filter query.
    pub query: Vec<char>,
    /// Initial command query.
    pub cmd_query: Vec<char>,
    /// Field delimiter pattern; an invalid pattern falls back to the
    /// default.
    pub delimiter: Option<Vec<char>>,
    pub reverse: bool,
    pub inline_info: bool,
    /// Preview command template; enables the previewer.
    pub preview: Option<Vec<char>>,
    /// Colon-separated preview-window specification.
    pub preview_window: Option<Vec<char>>,
    pub header_lines: Vec<String>,
    pub multi: bool,
}

/// The default field delimiter pattern: runs of tabs, newlines and spaces.
pub open spec fn default_delimiter() -> Seq<char> {
    seq!['[', '\\', 't', '\\', 'n', ' ', ']', '+']
}

/// The platform fallback source command.
pub open spec fn default_command() -> Seq<char> {
    seq!['f', 'i', 'n', 'd', ' ', '.']
}

/// The source command named by the environment, or the platform fallback
/// when it is absent or empty.
pub fn resolve_default_command(env_val: Option<Vec<char>>) -> (r: Vec<char>)
    ensures
        r@ == (match env_val {
            Some(v) => if v@.len() == 0 { default_command() } else { v@ },
            None => default_command(),
        }),
{
    match env_val {
        Some(v) => {
            if v.len() == 0 {
                default_command_exec()
            } else {
                v
            }
        },
        None => default_command_exec(),
    }
}

fn default_command_exec() -> (r: Vec<char>)
    ensures
        r@ == default_command(),
{
    let mut v: Vec<char> = Vec::new();
    v.push('f');
    v.push('i');
    v.push('n');
    v.push('d');
    v.push(' ');
    v.push('.');
    proof {
        assert(v@ =~= default_command());
    }
    v
}

fn default_delimiter_exec() -> (r: Vec<char>)
    ensures
        r@ == default_delimiter(),
{
    let mut v: Vec<char> = Vec::new();
    v.push('[');
    v.push('\\');
    v.push('t');
    v.push('\\');
    v.push('n');
    v.push(' ');
    v.push(']');
    v.push('+');
    proof {
        assert(v@ =~= default_delimiter());
    }
    v
}

/// Cycle fuzzy to regex and back.
pub open spec fn rotate_mode(m: MatcherMode) -> MatcherMode {
    match m {
        MatcherMode::Fuzzy => MatcherMode::Regex,
        MatcherMode::Regex => MatcherMode::Fuzzy,
    }
}

/// Rotating the matcher mode twice returns to the initial mode.
pub proof fn lemma_rotate_mode_twice(m: MatcherMode)
    ensures
        rotate_mode(rotate_mode(m)) == m,
{
}

pub struct Model {
    pub query: Query,
    pub selection: Selection,
    pub item_pool: ItemPool,
    pub header: Header,
    pub mode: MatcherMode,
    pub reader_control: Option<ReaderControl>,
    pub matcher_control: Option<MatcherControl>,
    pub clear_strategy: ClearStrategy,
    pub preview_hidden: bool,
    /// Preview command template, when a previewer is configured.
    pub preview_cmd: Option<Vec<char>>,
    pub preview: PreviewWindow,
    pub reverse: bool,
    pub inline_info: bool,
    pub delimiter: Vec<char>,
    /// Snapshot of the rendered reader command, for change detection.
    pub cmd: Vec<char>,
    /// Snapshot of the filter query, for change detection.
    pub cur_query: Vec<char>,
}

/// Flipping the preview visibility changes nothing else.
pub open spec fn toggle_preview_spec(m: Model) -> Model {
    Model { preview_hidden: !m.preview_hidden, ..m }
}

/// Toggling the preview twice returns to the original state.
pub proof fn lemma_toggle_preview_twice(m: Model)
    ensures
        toggle_preview_spec(toggle_preview_spec(m)) == m,
{
}

/// How many reader handles are live: never more than one, since the model
/// kills the old handle before installing a new one.
pub open spec fn live_reader_handles(m: Model) -> nat {
    if m.reader_control is Some {
        1
    } else {
        0
    }
}

/// How many matcher handles are live.
pub open spec fn live_matcher_handles(m: Model) -> nat {
    if m.matcher_control is Some {
        1
    } else {
        0
    }
}

/// At every quiescent point at most one reader and at most one matcher
/// handle are live, and a well-formed model holds no killed handle.
pub proof fn lemma_at_most_one_live_handle(m: Model)
    requires
        m.wf(),
    ensures
        live_reader_handles(m) <= 1,
        live_matcher_handles(m) <= 1,
        m.reader_control matches Some(rc) ==> !rc.killed,
        m.matcher_control matches Some(mc) ==> !mc.killed,
{
}

/// The items the reader has staged but the pool has not absorbed.
pub open spec fn reader_staged_texts(m: Model) -> Seq<Seq<char>> {
    match m.reader_control {
        Some(rc) => texts_of(rc.staged@),
        None => Seq::<Seq<char>>::empty(),
    }
}

/// The same reader run before and after a step that must not restart it:
/// same command and same progress, though its staging may have been
/// drained.
pub open spec fn same_reader_run(a: Option<ReaderControl>, b: Option<ReaderControl>) -> bool {
    &&& (a is Some <==> b is Some)
    &&& (a matches Some(ra) ==> b matches Some(rb) && rb.cmd@ == ra.cmd@ && rb.processed
        == ra.processed && !rb.killed && rb.staged@.len() == 0)
}

/// What one event does to the filter query's text.
pub open spec fn query_step(q: Seq<char>, ev: Event) -> Seq<char> {
    match ev {
        Event::AddChar(c) => q.push(c),
        Event::DeleteChar => if q.len() > 0 {
            q.drop_last()
        } else {
            q
        },
        Event::DeleteCharEOF => if q.len() > 0 {
            q.drop_last()
        } else {
            q
        },
        _ => q,
    }
}

/// What one event does to the command query's text.
pub open spec fn cmd_query_step(cq: Seq<char>, ev: Event) -> Seq<char> {
    match ev {
        Event::AddCharCmd(c) => cq.push(c),
        Event::DeleteCharCmd => if cq.len() > 0 {
            cq.drop_last()
        } else {
            cq
        },
        _ => cq,
    }
}

/// What the loop decides for a queue of events. Only the two query texts
/// decide termination, so the fold carries them: the first accept ends the
/// run with its key label and the query texts standing at that point; an
/// abort, a backspace on an empty filter query, or an exhausted queue (the
/// channel closing) ends it with nothing.
pub open spec fn run_outcome(
    q: Seq<char>,
    cq: Seq<char>,
    evs: Seq<Event>,
) -> Option<(Option<String>, Seq<char>, Seq<char>)>
    decreases evs.len(),
{
    if evs.len() == 0 {
        None
    } else {
        match evs[0] {
            Event::Accept(k) => Some((k, q, cq)),
            Event::Abort => None,
            Event::DeleteCharEOF => if q.len() == 0 {
                None
            } else {
                run_outcome(query_step(q, evs[0]), cmd_query_step(cq, evs[0]), evs.skip(1))
            },
            _ => run_outcome(query_step(q, evs[0]), cmd_query_step(cq, evs[0]), evs.skip(1)),
        }
    }
}

/// An accept event, whatever key label it carries.
pub open spec fn is_accept(ev: Event) -> bool {
    ev matches Event::Accept(_)
}

/// A run that ends accepted met an accept event on its way.
pub proof fn lemma_run_outcome_has_accept(q: Seq<char>, cq: Seq<char>, evs: Seq<Event>)
    requires
        run_outcome(q, cq, evs) is Some,
    ensures
        exists|i: int| 0 <= i < evs.len() && #[trigger] is_accept(evs[i]),
    decreases evs.len(),
{
    match evs[0] {
        Event::Accept(_) => {
            assert(0 <= 0 < evs.len() && is_accept(evs[0]));
        },
        Event::Abort => {
            assert(false);
        },
        Event::DeleteCharEOF => {
            if q.len() == 0 {
                assert(false);
            } else {
                lemma_run_outcome_has_accept(
                    query_step(q, evs[0]),
                    cmd_query_step(cq, evs[0]),
                    evs.skip(1),
                );
                let j = choose|j: int|
                    0 <= j < evs.skip(1).len() && #[trigger] is_accept(evs.skip(1)[j]);
                assert(is_accept(evs[j + 1]));
            }
        },
        _ => {
            lemma_run_outcome_has_accept(
                query_step(q, evs[0]),
                cmd_query_step(cq, evs[0]),
                evs.skip(1),
            );
            let j = choose|j: int|
                0 <= j < evs.skip(1).len() && #[trigger] is_accept(evs.skip(1)[j]);
            assert(is_accept(evs[j + 1]));
        },
    }
}

/// Which events may leave a pending clear strategy behind.
pub open spec fn sets_strategy(ev: Event) -> bool {
    match ev {
        Event::RotateMode => true,
        Event::AddChar(_) => true,
        Event::DeleteChar => true,
        Event::DeleteCharEOF => true,
        Event::AddCharCmd(_) => true,
        Event::DeleteCharCmd => true,
        _ => false,
    }
}

impl Model {
    pub open spec fn wf(self) -> bool {
        &&& self.item_pool.wf()
        &&& self.item_pool.spec_cursor() == self.item_pool@.len()
        &&& self.selection.wf()
        &&& (self.reader_control matches Some(rc) ==> !rc.killed)
        &&& (self.matcher_control matches Some(mc) ==> !mc.killed && mc.stopped
            && mc.num_processed <= self.item_pool@.len())
        &&& self.cmd@ == interpolate(self.query.base_cmd@, self.query.cmd_query@)
        &&& self.cur_query@ == self.query.fquery@
    }

    /// Build the model from its configuration and the resolved default
    /// source command. The reader is not yet running: `start` launches it.
    pub fn new(options: Options, default_cmd: Vec<char>) -> (r: Model)
        ensures
            r.wf(),
            r.query.base_cmd@ == (match options.cmd {
                Some(c) => c@,
                None => default_cmd@,
            }),
            r.query.fquery@ == options.query@,
            r.query.cmd_query@ == options.cmd_query@,
            r.selection.items@.len() == 0,
            r.selection.multi == options.multi,
            r.item_pool@.len() == 0,
            r.mode == MatcherMode::Fuzzy,
            r.reader_control is None,
            r.matcher_control is None,
            r.clear_strategy == ClearStrategy::DontClear,
            r.preview == (match options.preview_window {
                Some(s) => preview_window_of(s@),
                None => default_preview_window(),
            }),
            r.preview_hidden == !(match options.preview_window {
                Some(s) => preview_window_of(s@),
                None => default_preview_window(),
            }).shown,
            (r.preview_cmd is Some <==> options.preview is Some),
            r.preview_cmd matches Some(p) ==> options.preview matches Some(q) && p@ == q@,
            r.reverse == options.reverse,
            r.inline_info == options.inline_info,
            r.delimiter@ == (match options.delimiter {
                Some(d) => if regex_pattern_valid(d@) {
                    d@
                } else {
                    default_delimiter()
                },
                None => default_delimiter(),
            }),
            r.header.lines@ == options.header_lines@,
            r.cmd@ == interpolate(r.query.base_cmd@, options.cmd_query@),
            r.cur_query@ == options.query@,
    {
        let base_cmd = match options.cmd {
            Some(c) => c,
            None => default_cmd,
        };
        let query = Query::new(base_cmd, options.query, options.cmd_query);
        let delimiter = match options.delimiter {
            Some(d) => {
                let ds = chars_to_string(&d);
                if crate::matcher::regex_compiles(ds.as_str()) {
                    d
                } else {
                    default_delimiter_exec()
                }
            },
            None => default_delimiter_exec(),
        };
        let preview = match options.preview_window {
            Some(s) => parse_preview(&s),
            None => {
                PreviewWindow {
                    direction: crate::layout::Direction::Right,
                    size: crate::layout::Size::Percent(50),
                    wrap: false,
                    shown: true,
                }
            },
        };
        let cmd = query.get_cmd();
        let cur_query = query.get_query();
        Model {
            query,
            selection: Selection::new(options.multi),
            item_pool: ItemPool::new(),
            header: Header::with_lines(options.header_lines),
            mode: MatcherMode::Fuzzy,
            reader_control: None,
            matcher_control: None,
            clear_strategy: ClearStrategy::DontClear,
            preview_hidden: !preview.shown,
            preview_cmd: options.preview,
            preview,
            reverse: options.reverse,
            inline_info: options.inline_info,
            delimiter,
            cmd,
            cur_query,
        }
    }

    /// Launch the reader for the current command.
    pub fn start_reader(&mut self)
        requires
            old(self).wf(),
        ensures
            final(self).wf(),
            final(self).reader_control matches Some(rc) && rc.cmd@ == old(self).cmd@
                && rc.staged@.len() == 0 && !rc.processed && !rc.killed,
            *final(self) == (Model {
                reader_control: final(self).reader_control,
                ..*old(self)
            }),
    {
        let old_rc = self.reader_control.take();
        match old_rc {
            Some(mut rc) => rc.kill(),
            None => {},
        }
        let cmd = clone_chars(&self.cmd);
        self.reader_control = Some(ReaderControl::start(cmd));
    }

    /// Kill any running matcher; drain the reader's staging into the pool;
    /// launch a matcher over the pool's unseen tail under the current query
    /// and mode.
    fn restart_matcher(&mut self)
        requires
            old(self).item_pool.wf(),
            old(self).selection.wf(),
            old(self).reader_control matches Some(rc) ==> !rc.killed,
        ensures
            final(self).item_pool.wf(),
            final(self).item_pool@ == old(self).item_pool@ + reader_staged_texts(*old(self)),
            final(self).item_pool.spec_cursor() == final(self).item_pool@.len(),
            same_reader_run(old(self).reader_control, final(self).reader_control),
            final(self).matcher_control matches Some(mc) && {
                &&& matched_ok(
                    mc.matched@,
                    final(self).item_pool@,
                    old(self).item_pool.spec_cursor(),
                    final(self).item_pool@.len() as int,
                    old(self).mode,
                    old(self).query.fquery@,
                )
                &&& mc.stopped
                &&& !mc.killed
                &&& mc.num_matched == mc.matched@.len()
                &&& mc.num_processed == final(self).item_pool@.len()
                    - old(self).item_pool.spec_cursor()
            },
            final(self).query == old(self).query,
            final(self).selection == old(self).selection,
            final(self).clear_strategy == old(self).clear_strategy,
            final(self).mode == old(self).mode,
            final(self).preview_hidden == old(self).preview_hidden,
            final(self).preview_cmd == old(self).preview_cmd,
            final(self).preview == old(self).preview,
            final(self).reverse == old(self).reverse,
            final(self).inline_info == old(self).inline_info,
            final(self).delimiter == old(self).delimiter,
            final(self).cmd == old(self).cmd,
            final(self).cur_query == old(self).cur_query,
            final(self).header == old(self).header,
    {
        let old_mc = self.matcher_control.take();
        match old_mc {
            Some(mut mc) => mc.kill(),
            None => {},
        }
        let rc_opt = self.reader_control.take();
        match rc_opt {
            Some(mut rc) => {
                let mut batch = rc.take();
                self.item_pool.append(&mut batch);
                self.reader_control = Some(rc);
            },
            None => {
                proof {
                    assert(self.item_pool@ =~= old(self).item_pool@
                        + reader_staged_texts(*old(self)));
                }
            },
        }
        let q = self.query.get_query();
        let mc = run_matcher(&q, &mut self.item_pool, self.mode);
        self.matcher_control = Some(mc);
    }

    /// The item the previewer should show: the one under the cursor, when a
    /// previewer is configured and the pane is visible.
    pub fn current_preview_item(&self) -> (r: Option<Item>)
        requires
            self.wf(),
        ensures
            r is Some <==> (!self.preview_hidden && self.preview_cmd is Some
                && self.selection.items@.len() > 0),
            r is Some ==> (r->0)@
                == self.selection.items@[self.selection.cursor as int].item@,
    {
        if !self.preview_hidden && self.preview_cmd.is_some() {
            self.selection.get_current_item()
        } else {
            None
        }
    }

    /// The status-bar snapshot for this tick.
    pub fn status(&self, time_millis: u64) -> (r: StatusInfo)
        requires
            self.wf(),
        ensures
            r.total == self.item_pool@.len(),
            r.matched == {
                let added = self.selection.items@.len() + (match self.matcher_control {
                    Some(mc) => mc.num_matched as int,
                    None => 0int,
                });
                if added <= usize::MAX {
                    added
                } else {
                    usize::MAX as int
                }
            },
            r.processed == (match self.matcher_control {
                Some(mc) => mc.num_processed as int,
                None => self.item_pool@.len() as int,
            }),
            r.processed <= r.total,
            r.matcher_running == (self.matcher_control is Some),
            r.multi_selection == self.selection.multi,
            r.selected == self.selection.chosen@.len(),
            r.current_item_idx == self.selection.cursor,
            r.reading == (self.reader_control matches Some(rc) && !rc.processed),
            r.time_millis == time_millis,
            r.matcher_mode == self.mode,
            r.inline_info == self.inline_info,
    {
        let total = self.item_pool.len();
        let (matched_extra, processed, running): (usize, usize, bool) = match &self.matcher_control {
            Some(mc) => (mc.get_num_matched(), mc.get_num_processed(), true),
            None => (0, total, false),
        };
        let opts = self.selection.num_options();
        let matched = if opts <= usize::MAX - matched_extra {
            opts + matched_extra
        } else {
            usize::MAX
        };
        let reading = match &self.reader_control {
            Some(rc) => !rc.is_processed(),
            None => false,
        };
        StatusInfo {
            total,
            matched,
            processed,
            matcher_running: running,
            multi_selection: self.selection.is_multi_selection(),
            selected: self.selection.get_num_selected(),
            current_item_idx: self.selection.get_current_item_idx(),
            reading,
            time_millis,
            matcher_mode: self.mode,
            inline_info: self.inline_info,
        }
    }

    /// Compose this tick's frame.
    pub fn frame(&self) -> (r: FrameLayout)
        ensures
            r.main@ == crate::layout::main_panes(
                self.reverse,
                self.inline_info,
                self.header.lines@.len() == 0,
            ),
            r.preview is Some <==> (!self.preview_hidden && self.preview_cmd is Some),
            (!self.preview_hidden && self.preview_cmd is Some) ==> {
                &&& r.preview->0.direction == self.preview.direction
                &&& r.preview->0.size == self.preview.size
                &&& r.preview->0.border == crate::layout::border_of(self.preview.direction)
            },
    {
        compose_frame(
            self.reverse,
            self.inline_info,
            self.header.is_empty(),
            !self.preview_hidden && self.preview_cmd.is_some(),
            self.preview.direction,
            self.preview.size,
        )
    }

    fn kill_workers(&mut self)
        ensures
            final(self).reader_control is None,
            final(self).matcher_control is None,
            *final(self) == (Model {
                reader_control: None,
                matcher_control: None,
                ..*old(self)
            }),
    {
        let rc = self.reader_control.take();
        match rc {
            Some(mut r0) => r0.kill(),
            None => {},
        }
        let mc = self.matcher_control.take();
        match mc {
            Some(mut m0) => m0.kill(),
            None => {},
        }
    }

    /// Absorb one event: mutate the state, and say whether the loop goes
    /// on, accepts with an output record, or aborts.
    #[verifier::rlimit(80)]
    pub fn handle_event(&mut self, ev: Event) -> (r: StepOutcome)
        requires
            old(self).wf(),
        ensures
            final(self).wf(),
            // the frame: fields that no event but its own ever moves
            final(self).selection.multi == old(self).selection.multi,
            final(self).preview == old(self).preview,
            final(self).preview_cmd == old(self).preview_cmd,
            final(self).reverse == old(self).reverse,
            final(self).inline_info == old(self).inline_info,
            final(self).delimiter == old(self).delimiter,
            final(self).header == old(self).header,
            final(self).query.base_cmd@ == old(self).query.base_cmd@,
            !(ev matches Event::RotateMode) ==> final(self).mode == old(self).mode,
            !(ev matches Event::TogglePreview) ==> final(self).preview_hidden == old(self).preview_hidden,
            // the two query texts move exactly by their editing events
            final(self).query.fquery@ == query_step(old(self).query.fquery@, ev),
            final(self).query.cmd_query@ == cmd_query_step(old(self).query.cmd_query@, ev),
            // the match list changes only when a heartbeat absorbs a batch;
            // the chosen set and the cursor move only by their own events
            !(ev matches Event::HeartBeat) ==> final(self).selection.items@ == old(self).selection.items@,
            (!(ev matches Event::ToggleSelect) && !(ev matches Event::HeartBeat)) ==> final(self).selection.chosen@ == old(self).selection.chosen@,
            (!(ev matches Event::CursorUp) && !(ev matches Event::CursorDown) && !(
            ev matches Event::HeartBeat)) ==> final(self).selection.cursor == old(self).selection.cursor,
            (!(ev matches Event::HeartBeat) && !sets_strategy(ev)) ==> final(self).clear_strategy
                == old(self).clear_strategy,
            // the loop terminates exactly on accept, abort, and backspace on
            // an empty query
            (r matches StepOutcome::Accepted(_)) <==> ev matches Event::Accept(_),
            (r is Aborted) <==> (ev matches Event::Abort || (ev matches Event::DeleteCharEOF
                && old(self).query.fquery@.len() == 0)),
            // a pending strategy appears only through the events that set one
            (old(self).clear_strategy == ClearStrategy::DontClear && !sets_strategy(ev))
                ==> final(self).clear_strategy == ClearStrategy::DontClear,
            // toggling the preview flips one flag and nothing else
            ev matches Event::TogglePreview ==> *final(self) == toggle_preview_spec(*old(self)),
            // rotating the mode cycles it and rescans the whole pool
            ev matches Event::RotateMode ==> {
                &&& final(self).mode == rotate_mode(old(self).mode)
                &&& final(self).clear_strategy == ClearStrategy::Clear
                &&& final(self).item_pool@ == old(self).item_pool@ + reader_staged_texts(
                    *old(self),
                )
                &&& same_reader_run(old(self).reader_control, final(self).reader_control)
                &&& final(self).matcher_control matches Some(mc) && matched_ok(
                    mc.matched@,
                    final(self).item_pool@,
                    0,
                    final(self).item_pool@.len() as int,
                    rotate_mode(old(self).mode),
                    old(self).query.fquery@,
                )
                &&& final(self).query.fquery@ == old(self).query.fquery@
            },
            // backspace on an empty query aborts and kills both workers
            (ev matches Event::DeleteCharEOF && old(self).query.fquery@.len() == 0) ==> {
                &&& r is Aborted
                &&& final(self).reader_control is None
                &&& final(self).matcher_control is None
            },
            // accept returns the queries and the selected items as they stand
            ev matches Event::Accept(k) ==> (r matches StepOutcome::Accepted(out) && {
                &&& out.accept_key == k
                &&& out.query@ == old(self).query.fquery@
                &&& out.cmd@ == old(self).query.cmd_query@
                &&& texts_of(out.selected_items@) == old(self).selection.spec_selected_texts()
                &&& final(self).selection == old(self).selection
                &&& final(self).reader_control is None
                &&& final(self).matcher_control is None
            }),
            ev matches Event::Abort ==> (r is Aborted && final(self).reader_control is None
                && final(self).matcher_control is None),
            // any terminating outcome leaves no live worker behind
            r matches StepOutcome::Accepted(_) ==> final(self).reader_control is None
                && final(self).matcher_control is None,
            r is Aborted ==> final(self).reader_control is None
                && final(self).matcher_control is None,
            // a filter-query change restarts the matcher over the whole pool,
            // but never the reader
            ev matches Event::AddChar(c) ==> {
                &&& final(self).query.fquery@ == old(self).query.fquery@.push(c)
                &&& final(self).cmd@ == old(self).cmd@
                &&& same_reader_run(old(self).reader_control, final(self).reader_control)
                &&& final(self).item_pool@ == old(self).item_pool@ + reader_staged_texts(
                    *old(self),
                )
                &&& final(self).clear_strategy == ClearStrategy::Clear
                &&& final(self).matcher_control matches Some(mc) && matched_ok(
                    mc.matched@,
                    final(self).item_pool@,
                    0,
                    final(self).item_pool@.len() as int,
                    old(self).mode,
                    old(self).query.fquery@.push(c),
                )
                &&& final(self).selection.items@ == old(self).selection.items@
            },
            ((ev matches Event::DeleteChar || ev matches Event::DeleteCharEOF)
                && old(self).query.fquery@.len() > 0) ==> {
                &&& final(self).query.fquery@ == old(self).query.fquery@.drop_last()
                &&& final(self).cmd@ == old(self).cmd@
                &&& same_reader_run(old(self).reader_control, final(self).reader_control)
                &&& final(self).clear_strategy == ClearStrategy::Clear
                &&& final(self).matcher_control matches Some(mc) && matched_ok(
                    mc.matched@,
                    final(self).item_pool@,
                    0,
                    final(self).item_pool@.len() as int,
                    old(self).mode,
                    old(self).query.fquery@.drop_last(),
                )
            },
            (ev matches Event::DeleteChar && old(self).query.fquery@.len() == 0) ==> {
                &&& final(self).query.fquery@ == old(self).query.fquery@
                &&& final(self).item_pool@ == old(self).item_pool@
                &&& final(self).clear_strategy == old(self).clear_strategy
                &&& final(self).selection.items@ == old(self).selection.items@
            },
            // a command-query change that renders a new command clears the
            // pool and restarts the reader before the matcher relaunches
            ev matches Event::AddCharCmd(c) ==> {
                let newcmd = interpolate(
                    old(self).query.base_cmd@,
                    old(self).query.cmd_query@.push(c),
                );
                &&& final(self).query.cmd_query@ == old(self).query.cmd_query@.push(c)
                &&& final(self).query.fquery@ == old(self).query.fquery@
                &&& final(self).cmd@ == newcmd
                &&& (newcmd != old(self).cmd@ ==> {
                    &&& final(self).reader_control matches Some(rc) && rc.cmd@ == newcmd
                        && rc.staged@.len() == 0 && !rc.processed
                    &&& final(self).item_pool@.len() == 0
                    &&& final(self).clear_strategy == ClearStrategy::ClearIfNotNull
                    &&& final(self).matcher_control matches Some(mc) && mc.matched@.len() == 0
                })
                &&& (newcmd == old(self).cmd@ ==> {
                    &&& same_reader_run_kept(
                        old(self).reader_control,
                        final(self).reader_control,
                    )
                    &&& final(self).item_pool@ == old(self).item_pool@
                    &&& final(self).clear_strategy == old(self).clear_strategy
                })
            },
            ev matches Event::DeleteCharCmd ==> {
                let newq = if old(self).query.cmd_query@.len() > 0 {
                    old(self).query.cmd_query@.drop_last()
                } else {
                    old(self).query.cmd_query@
                };
                let newcmd = interpolate(old(self).query.base_cmd@, newq);
                &&& final(self).query.cmd_query@ == newq
                &&& final(self).cmd@ == newcmd
                &&& (newcmd != old(self).cmd@ ==> {
                    &&& final(self).reader_control matches Some(rc) && rc.cmd@ == newcmd
                        && rc.staged@.len() == 0 && !rc.processed
                    &&& final(self).item_pool@.len() == 0
                    &&& final(self).clear_strategy == ClearStrategy::ClearIfNotNull
                    &&& final(self).matcher_control matches Some(mc) && mc.matched@.len() == 0
                })
            },
            // the heartbeat absorbs a finished matcher under the pending
            // strategy, then relaunches one exactly when unseen items wait
            ev matches Event::HeartBeat ==> (old(self).matcher_control matches Some(mc) ==> {
                let blen = mc.matched@.len() as int;
                &&& final(self).clear_strategy == strategy_after(old(self).clear_strategy, blen)
                &&& (strategy_clears(old(self).clear_strategy, blen) ==> {
                    &&& final(self).selection.items@.len() == blen
                    &&& (forall|e: crate::matcher::MatchedItem|
                        #[trigger] final(self).selection.items@.contains(e)
                            <==> mc.matched@.contains(e))
                    &&& final(self).selection.cursor == 0
                    &&& final(self).selection.chosen@.len() == 0
                })
                &&& (!strategy_clears(old(self).clear_strategy, blen) ==> {
                    &&& final(self).selection.items@.len() == old(self).selection.items@.len()
                        + blen
                    &&& (forall|e: crate::matcher::MatchedItem|
                        #[trigger] final(self).selection.items@.contains(e)
                            <==> (old(self).selection.items@.contains(e)
                            || mc.matched@.contains(e)))
                    &&& final(self).selection.cursor == old(self).selection.cursor
                    &&& final(self).selection.chosen@ == old(self).selection.chosen@
                })
            }),
            (ev matches Event::HeartBeat && old(self).matcher_control is None) ==> {
                &&& final(self).selection.items@ == old(self).selection.items@
                &&& final(self).selection.cursor == old(self).selection.cursor
                &&& final(self).selection.chosen@ == old(self).selection.chosen@
                &&& final(self).clear_strategy == old(self).clear_strategy
            },
            ev matches Event::HeartBeat ==> {
                &&& (final(self).matcher_control is Some <==> reader_staged_texts(
                    *old(self),
                ).len() > 0)
                // a relaunched matcher scores the newly arrived items under
                // the query and mode that stand now
                &&& (final(self).matcher_control matches Some(mc2) ==> matched_ok(
                    mc2.matched@,
                    final(self).item_pool@,
                    old(self).item_pool@.len() as int,
                    final(self).item_pool@.len() as int,
                    old(self).mode,
                    old(self).query.fquery@,
                ))
                &&& final(self).item_pool@ == old(self).item_pool@ + reader_staged_texts(
                    *old(self),
                )
                &&& final(self).query.fquery@ == old(self).query.fquery@
            },
            // reader progress only stages items; nothing else moves
            ev matches Event::ReaderPush(lines) ==> {
                &&& (old(self).reader_control matches Some(rc)
                    ==> final(self).reader_control matches Some(rc2)
                    && texts_of(rc2.staged@) == texts_of(rc.staged@) + lines_texts(lines@)
                    && rc2.cmd@ == rc.cmd@ && rc2.processed == rc.processed)
                &&& (old(self).reader_control is None ==> final(self).reader_control is None)
                &&& final(self).item_pool@ == old(self).item_pool@
                &&& final(self).selection.items@ == old(self).selection.items@
                &&& final(self).clear_strategy == old(self).clear_strategy
            },
            ev matches Event::ReaderDone ==> {
                &&& (old(self).reader_control matches Some(rc)
                    ==> final(self).reader_control matches Some(rc2)
                    && rc2 == (ReaderControl { processed: true, ..rc }))
                &&& final(self).item_pool@ == old(self).item_pool@
                &&& final(self).selection.items@ == old(self).selection.items@
            },
            // cursor motion and toggling move only the selection
            (ev matches Event::CursorDown) ==> {
                &&& final(self).selection.cursor == (
                    if old(self).selection.cursor + 1int < old(self).selection.items@.len() {
                        old(self).selection.cursor + 1int
                    } else {
                        old(self).selection.cursor as int
                    }
                )
                &&& final(self).selection.items@ == old(self).selection.items@
            },
            (ev matches Event::CursorUp) ==> {
                &&& final(self).selection.cursor == (
                    if old(self).selection.cursor > 0 {
                        old(self).selection.cursor - 1int
                    } else {
                        0int
                    }
                )
                &&& final(self).selection.items@ == old(self).selection.items@
            },
    {
        match &ev {
            Event::HeartBeat => {
                let mc_opt = self.matcher_control.take();
                match mc_opt {
                    Some(ctrl) => {
                        let matched = ctrl.into_items();
                        let nonempty = matched.len() > 0;
                        match self.clear_strategy {
                            ClearStrategy::DontClear => {},
                            ClearStrategy::Clear => {
                                self.selection.clear();
                                self.clear_strategy = ClearStrategy::DontClear;
                            },
                            ClearStrategy::ClearIfNotNull => {
                                if nonempty {
                                    self.selection.clear();
                                    self.clear_strategy = ClearStrategy::DontClear;
                                }
                            },
                        }
                        self.selection.append_sorted_items(matched);
                    },
                    None => {},
                }
                let has_new = match &self.reader_control {
                    Some(rc) => rc.staged.len() > 0,
                    None => false,
                };
                if has_new {
                    self.restart_matcher();
                } else {
                    proof {
                        assert(self.item_pool@ =~= old(self).item_pool@ + reader_staged_texts(
                            *old(self),
                        ));
                    }
                }
            },
            Event::Accept(k) => {
                let accept_key = match k {
                    Some(s) => Some(s.clone()),
                    None => None,
                };
                self.kill_workers();
                let out = SkimOutput {
                    accept_key,
                    query: chars_to_string(&self.query.fquery),
                    cmd: chars_to_string(&self.query.cmd_query),
                    selected_items: self.selection.get_selected_items(),
                };
                return StepOutcome::Accepted(out);
            },
            Event::Abort => {
                self.kill_workers();
                return StepOutcome::Aborted;
            },
            Event::DeleteCharEOF => {
                if self.query.fquery.len() == 0 {
                    self.kill_workers();
                    return StepOutcome::Aborted;
                }
            },
            Event::TogglePreview => {
                self.preview_hidden = !self.preview_hidden;
            },
            Event::RotateMode => {
                self.mode = match self.mode {
                    MatcherMode::Fuzzy => MatcherMode::Regex,
                    MatcherMode::Regex => MatcherMode::Fuzzy,
                };
                let mc_opt = self.matcher_control.take();
                match mc_opt {
                    Some(mut m0) => m0.kill(),
                    None => {},
                }
                self.clear_strategy = ClearStrategy::Clear;
                self.item_pool.reset();
                self.restart_matcher();
            },
            Event::ReaderPush(lines) => {
                let rc_opt = self.reader_control.take();
                match rc_opt {
                    Some(mut rc) => {
                        rc.push_lines(lines);
                        self.reader_control = Some(rc);
                    },
                    None => {},
                }
            },
            Event::ReaderDone => {
                let rc_opt = self.reader_control.take();
                match rc_opt {
                    Some(mut rc) => {
                        rc.set_processed();
                        self.reader_control = Some(rc);
                    },
                    None => {},
                }
            },
            _ => {},
        }
        // dispatch to the sub-components, first claimer wins
        if self.header.accept_event(&ev) {
            // the header is static; nothing to do
        }
        if self.query.accept_event(&ev) {
            self.query.handle(&ev);
            let new_query = self.query.get_query();
            let new_cmd = self.query.get_cmd();
            if !chars_eq(&new_cmd, &self.cmd) {
                self.cmd = new_cmd;
                let rc = self.reader_control.take();
                match rc {
                    Some(mut r0) => r0.kill(),
                    None => {},
                }
                let mc = self.matcher_control.take();
                match mc {
                    Some(mut m0) => m0.kill(),
                    None => {},
                }
                self.item_pool.clear();
                self.clear_strategy = ClearStrategy::ClearIfNotNull;
                let fresh = ReaderControl::start(clone_chars(&self.cmd));
                self.reader_control = Some(fresh);
                self.restart_matcher();
                proof {
                    assert(self.item_pool@.len() == 0);
                    let mc = self.matcher_control->0;
                    if mc.matched@.len() > 0 {
                        assert(0 <= mc.matched@[0].idx < self.item_pool@.len());
                        assert(false);
                    }
                }
            } else if !chars_eq(&new_query, &self.cur_query) {
                self.cur_query = new_query;
                let mc = self.matcher_control.take();
                match mc {
                    Some(mut m0) => m0.kill(),
                    None => {},
                }
                self.clear_strategy = ClearStrategy::Clear;
                self.item_pool.reset();
                self.restart_matcher();
            }
        }
        if self.selection.accept_event(&ev) {
            self.selection.handle(&ev);
        }
        StepOutcome::Continue
    }

    /// Run the loop: launch the reader, then absorb events in order until
    /// one accepts or aborts; a closed channel counts as an abort.
    #[verifier::loop_isolation(false)]
    pub fn start(&mut self, events: Vec<Event>) -> (r: Option<SkimOutput>)
        requires
            old(self).wf(),
        ensures
            final(self).wf(),
            // the run accepts exactly when the event queue does, and then
            // hands out the key label and the query texts standing at the
            // accept
            (r is Some) <==> run_outcome(
                old(self).query.fquery@,
                old(self).query.cmd_query@,
                events@,
            ) is Some,
            r matches Some(out) ==> (run_outcome(
                old(self).query.fquery@,
                old(self).query.cmd_query@,
                events@,
            ) matches Some(t) && {
                &&& out.accept_key == t.0
                &&& out.query@ == t.1
                &&& out.cmd@ == t.2
            }),
            r is Some ==> exists|i: int| 0 <= i < events@.len() && #[trigger] is_accept(
                events@[i],
            ),
            // whichever way the run ends, both workers are dead: a closed
            // channel counts as an abort
            final(self).reader_control is None,
            final(self).matcher_control is None,
    {
        self.start_reader();
        let ghost q0 = old(self).query.fquery@;
        let ghost cq0 = old(self).query.cmd_query@;
        let ghost evs0 = events@;
        let mut rest = events;
        while rest.len() > 0
            invariant
                self.wf(),
                run_outcome(q0, cq0, evs0) == run_outcome(
                    self.query.fquery@,
                    self.query.cmd_query@,
                    rest@,
                ),
            decreases rest.len(),
        {
            let ghost prev_rest = rest@;
            let ghost qb = self.query.fquery@;
            let ghost cqb = self.query.cmd_query@;
            let ev = rest.remove(0);
            let ghost gev = ev;
            proof {
                assert(gev == prev_rest[0]);
                assert(rest@ =~= prev_rest.skip(1));
            }
            let outcome = self.handle_event(ev);
            match outcome {
                StepOutcome::Continue => {
                    proof {
                        assert(!(gev matches Event::Accept(_)));
                        assert(!(gev matches Event::Abort));
                        assert(gev matches Event::DeleteCharEOF ==> qb.len() > 0);
                        assert(run_outcome(qb, cqb, prev_rest) == run_outcome(
                            query_step(qb, gev),
                            cmd_query_step(cqb, gev),
                            prev_rest.skip(1),
                        ));
                    }
                },
                StepOutcome::Accepted(out) => {
                    proof {
                        assert(gev matches Event::Accept(_));
                        let k2 = gev->Accept_0;
                        assert(run_outcome(qb, cqb, prev_rest) == Some((k2, qb, cqb)));
                        assert(run_outcome(q0, cq0, evs0) is Some);
                        lemma_run_outcome_has_accept(q0, cq0, evs0);
                    }
                    return Some(out);
                },
                StepOutcome::Aborted => {
                    proof {
                        assert(gev matches Event::Abort || (gev matches Event::DeleteCharEOF
                            && qb.len() == 0));
                        assert(run_outcome(qb, cqb, prev_rest) is None);
                    }
                    return None;
                },
            }
        }
        proof {
            assert(rest@.len() == 0);
            assert(run_outcome(q0, cq0, evs0) is None);
        }
        self.kill_workers();
        None
    }
}

/// An unchanged reader handle: same command, progress and staging.
pub open spec fn same_reader_run_kept(a: Option<ReaderControl>, b: Option<ReaderControl>) -> bool {
    &&& (a is Some <==> b is Some)
    &&& (a matches Some(ra) ==> b matches Some(rb) && rb.cmd@ == ra.cmd@ && rb.processed
        == ra.processed && !rb.killed && texts_of(rb.staged@) == texts_of(ra.staged@))
}

/// After a filter-query change and the next heartbeat, the selection's
/// matches are derived from the current query: the batch the change
/// launched covers the whole pool under that query, and a consumed `Clear`
/// strategy makes the selection hold exactly that batch.
pub proof fn lemma_selection_from_current_query(
    batch: Seq<crate::matcher::MatchedItem>,
    sel: Seq<crate::matcher::MatchedItem>,
    pool: Seq<Seq<char>>,
    mode: MatcherMode,
    q: Seq<char>,
)
    requires
        matched_ok(batch, pool, 0, pool.len() as int, mode, q),
        forall|e: crate::matcher::MatchedItem| #[trigger] sel.contains(e) <==> batch.contains(e),
    ensures
        forall|e: crate::matcher::MatchedItem| #[trigger] sel.contains(e)
            ==> 0 <= e.idx < pool.len() && e.item@ == pool[e.idx as int]
                && crate::matcher::item_matches(mode, q, pool[e.idx as int]),
        forall|idx: int|
            0 <= idx < pool.len() && crate::matcher::item_matches(mode, q, #[trigger] pool[idx])
                ==> exists|e: crate::matcher::MatchedItem| #[trigger] sel.contains(e) && e.idx == idx,
{
    assert forall|e: crate::matcher::MatchedItem| #[trigger] sel.contains(e)
        implies 0 <= e.idx < pool.len() && e.item@ == pool[e.idx as int]
            && crate::matcher::item_matches(mode, q, pool[e.idx as int]) by {
        assert(batch.contains(e));
        let j = choose|j: int| 0 <= j < batch.len() && batch[j] == e;
    };
    assert forall|idx: int|
        0 <= idx < pool.len() && crate::matcher::item_matches(mode, q, #[trigger] pool[idx])
            implies exists|e: crate::matcher::MatchedItem| #[trigger] sel.contains(e) && e.idx
            == idx by {
        let j = choose|j: int| 0 <= j < batch.len() && #[trigger] batch[j].idx == idx;
        assert(batch.contains(batch[j]));
        assert(sel.contains(batch[j]));
    };
}

} // verus!
