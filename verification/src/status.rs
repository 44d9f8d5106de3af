//! The one-line status bar: a read-only view over the model's counters,
//! rendered as text.

use vstd::prelude::*;
use crate::matcher::MatcherMode;
use crate::text::{chars_to_string, dec_rep, u64_to_chars};

verus! {

/// A snapshot of everything the status bar shows.
pub struct StatusInfo {
    pub total: usize,
    pub matched: usize,
    pub processed: usize,
    pub matcher_running: bool,
    pub multi_selection: bool,
    pub selected: usize,
    pub current_item_idx: usize,
    pub reading: bool,
    pub time_millis: u64,
    pub matcher_mode: MatcherMode,
    pub inline_info: bool,
}

/// The spinner cycles through eight frames, one every 200 milliseconds.
pub open spec fn spinner_char(ms: int) -> char {
    let idx = (ms / 200) % 8;
    if idx == 0 { '-' }
    else if idx == 1 { '\\' }
    else if idx == 2 { '|' }
    else if idx == 3 { '/' }
    else if idx == 4 { '-' }
    else if idx == 5 { '\\' }
    else if idx == 6 { '|' }
    else { '/' }
}

/// The mode tag shown after the counters: `RE` under regex, nothing under
/// fuzzy matching.
pub open spec fn mode_label(mode: MatcherMode) -> Seq<char> {
    match mode {
        MatcherMode::Fuzzy => Seq::<char>::empty(),
        MatcherMode::Regex => seq!['R', 'E'],
    }
}

/// The whole status line: an inline marker, the spinner while reading, the
/// matched/total counters, the mode tag, the scan percentage while the
/// matcher runs, and the multi-select count.
pub open spec fn status_line_spec(st: StatusInfo) -> Seq<char> {
    (if st.inline_info { seq![' ', '<'] } else { Seq::<char>::empty() })
        + seq![if st.reading { spinner_char(st.time_millis as int) } else { ' ' }]
        + seq![' '] + dec_rep(st.matched as int) + seq!['/'] + dec_rep(st.total as int)
        + (if mode_label(st.matcher_mode).len() > 0 {
            seq!['/'] + mode_label(st.matcher_mode)
        } else {
            Seq::<char>::empty()
        })
        + (if st.matcher_running && st.processed * 20 > st.total {
            seq![' ', '('] + dec_rep(st.processed * 100 as int / st.total as int) + seq!['%', ')', ' ']
        } else {
            Seq::<char>::empty()
        })
        + (if st.multi_selection && st.selected > 0 {
            seq![' ', '['] + dec_rep(st.selected as int) + seq![']']
        } else {
            Seq::<char>::empty()
        })
}

/// The cursor indicator drawn at the right edge: the current item index
/// between single spaces.
pub open spec fn cursor_line_spec(st: StatusInfo) -> Seq<char> {
    seq![' '] + dec_rep(st.current_item_idx as int) + seq![' ']
}

fn spinner_char_exec(ms: u64) -> (r: char)
    ensures
        r == spinner_char(ms as int),
{
    let idx = (ms / 200) % 8;
    if idx == 0 { '-' }
    else if idx == 1 { '\\' }
    else if idx == 2 { '|' }
    else if idx == 3 { '/' }
    else if idx == 4 { '-' }
    else if idx == 5 { '\\' }
    else if idx == 6 { '|' }
    else { '/' }
}

impl StatusInfo {
    /// Render the status line. The processed counter never exceeds the item
    /// total, since only pool items are ever scanned.
    #[verifier::rlimit(60)]
    pub fn status_line(&self) -> (r: String)
        requires
            self.processed <= self.total,
        ensures
            r@ == status_line_spec(*self),
    {
        let ghost st = *self;
        let ghost a = (if st.inline_info { seq![' ', '<'] } else { Seq::<char>::empty() });
        let ghost b = a + seq![if st.reading { spinner_char(st.time_millis as int) } else { ' ' }];
        let ghost c = b + seq![' '] + dec_rep(st.matched as int) + seq!['/'] + dec_rep(
            st.total as int,
        );
        let ghost d = c + (if mode_label(st.matcher_mode).len() > 0 {
            seq!['/'] + mode_label(st.matcher_mode)
        } else {
            Seq::<char>::empty()
        });
        let ghost e = d + (if st.matcher_running && st.processed * 20 > st.total {
            seq![' ', '('] + dec_rep(st.processed * 100 as int / st.total as int) + seq!['%', ')', ' ']
        } else {
            Seq::<char>::empty()
        });
        let ghost f = e + (if st.multi_selection && st.selected > 0 {
            seq![' ', '['] + dec_rep(st.selected as int) + seq![']']
        } else {
            Seq::<char>::empty()
        });
        let mut out: Vec<char> = Vec::new();
        if self.inline_info {
            out.push(' ');
            out.push('<');
        }
        proof {
            assert(out@ =~= a);
        }
        if self.reading {
            out.push(spinner_char_exec(self.time_millis));
        } else {
            out.push(' ');
        }
        proof {
            assert(out@ =~= b);
        }
        out.push(' ');
        let mut part = u64_to_chars(self.matched as u64);
        out.append(&mut part);
        out.push('/');
        let mut part2 = u64_to_chars(self.total as u64);
        out.append(&mut part2);
        proof {
            assert(out@ =~= c);
        }
        match self.matcher_mode {
            MatcherMode::Regex => {
                out.push('/');
                out.push('R');
                out.push('E');
            },
            MatcherMode::Fuzzy => {},
        }
        proof {
            assert(out@ =~= d);
        }
        if self.matcher_running && (self.processed as u128) * 20 > (self.total as u128) {
            proof {
                assert(self.total > 0);
                assert(self.processed * 100 as int / self.total as int <= 100) by {
                    assert(self.processed <= self.total);
                    assert(self.processed * 100 <= self.total * 100) by (nonlinear_arith)
                        requires self.processed <= self.total;
                    assert(self.total * 100 as int / self.total as int == 100) by (nonlinear_arith)
                        requires self.total > 0;
                    assert(self.processed * 100 as int / self.total as int
                        <= self.total * 100 as int / self.total as int) by (nonlinear_arith)
                        requires self.processed * 100 <= self.total * 100 && self.total > 0;
                };
            }
            let pct = ((self.processed as u128) * 100 / (self.total as u128)) as u64;
            proof {
                assert(pct == self.processed * 100 as int / self.total as int);
            }
            out.push(' ');
            out.push('(');
            let mut part3 = u64_to_chars(pct);
            out.append(&mut part3);
            out.push('%');
            out.push(')');
            out.push(' ');
        }
        proof {
            assert(out@ =~= e);
        }
        if self.multi_selection && self.selected > 0 {
            out.push(' ');
            out.push('[');
            let mut part4 = u64_to_chars(self.selected as u64);
            out.append(&mut part4);
            out.push(']');
        }
        proof {
            assert(out@ =~= f);
            assert(status_line_spec(st) == f);
        }
        chars_to_string(&out)
    }

    /// Render the cursor indicator.
    pub fn cursor_line(&self) -> (r: String)
        ensures
            r@ == cursor_line_spec(*self),
    {
        let mut out: Vec<char> = Vec::new();
        out.push(' ');
        let mut part = u64_to_chars(self.current_item_idx as u64);
        out.append(&mut part);
        out.push(' ');
        proof {
            assert(out@ =~= cursor_line_spec(*self));
        }
        chars_to_string(&out)
    }
}

} // verus!
