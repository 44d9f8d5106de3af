//! Frame layout: the preview-window specification string, and the rules
//! composing each frame out of the selection, header, status and query rows
//! plus the optional preview pane.

use vstd::prelude::*;

verus! {

#[derive(Clone, Copy, PartialEq, Eq, Structural, Debug)]
pub enum Direction {
    Up,
    Down,
    Left,
    Right,
}

#[derive(Clone, Copy, PartialEq, Eq, Structural, Debug)]
pub enum Size {
    Percent(u32),
    Fixed(u32),
}

/// Which edge of the preview pane carries its single border: always the edge
/// adjacent to the main pane.
#[derive(Clone, Copy, PartialEq, Eq, Structural, Debug)]
pub enum BorderSide {
    Top,
    Bottom,
    Left,
    Right,
}

/// The parsed preview-window specification.
#[derive(Clone, Copy, PartialEq, Eq, Structural, Debug)]
pub struct PreviewWindow {
    pub direction: Direction,
    pub size: Size,
    pub wrap: bool,
    pub shown: bool,
}

/// The defaults: right side, half the screen, visible, no wrapping.
pub open spec fn default_preview_window() -> PreviewWindow {
    PreviewWindow { direction: Direction::Right, size: Size::Percent(50), wrap: false, shown: true }
}

pub open spec fn digit_val(c: char) -> int {
    if c == '0' { 0 }
    else if c == '1' { 1 }
    else if c == '2' { 2 }
    else if c == '3' { 3 }
    else if c == '4' { 4 }
    else if c == '5' { 5 }
    else if c == '6' { 6 }
    else if c == '7' { 7 }
    else if c == '8' { 8 }
    else if c == '9' { 9 }
    else { 10 }
}

pub open spec fn is_digit(c: char) -> bool {
    digit_val(c) < 10
}

/// The number written by a run of decimal digits.
pub open spec fn digits_val(t: Seq<char>) -> int
    decreases t.len(),
{
    if t.len() == 0 {
        0
    } else {
        digits_val(t.drop_last()) * 10 + digit_val(t.last())
    }
}

/// A run of at most nine digits: small enough that its value always fits.
pub open spec fn is_size_token(t: Seq<char>) -> bool {
    1 <= t.len() <= 9 && forall|i: int| 0 <= i < t.len() ==> is_digit(#[trigger] t[i])
}

/// A run of at most nine digits followed by a percent sign.
pub open spec fn is_pct_token(t: Seq<char>) -> bool {
    t.len() >= 2 && t.last() == '%' && is_size_token(t.drop_last())
}

pub open spec fn ci_is(c: char, up: char, low: char) -> bool {
    c == up || c == low
}

pub open spec fn is_word_up(t: Seq<char>) -> bool {
    t.len() == 2 && ci_is(t[0], 'U', 'u') && ci_is(t[1], 'P', 'p')
}

pub open spec fn is_word_down(t: Seq<char>) -> bool {
    t.len() == 4 && ci_is(t[0], 'D', 'd') && ci_is(t[1], 'O', 'o') && ci_is(t[2], 'W', 'w')
        && ci_is(t[3], 'N', 'n')
}

pub open spec fn is_word_left(t: Seq<char>) -> bool {
    t.len() == 4 && ci_is(t[0], 'L', 'l') && ci_is(t[1], 'E', 'e') && ci_is(t[2], 'F', 'f')
        && ci_is(t[3], 'T', 't')
}

pub open spec fn is_word_right(t: Seq<char>) -> bool {
    t.len() == 5 && ci_is(t[0], 'R', 'r') && ci_is(t[1], 'I', 'i') && ci_is(t[2], 'G', 'g')
        && ci_is(t[3], 'H', 'h') && ci_is(t[4], 'T', 't')
}

pub open spec fn is_word_hidden(t: Seq<char>) -> bool {
    t.len() == 6 && ci_is(t[0], 'H', 'h') && ci_is(t[1], 'I', 'i') && ci_is(t[2], 'D', 'd')
        && ci_is(t[3], 'D', 'd') && ci_is(t[4], 'E', 'e') && ci_is(t[5], 'N', 'n')
}

pub open spec fn is_word_wrap(t: Seq<char>) -> bool {
    t.len() == 4 && ci_is(t[0], 'W', 'w') && ci_is(t[1], 'R', 'r') && ci_is(t[2], 'A', 'a')
        && ci_is(t[3], 'P', 'p')
}

/// The effect of one colon-separated token on the accumulated specification.
/// Unknown words, and numeric tokens too long to be a size, change nothing.
pub open spec fn token_apply(st: PreviewWindow, t: Seq<char>) -> PreviewWindow {
    if t.len() == 0 {
        st
    } else if is_size_token(t) {
        PreviewWindow { size: Size::Percent(digits_val(t) as u32), ..st }
    } else if is_pct_token(t) {
        PreviewWindow { size: Size::Percent(digits_val(t.drop_last()) as u32), ..st }
    } else if is_digit(t[0]) {
        st
    } else if is_word_up(t) {
        PreviewWindow { direction: Direction::Up, ..st }
    } else if is_word_down(t) {
        PreviewWindow { direction: Direction::Down, ..st }
    } else if is_word_left(t) {
        PreviewWindow { direction: Direction::Left, ..st }
    } else if is_word_right(t) {
        PreviewWindow { direction: Direction::Right, ..st }
    } else if is_word_hidden(t) {
        PreviewWindow { shown: false, ..st }
    } else if is_word_wrap(t) {
        PreviewWindow { wrap: true, ..st }
    } else {
        st
    }
}

/// Apply the tokens left to right.
pub open spec fn parse_tokens(st: PreviewWindow, toks: Seq<Seq<char>>) -> PreviewWindow
    decreases toks.len(),
{
    if toks.len() == 0 {
        st
    } else {
        parse_tokens(token_apply(st, toks[0]), toks.skip(1))
    }
}

/// Split on colons; an empty string yields one empty token.
pub open spec fn split_colon(s: Seq<char>) -> Seq<Seq<char>>
    decreases s.len(),
{
    if s.len() == 0 {
        seq![Seq::<char>::empty()]
    } else if s[0] == ':' {
        seq![Seq::<char>::empty()] + split_colon(s.skip(1))
    } else {
        let rest = split_colon(s.skip(1));
        seq![seq![s[0]] + rest[0]] + rest.skip(1)
    }
}

proof fn lemma_split_colon_len(s: Seq<char>)
    ensures
        split_colon(s).len() >= 1,
    decreases s.len(),
{
    if s.len() == 0 {
    } else {
        lemma_split_colon_len(s.skip(1));
    }
}

/// What a preview-window string means: tokens applied to the defaults.
pub open spec fn preview_window_of(s: Seq<char>) -> PreviewWindow {
    parse_tokens(default_preview_window(), split_colon(s))
}

fn digit_val_exec(c: char) -> (r: u64)
    ensures
        r == digit_val(c),
{
    if c == '0' { 0 }
    else if c == '1' { 1 }
    else if c == '2' { 2 }
    else if c == '3' { 3 }
    else if c == '4' { 4 }
    else if c == '5' { 5 }
    else if c == '6' { 6 }
    else if c == '7' { 7 }
    else if c == '8' { 8 }
    else if c == '9' { 9 }
    else { 10 }
}

pub open spec fn pow10(n: nat) -> int
    decreases n,
{
    if n == 0 {
        1
    } else {
        10 * pow10((n - 1) as nat)
    }
}

proof fn lemma_digits_bound(t: Seq<char>)
    requires
        forall|i: int| 0 <= i < t.len() ==> is_digit(#[trigger] t[i]),
    ensures
        0 <= digits_val(t) < pow10(t.len()),
    decreases t.len(),
{
    if t.len() > 0 {
        assert(forall|i: int| 0 <= i < t.drop_last().len() ==> is_digit(#[trigger] t.drop_last()[i]));
        lemma_digits_bound(t.drop_last());
        assert(is_digit(t.last()));
        assert(0 <= digit_val(t.last()) <= 9);
    }
}

/// The value of a digit run of at most nine characters.
fn parse_digits(t: &Vec<char>, upto: usize) -> (r: u32)
    requires
        upto <= t@.len(),
        1 <= upto <= 9,
        forall|i: int| 0 <= i < upto ==> is_digit(#[trigger] t@[i]),
    ensures
        r == digits_val(t@.subrange(0, upto as int)),
{
    let mut acc: u64 = 0;
    let mut i: usize = 0;
    proof {
        assert(t@.subrange(0, 0) =~= Seq::<char>::empty());
    }
    while i < upto
        invariant
            i <= upto <= 9,
            upto <= t@.len(),
            forall|k: int| 0 <= k < upto ==> is_digit(#[trigger] t@[k]),
            acc == digits_val(t@.subrange(0, i as int)),
            0 <= acc < pow10(i as nat),
        decreases upto - i,
    {
        let d = digit_val_exec(t[i]);
        proof {
            let pre = t@.subrange(0, i as int);
            let cur = t@.subrange(0, i as int + 1);
            assert(cur.drop_last() =~= pre);
            assert(cur.last() == t@[i as int]);
            assert(forall|k: int| 0 <= k < cur.len() ==> is_digit(#[trigger] cur[k]));
            lemma_digits_bound(cur);
            assert(pow10(9) == 1000000000) by {
                assert(pow10(0) == 1);
                assert(pow10(1) == 10);
                assert(pow10(2) == 100);
                assert(pow10(3) == 1000);
                assert(pow10(4) == 10000);
                assert(pow10(5) == 100000);
                assert(pow10(6) == 1000000);
                assert(pow10(7) == 10000000);
                assert(pow10(8) == 100000000);
            };
            assert(pow10(i as nat + 1) <= pow10(9)) by {
                lemma_pow10_mono(i as nat + 1, 9);
            };
        }
        acc = acc * 10 + d;
        i = i + 1;
    }
    proof {
        assert(pow10(9) == 1000000000) by {
            assert(pow10(0) == 1);
            assert(pow10(1) == 10);
            assert(pow10(2) == 100);
            assert(pow10(3) == 1000);
            assert(pow10(4) == 10000);
            assert(pow10(5) == 100000);
            assert(pow10(6) == 1000000);
            assert(pow10(7) == 10000000);
            assert(pow10(8) == 100000000);
        };
        lemma_pow10_mono(upto as nat, 9);
    }
    acc as u32
}

proof fn lemma_pow10_mono(a: nat, b: nat)
    requires
        a <= b,
    ensures
        pow10(a) <= pow10(b),
        pow10(a) >= 1,
    decreases b,
{
    if a < b {
        lemma_pow10_mono(a, (b - 1) as nat);
    } else if b > 0 {
        lemma_pow10_mono((a - 1) as nat, (b - 1) as nat);
    }
}

fn is_digit_exec(c: char) -> (r: bool)
    ensures
        r == is_digit(c),
{
    digit_val_exec(c) < 10
}

fn ci_is_exec(c: char, up: char, low: char) -> (r: bool)
    ensures
        r == ci_is(c, up, low),
{
    c == up || c == low
}

/// Apply one token to the accumulated specification.
fn token_apply_exec(st: PreviewWindow, t: &Vec<char>) -> (r: PreviewWindow)
    ensures
        r == token_apply(st, t@),
{
    let n = t.len();
    if n == 0 {
        return st;
    }
    if is_digit_exec(t[0]) {
        // a numeric token: a size when short enough, else ignored
        let mut all_digits = true;
        let mut k: usize = 0;
        while k < n
            invariant
                k <= n,
                n == t@.len(),
                all_digits == (forall|i: int| 0 <= i < k ==> is_digit(#[trigger] t@[i])),
            decreases n - k,
        {
            if !is_digit_exec(t[k]) {
                all_digits = false;
            }
            k = k + 1;
        }
        if all_digits && n <= 9 {
            let v = parse_digits(t, n);
            proof {
                assert(t@.subrange(0, n as int) =~= t@);
                assert(is_size_token(t@));
            }
            return PreviewWindow { size: Size::Percent(v), ..st };
        }
        // digits followed by a single percent sign
        let mut head_digits = true;
        let mut k2: usize = 0;
        while k2 < n - 1
            invariant
                1 <= n == t@.len(),
                k2 <= n - 1,
                head_digits == (forall|i: int| 0 <= i < k2 ==> is_digit(#[trigger] t@[i])),
            decreases n - 1 - k2,
        {
            if !is_digit_exec(t[k2]) {
                head_digits = false;
            }
            k2 = k2 + 1;
        }
        if !all_digits && head_digits && n >= 2 && n <= 10 && t[n - 1] == '%' {
            proof {
                assert(t@.drop_last() =~= t@.subrange(0, n as int - 1));
                assert(forall|i: int| 0 <= i < t@.drop_last().len()
                    ==> is_digit(#[trigger] t@.drop_last()[i]));
                assert(is_pct_token(t@));
            }
            let v = parse_digits(t, n - 1);
            proof {
                assert(t@.subrange(0, n as int - 1) =~= t@.drop_last());
            }
            return PreviewWindow { size: Size::Percent(v), ..st };
        }
        proof {
            if all_digits {
                assert(n > 9);
                assert(!is_size_token(t@));
                assert(is_digit(t@.last()));
                assert(t@.last() != '%');
                assert(!is_pct_token(t@));
            } else {
                assert(!is_size_token(t@));
                if is_pct_token(t@) {
                    assert(t@.drop_last() =~= t@.subrange(0, n as int - 1));
                    assert(forall|i: int| 0 <= i < n - 1 ==> t@.drop_last()[i] == t@[i]);
                    assert(forall|i: int|
                        0 <= i < n - 1 ==> is_digit(#[trigger] t@.drop_last()[i]));
                    assert(forall|i: int| 0 <= i < n - 1 ==> is_digit(#[trigger] t@[i]));
                    assert(head_digits);
                    assert(t@.drop_last().len() <= 9);
                    assert(n <= 10);
                    assert(t@.last() == t@[n as int - 1]);
                    assert(false);
                }
            }
        }
        return st;
    }
    if n == 2 && ci_is_exec(t[0], 'U', 'u') && ci_is_exec(t[1], 'P', 'p') {
        return PreviewWindow { direction: Direction::Up, ..st };
    }
    if n == 4 && ci_is_exec(t[0], 'D', 'd') && ci_is_exec(t[1], 'O', 'o')
        && ci_is_exec(t[2], 'W', 'w') && ci_is_exec(t[3], 'N', 'n') {
        return PreviewWindow { direction: Direction::Down, ..st };
    }
    if n == 4 && ci_is_exec(t[0], 'L', 'l') && ci_is_exec(t[1], 'E', 'e')
        && ci_is_exec(t[2], 'F', 'f') && ci_is_exec(t[3], 'T', 't') {
        return PreviewWindow { direction: Direction::Left, ..st };
    }
    if n == 5 && ci_is_exec(t[0], 'R', 'r') && ci_is_exec(t[1], 'I', 'i')
        && ci_is_exec(t[2], 'G', 'g') && ci_is_exec(t[3], 'H', 'h') && ci_is_exec(t[4], 'T', 't') {
        return PreviewWindow { direction: Direction::Right, ..st };
    }
    if n == 6 && ci_is_exec(t[0], 'H', 'h') && ci_is_exec(t[1], 'I', 'i')
        && ci_is_exec(t[2], 'D', 'd') && ci_is_exec(t[3], 'D', 'd') && ci_is_exec(t[4], 'E', 'e')
        && ci_is_exec(t[5], 'N', 'n') {
        return PreviewWindow { shown: false, ..st };
    }
    if n == 4 && ci_is_exec(t[0], 'W', 'w') && ci_is_exec(t[1], 'R', 'r')
        && ci_is_exec(t[2], 'A', 'a') && ci_is_exec(t[3], 'P', 'p') {
        return PreviewWindow { wrap: true, ..st };
    }
    proof {
        assert(!is_digit(t@[0]));
        assert(!is_size_token(t@));
        if t@.len() >= 2 {
            assert(t@.drop_last()[0] == t@[0]);
        }
        assert(!is_pct_token(t@));
    }
    st
}

/// Parse a preview-window string: colon-separated, order-insensitive tokens
/// over the defaults.
pub fn parse_preview(s: &Vec<char>) -> (r: PreviewWindow)
    ensures
        r == preview_window_of(s@),
{
    let ghost target = preview_window_of(s@);
    let mut st = PreviewWindow {
        direction: Direction::Right,
        size: Size::Percent(50),
        wrap: false,
        shown: true,
    };
    let mut cur: Vec<char> = Vec::new();
    let mut i: usize = 0;
    proof {
        assert(s@.skip(0) =~= s@);
        lemma_split_colon_len(s@);
        assert(seq![cur@ + split_colon(s@)[0]] + split_colon(s@).skip(1) =~= split_colon(s@)) by {
            assert(cur@ + split_colon(s@)[0] =~= split_colon(s@)[0]);
        };
    }
    while i < s.len()
        invariant
            i <= s@.len(),
            parse_tokens(
                st,
                seq![cur@ + split_colon(s@.skip(i as int))[0]]
                    + split_colon(s@.skip(i as int)).skip(1),
            ) == target,
        decreases s@.len() - i,
    {
        let ghost tail = s@.skip(i as int);
        proof {
            assert(tail.len() > 0);
            assert(tail[0] == s@[i as int]);
            assert(tail.skip(1) =~= s@.skip(i as int + 1));
            lemma_split_colon_len(s@.skip(i as int + 1));
        }
        if s[i] == ':' {
            proof {
                let nxt = split_colon(s@.skip(i as int + 1));
                assert(split_colon(tail) =~= seq![Seq::<char>::empty()] + nxt);
                assert(split_colon(tail)[0] =~= Seq::<char>::empty());
                assert(split_colon(tail).skip(1) =~= nxt);
                assert(cur@ + split_colon(tail)[0] =~= cur@);
                let toks = seq![cur@ + split_colon(tail)[0]] + split_colon(tail).skip(1);
                assert(toks[0] =~= cur@);
                assert(toks.skip(1) =~= nxt);
                assert(parse_tokens(st, toks) == parse_tokens(token_apply(st, cur@), nxt));
            }
            let applied = token_apply_exec(st, &cur);
            st = applied;
            cur = Vec::new();
            proof {
                let nxt = split_colon(s@.skip(i as int + 1));
                assert(seq![cur@ + nxt[0]] + nxt.skip(1) =~= nxt) by {
                    assert(cur@ + nxt[0] =~= nxt[0]);
                };
            }
        } else {
            proof {
                let rest = split_colon(s@.skip(i as int + 1));
                assert(split_colon(tail) =~= seq![seq![tail[0]] + rest[0]] + rest.skip(1));
                assert(split_colon(tail)[0] =~= seq![s@[i as int]] + rest[0]);
                assert(split_colon(tail).skip(1) =~= rest.skip(1));
                assert(cur@.push(s@[i as int]) + rest[0] =~= cur@ + (seq![s@[i as int]] + rest[0]));
            }
            let c = s[i];
            cur.push(c);
        }
        i = i + 1;
    }
    proof {
        assert(s@.skip(s@.len() as int).len() == 0);
        let last_toks = split_colon(s@.skip(s@.len() as int));
        assert(last_toks =~= seq![Seq::<char>::empty()]);
        assert(cur@ + last_toks[0] =~= cur@);
        let toks = seq![cur@ + last_toks[0]] + last_toks.skip(1);
        assert(toks =~= seq![cur@]);
        assert(parse_tokens(st, seq![cur@]) == parse_tokens(token_apply(st, cur@), seq![cur@].skip(1)));
        assert(seq![cur@].skip(1).len() == 0);
    }
    let out = token_apply_exec(st, &cur);
    out
}

/// One row of the main stack.
#[derive(Clone, Copy, PartialEq, Eq, Structural, Debug)]
pub enum Pane {
    Selection,
    Header,
    Status,
    Query,
    QueryStatusRow,
}

/// A visible preview pane: where it sits, how much it takes, and which edge
/// carries its border.
pub struct PreviewPane {
    pub direction: Direction,
    pub size: Size,
    pub border: BorderSide,
}

/// One composed frame: the main rows top to bottom, and the preview pane if
/// it is visible.
pub struct FrameLayout {
    pub main: Vec<Pane>,
    pub preview: Option<PreviewPane>,
}

/// The border sits on the edge adjacent to the main pane.
pub open spec fn border_of(d: Direction) -> BorderSide {
    match d {
        Direction::Up => BorderSide::Bottom,
        Direction::Right => BorderSide::Left,
        Direction::Down => BorderSide::Top,
        Direction::Left => BorderSide::Right,
    }
}

/// The visible rows, top to bottom: selection, header, status, query — or
/// the reverse; with inline info the status merges onto the query row.
pub open spec fn main_panes(reverse: bool, inline_info: bool, header_empty: bool) -> Seq<Pane> {
    let header: Seq<Pane> = if header_empty { Seq::empty() } else { seq![Pane::Header] };
    if reverse {
        (if inline_info { seq![Pane::QueryStatusRow] } else { seq![Pane::Query, Pane::Status] })
            + header + seq![Pane::Selection]
    } else {
        seq![Pane::Selection] + header
            + (if inline_info { seq![Pane::QueryStatusRow] } else { seq![Pane::Status, Pane::Query] })
    }
}

/// Compose one frame from the model's flags and the preview specification.
pub fn compose_frame(
    reverse: bool,
    inline_info: bool,
    header_empty: bool,
    preview_visible: bool,
    direction: Direction,
    size: Size,
) -> (r: FrameLayout)
    ensures
        r.main@ == main_panes(reverse, inline_info, header_empty),
        r.preview is Some <==> preview_visible,
        preview_visible ==> {
            &&& r.preview->0.direction == direction
            &&& r.preview->0.size == size
            &&& r.preview->0.border == border_of(direction)
        },
{
    let mut main: Vec<Pane> = Vec::new();
    if reverse {
        if inline_info {
            main.push(Pane::QueryStatusRow);
        } else {
            main.push(Pane::Query);
            main.push(Pane::Status);
        }
        if !header_empty {
            main.push(Pane::Header);
        }
        main.push(Pane::Selection);
    } else {
        main.push(Pane::Selection);
        if !header_empty {
            main.push(Pane::Header);
        }
        if inline_info {
            main.push(Pane::QueryStatusRow);
        } else {
            main.push(Pane::Status);
            main.push(Pane::Query);
        }
    }
    proof {
        assert(main@ =~= main_panes(reverse, inline_info, header_empty));
    }
    let preview = if preview_visible {
        let border = match direction {
            Direction::Up => BorderSide::Bottom,
            Direction::Right => BorderSide::Left,
            Direction::Down => BorderSide::Top,
            Direction::Left => BorderSide::Right,
        };
        Some(PreviewPane { direction, size, border })
    } else {
        None
    };
    FrameLayout { main, preview }
}

} // verus!
