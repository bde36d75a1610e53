//! The recordings that the game engine can be handed without failing hard.
//!
//! The engine (`twothousand_forty_eight`) panics on some recordings instead of
//! returning an error, and it may overflow its sums on absurd numbers. The
//! predicates here follow the engine's own reading of a recording, in its
//! order, and leave out the recordings on which it panics; where the engine
//! would stop with an error first, the recording is kept.
//!
//! The engine reads a recording as follows.
//! - Version: a text that begins with `::` has the version written before its
//!   next `:` (a `u8`); any other text is of version 1. Versions other than 1
//!   and 2 are refused by the engine with an error.
//! - Version 2: the width and height are the fourth and fifth `:`-separated
//!   fields of the first line. Parsing never panics; replaying a recording
//!   that parses panics on a width or height above 6.
//! - Version 1: an optional header `WxH` ends at the first `S` (each side a
//!   `usize`, else an error; a side above 6 panics); the steps, separated by
//!   `:`, run up to the next `S`. Step by step: a step without `;` is an
//!   error; then the board (the part before the first `+` or `;`) is read
//!   value by value, each separated by `.`: a value that is not a `usize` is
//!   an error, and one placed at index `k` panics where the width or height
//!   is 0 or `k / H` is 6 or more; then the added tile (between the first and
//!   second `+`, as `x,y.value`) must be read in full, else an error.
//!
//! Replaying a version 1 recording that parses panics on a tile added after
//! a step that is not the last, with a value of at most 4, at an `x` or `y`
//! above 5. Two more limits keep the engine's sums from overflowing: a board
//! value above `max_tile()` and a text longer than `usize::MAX / 2^35` are
//! refused for replaying. The replay checks do not follow the game: a
//! recording that the replay would stop with an error before the step that
//! panics is refused as well.
use crate::libproxy::{parse_outcome, unified_parse};
use vstd::prelude::*;

verus! {

pub open spec fn is_digit(c: char) -> bool {
    '0' <= c && c <= '9'
}

pub open spec fn digit_value(c: char) -> nat {
    (c as int - '0' as int) as nat
}

/// The largest tile value that a replayed version 1 board may hold.
pub open spec fn max_tile() -> nat {
    0x100_0000
}

/// The value of a string of digits.
pub open spec fn digits_value(t: Seq<char>) -> nat
    decreases t.len(),
{
    if t.len() == 0 {
        0
    } else {
        digits_value(t.drop_last()) * 10 + digit_value(t.last())
    }
}

pub open spec fn all_digits(t: Seq<char>) -> bool {
    forall|i: int| 0 <= i < t.len() ==> is_digit(#[trigger] t[i])
}

/// The value of a decimal number as Rust's `from_str` reads an unsigned one:
/// an optional `+` and then one or more digits.
pub open spec fn decimal(t: Seq<char>) -> Option<nat> {
    let u = if t.len() > 0 && t[0] == '+' {
        t.subrange(1, t.len() as int)
    } else {
        t
    };
    if u.len() > 0 && all_digits(u) {
        Some(digits_value(u))
    } else {
        None
    }
}

/// The first position in `[i, end)` that holds `c`, else `end`.
pub open spec fn find(s: Seq<char>, c: char, i: int, end: int) -> int
    decreases end - i,
{
    if i >= end || i < 0 || i >= s.len() {
        end
    } else if s[i] == c {
        i
    } else {
        find(s, c, i + 1, end)
    }
}

/// The first position from `i` on that ends a field of the first line: a
/// `:` or a newline; else the length.
pub open spec fn field_end(s: Seq<char>, i: int) -> int
    decreases s.len() - i,
{
    if i < 0 || i >= s.len() {
        s.len() as int
    } else if s[i] == ':' || s[i] == '\n' {
        i
    } else {
        field_end(s, i + 1)
    }
}

pub open spec fn starts_with_colons(s: Seq<char>) -> bool {
    s.len() >= 2 && s[0] == ':' && s[1] == ':'
}

/// The end of the version of a text that begins with `::`.
pub open spec fn version_end(s: Seq<char>) -> int {
    find(s, ':', 2, s.len() as int)
}

/// The version as the engine detects it: 1 or 2, and 0 for a version that
/// it refuses.
pub open spec fn version(s: Seq<char>) -> nat {
    if !starts_with_colons(s) {
        1
    } else {
        match decimal(s.subrange(2, version_end(s))) {
            Some(v) => if v == 1 || v == 2 {
                v
            } else {
                0
            },
            None => 0,
        }
    }
}

/// A version 2 recording whose width and height, where both are numbers,
/// are at most 6.
pub open spec fn v2_sizes_ok(s: Seq<char>) -> bool {
    let q = version_end(s);
    let e1 = field_end(s, q + 1);
    q + 1 <= s.len() && e1 < s.len() && s[e1] == ':' ==> {
        let e2 = field_end(s, e1 + 1);
        match (decimal(s.subrange(q + 1, e1)), decimal(s.subrange(e1 + 1, e2))) {
            (Some(w), Some(h)) => w <= 6 && h <= 6,
            _ => true,
        }
    }
}


/// The value of a decimal text as Rust reads a `usize` from it.
pub open spec fn usize_value(t: Seq<char>) -> Option<nat> {
    match decimal(t) {
        Some(v) => if v <= usize::MAX {
            Some(v)
        } else {
            None
        },
        None => None,
    }
}

/// A token as far as it has been read: whether it has a character, whether
/// all are digits, whether its value is above `usize::MAX`, and its value
/// where it is not.
#[derive(Clone, Copy)]
pub struct Tok {
    pub nonempty: bool,
    pub digits: bool,
    pub over: bool,
    pub val: usize,
}

pub open spec fn tok_empty() -> Tok {
    Tok { nonempty: false, digits: true, over: false, val: 0 }
}

pub open spec fn tok_push(t: Tok, c: char) -> Tok {
    if !is_digit(c) {
        Tok { nonempty: true, digits: false, ..t }
    } else if t.over || t.val * 10 + digit_value(c) > usize::MAX {
        Tok { nonempty: true, over: true, ..t }
    } else {
        Tok { nonempty: true, val: (t.val * 10 + digit_value(c)) as usize, ..t }
    }
}

/// A token that the engine reads as a `usize` (a token never holds a `+`).
pub open spec fn tok_parses(t: Tok) -> bool {
    t.nonempty && t.digits && !t.over
}

/// The state of reading one step of a version 1 recording.
#[derive(Clone, Copy)]
pub struct StepState {
    /// Before the step's first `;`.
    pub in_parts0: bool,
    /// Before the step's first `+` or `;`: in its board.
    pub in_board: bool,
    /// The index of the board value being read.
    pub dots: usize,
    /// The board value being read.
    pub ent: Tok,
    /// A board value that is not a number was reached.
    pub failed: bool,
    /// A board value was placed off the engine's tile array.
    pub panics: bool,
    /// The `+` so far before the first `;`, up to 2.
    pub plus: usize,
    /// The added tile has a character.
    pub added_any: bool,
    /// Where in the added tile: 0 `x`, 1 `y`, 2 after `y`, 3 value, 4 after it.
    pub phase: usize,
    pub x: Tok,
    pub y: Tok,
    pub v: Tok,
    pub has_y: bool,
    pub has_v: bool,
    /// A replay would go wrong on the steps so far: a board value above
    /// `max_tile()`, or a tile added off the array before the last step.
    pub bad: bool,
}

pub open spec fn step_start(bad: bool) -> StepState {
    StepState {
        in_parts0: true,
        in_board: true,
        dots: 0,
        ent: tok_empty(),
        failed: false,
        panics: false,
        plus: 0,
        added_any: false,
        phase: 0,
        x: tok_empty(),
        y: tok_empty(),
        v: tok_empty(),
        has_y: false,
        has_v: false,
        bad,
    }
}

/// Places the board value being read at index `dots` of a `w` by `h` board.
pub open spec fn close_value(st: StepState, w: usize, h: usize) -> StepState {
    if st.failed || st.panics {
        st
    } else if !tok_parses(st.ent) {
        StepState { failed: true, ..st }
    } else if w == 0 || h == 0 || st.dots >= 6 * h {
        StepState { panics: true, ..st }
    } else {
        StepState { bad: st.bad || st.ent.val > max_tile(), ..st }
    }
}

/// Reads one character of a step (not `:` and not `S`).
pub open spec fn read_char(st: StepState, c: char, w: usize, h: usize) -> StepState {
    if !st.in_parts0 {
        st
    } else if c == ';' {
        let b = if st.in_board {
            close_value(st, w, h)
        } else {
            st
        };
        StepState { in_parts0: false, in_board: false, ..b }
    } else if c == '+' {
        if st.in_board {
            StepState { in_board: false, plus: 1, ..close_value(st, w, h) }
        } else if st.plus == 1 {
            StepState { plus: 2, ..st }
        } else {
            st
        }
    } else if st.in_board {
        if c == '.' {
            let b = close_value(st, w, h);
            if b.failed || b.panics {
                b
            } else {
                StepState { dots: (b.dots + 1) as usize, ent: tok_empty(), ..b }
            }
        } else {
            StepState { ent: tok_push(st.ent, c), ..st }
        }
    } else if st.plus == 1 {
        let a = StepState { added_any: true, ..st };
        if c == '.' {
            if a.phase <= 2 {
                StepState { phase: 3, has_v: true, ..a }
            } else if a.phase == 3 {
                StepState { phase: 4, ..a }
            } else {
                a
            }
        } else if c == ',' && a.phase == 0 {
            StepState { phase: 1, has_y: true, ..a }
        } else if c == ',' && a.phase == 1 {
            StepState { phase: 2, ..a }
        } else if a.phase == 0 {
            StepState { x: tok_push(a.x, c), ..a }
        } else if a.phase == 1 {
            StepState { y: tok_push(a.y, c), ..a }
        } else if a.phase == 3 {
            StepState { v: tok_push(a.v, c), ..a }
        } else {
            a
        }
    } else {
        st
    }
}

/// The added tile is there but cannot be read in full.
pub open spec fn added_fails(st: StepState) -> bool {
    st.added_any && !(tok_parses(st.x) && st.has_y && tok_parses(st.y) && st.has_v
        && tok_parses(st.v))
}

/// The added tile, placed before the next step, would be off the array.
pub open spec fn addition_off(st: StepState) -> bool {
    &&& st.added_any
    &&& !added_fails(st)
    &&& st.v.val <= 4
    &&& (st.x.val > 5 || st.y.val > 5)
}

/// How the engine reads a version 1 recording: it panics, it stops with an
/// error, or it parses it, and then a replay goes wrong or not.
pub enum Reading {
    Panics,
    Fails,
    Parses { replay_ok: bool },
}

/// The end of a step: `None` where reading goes on with the next step.
pub open spec fn step_end(st: StepState, w: usize, h: usize, last: bool) -> Option<Reading> {
    let b = if st.in_board {
        close_value(st, w, h)
    } else {
        st
    };
    if st.in_parts0 {
        Some(Reading::Fails)
    } else if b.panics {
        Some(Reading::Panics)
    } else if b.failed || added_fails(b) {
        Some(Reading::Fails)
    } else if last {
        Some(Reading::Parses { replay_ok: !b.bad })
    } else {
        None
    }
}

/// The bad flag carried into the next step.
pub open spec fn next_bad(st: StepState, w: usize, h: usize) -> bool {
    let b = if st.in_board {
        close_value(st, w, h)
    } else {
        st
    };
    b.bad || addition_off(b)
}

/// Reads the steps of a version 1 recording from position `i` up to the
/// next `S` or the end.
pub open spec fn steps_reading(s: Seq<char>, i: int, st: StepState, w: usize, h: usize) -> Reading
    decreases s.len() - i,
{
    if i < 0 || i >= s.len() || s[i] == 'S' {
        step_end(st, w, h, true)->Some_0
    } else if s[i] == ':' {
        match step_end(st, w, h, false) {
            Some(r) => r,
            None => steps_reading(s, i + 1, step_start(next_bad(st, w, h)), w, h),
        }
    } else {
        steps_reading(s, i + 1, read_char(st, s[i], w, h), w, h)
    }
}

/// How the engine reads a version 1 recording, header first.
pub open spec fn v1_reading(s: Seq<char>) -> Reading {
    let p = find(s, 'S', 0, s.len() as int);
    if p == s.len() {
        steps_reading(s, 0, step_start(false), 4, 4)
    } else {
        let x1 = find(s, 'x', 0, p);
        let x2 = find(s, 'x', x1 + 1, p);
        if x1 == p {
            Reading::Fails
        } else {
            match (usize_value(s.subrange(0, x1)), usize_value(s.subrange(x1 + 1, x2))) {
                (Some(w), Some(h)) => if w > 6 || h > 6 {
                    Reading::Panics
                } else {
                    steps_reading(s, p + 1, step_start(false), w as usize, h as usize)
                },
                _ => Reading::Fails,
            }
        }
    }
}

/// Recordings short enough that the engine's scores and sums cannot
/// overflow: at most `usize::MAX / 2^35` characters.
pub open spec fn length_ok(s: Seq<char>) -> bool {
    s.len() * 0x8_0000_0000 <= usize::MAX
}

/// The recordings that the engine parses and hashes without a panic.
pub open spec fn parse_domain(s: Seq<char>) -> bool {
    version(s) != 1 || !(v1_reading(s) is Panics)
}

/// The recordings that the engine reconstructs, validates and plays to the
/// end without a panic or an overflow: those that do not parse, and those
/// that parse and pass the replay checks.
pub open spec fn replay_domain(s: Seq<char>) -> bool {
    &&& length_ok(s)
    &&& parse_domain(s)
    &&& (version(s) == 2 && parse_outcome(s) is Ok ==> v2_sizes_ok(s))
    &&& (version(s) == 1 ==> !(v1_reading(s) matches Reading::Parses { replay_ok: false }))
}


/// Recordings of realistic length pass the length bound: every text of at
/// most `usize::MAX / 2^35` characters does, which on a 64-bit machine is
/// every text of at most 2^28 characters.
pub proof fn lemma_length_bound_admits(s: Seq<char>)
    ensures
        s.len() <= (usize::MAX as int) / 0x8_0000_0000int ==> length_ok(s),
        usize::MAX as int == 0xffff_ffff_ffff_ffffint && s.len() <= 0x1000_0000 ==> length_ok(s),
{
    let n = s.len() as int;
    let m = usize::MAX as int;
    if n <= m / 0x8_0000_0000 {
        assert(n * 0x8_0000_0000 <= m) by (nonlinear_arith)
            requires
                n <= m / 0x8_0000_0000,
                m >= 0,
        ;
    }
    if m == 0xffff_ffff_ffff_ffff && n <= 0x1000_0000 {
        assert(n * 0x8_0000_0000 <= m) by (nonlinear_arith)
            requires
                0 <= n <= 0x1000_0000,
                m == 0xffff_ffff_ffff_ffff,
        ;
    }
}

proof fn lemma_find_absent(s: Seq<char>, c: char, i: int, end: int)
    requires
        0 <= i,
        end <= s.len(),
        forall|j: int| i <= j < end ==> s[j] != c,
    ensures
        find(s, c, i, end) == end,
    decreases end - i,
{
    if i < end {
        lemma_find_absent(s, c, i + 1, end);
    }
}

/// Reading steps does not depend on what comes before them.
proof fn lemma_steps_shift(p: Seq<char>, s: Seq<char>, i: int, st: StepState, w: usize, h: usize)
    requires
        0 <= i <= s.len(),
    ensures
        steps_reading(p + s, i + p.len(), st, w, h) == steps_reading(s, i, st, w, h),
    decreases s.len() - i,
{
    let t = p + s;
    if i < s.len() {
        assert(t[i + p.len()] == s[i]);
        if s[i] == 'S' {
        } else if s[i] == ':' {
            if step_end(st, w, h, false) is None {
                lemma_steps_shift(p, s, i + 1, step_start(next_bad(st, w, h)), w, h);
            }
        } else {
            lemma_steps_shift(p, s, i + 1, read_char(st, s[i], w, h), w, h);
        }
    }
}

/// A version 1 recording without a header is read as the same recording
/// with the header `4x4S`: the engine's default board is 4 by 4.
pub proof fn lemma_headerless_is_4x4(s: Seq<char>)
    requires
        forall|j: int| 0 <= j < s.len() ==> s[j] != 'S',
    ensures
        v1_reading(s) == v1_reading(seq!['4', 'x', '4', 'S'] + s),
{
    let p = seq!['4', 'x', '4', 'S'];
    let t = p + s;
    let n = t.len() as int;
    lemma_find_absent(s, 'S', 0, s.len() as int);
    assert(t[0] == '4' && t[1] == 'x' && t[2] == '4' && t[3] == 'S');
    assert(find(t, 'S', 3, n) == 3);
    assert(find(t, 'S', 2, n) == 3);
    assert(find(t, 'S', 1, n) == 3);
    assert(find(t, 'S', 0, n) == 3);
    assert(find(t, 'x', 1, 3) == 1);
    assert(find(t, 'x', 0, 3) == 1);
    assert(find(t, 'x', 3, 3) == 3);
    assert(find(t, 'x', 2, 3) == 3);
    let four = seq!['4'];
    assert(t.subrange(0, 1) =~= four);
    assert(t.subrange(2, 3) =~= four);
    assert(four.drop_last() =~= Seq::<char>::empty());
    assert(four.last() == '4');
    assert(digit_value('4') == 4);
    assert(digits_value(Seq::<char>::empty()) == 0);
    assert(digits_value(four) == 4);
    assert(all_digits(four));
    assert(usize_value(four) == Some(4nat));
    lemma_steps_shift(p, s, 0, step_start(false), 4, 4);
}

/// A version 2 recording whose width and height are digits from 0 to 6
/// fits the engine's 6 by 6 tile array, whatever follows them.
pub proof fn lemma_v2_small_sizes_fit(cw: char, ch: char, r: Seq<char>)
    requires
        '0' <= cw <= '6',
        '0' <= ch <= '6',
    ensures
        version(seq![':', ':', '2', ':', cw, ':', ch, ':'] + r) == 2,
        v2_sizes_ok(seq![':', ':', '2', ':', cw, ':', ch, ':'] + r),
{
    let s = seq![':', ':', '2', ':', cw, ':', ch, ':'] + r;
    let n = s.len() as int;
    assert(s[0] == ':' && s[1] == ':' && s[2] == '2' && s[3] == ':' && s[4] == cw && s[5] == ':'
        && s[6] == ch && s[7] == ':');
    assert(find(s, ':', 3, n) == 3);
    assert(find(s, ':', 2, n) == 3);
    assert(field_end(s, 5) == 5);
    assert(field_end(s, 4) == 5);
    assert(field_end(s, 7) == 7);
    assert(field_end(s, 6) == 7);
    let two = seq!['2'];
    assert(s.subrange(2, 3) =~= two);
    assert(two.drop_last() =~= Seq::<char>::empty());
    assert(all_digits(two));
    assert(two.last() == '2');
    assert(digit_value('2') == 2);
    assert(digits_value(Seq::<char>::empty()) == 0);
    assert(digits_value(two) == 2);
    let a = seq![cw];
    let b = seq![ch];
    assert(s.subrange(4, 5) =~= a);
    assert(s.subrange(6, 7) =~= b);
    assert(a.drop_last() =~= Seq::<char>::empty());
    assert(b.drop_last() =~= Seq::<char>::empty());
    assert(all_digits(a));
    assert(all_digits(b));
    assert(digits_value(a) == digit_value(cw));
    assert(digits_value(b) == digit_value(ch));
    assert(digit_value(cw) <= 6);
    assert(digit_value(ch) <= 6);
}

/// The characters of a text.
pub(crate) fn chars_of(s: &str) -> (v: Vec<char>)
    ensures
        v@ == s@,
{
    let mut v: Vec<char> = Vec::new();
    for c in it: s.chars()
        invariant
            it.seq() == s@,
            v@ == it.seq().take(it.index() as int),
    {
        v.push(c);
        assert(it.seq().take(it.index() + 1) =~= it.seq().take(it.index() as int).push(c));
    }
    assert(s@.take(s@.len() as int) =~= s@);
    v
}

fn is_digit_char(c: char) -> (b: bool)
    ensures
        b == is_digit(c),
{
    '0' <= c && c <= '9'
}

fn digit_of(c: char) -> (d: usize)
    requires
        is_digit(c),
    ensures
        d == digit_value(c),
        d <= 9,
{
    (c as u32 - '0' as u32) as usize
}



fn find_exec(s: &Vec<char>, c: char, i: usize, end: usize) -> (r: usize)
    requires
        i <= end <= s.len(),
    ensures
        r == find(s@, c, i as int, end as int),
        i <= r <= end,
{
    let mut k = i;
    while k < end
        invariant
            i <= k <= end,
            end <= s.len(),
            find(s@, c, i as int, end as int) == find(s@, c, k as int, end as int),
        decreases end - k,
    {
        if s[k] == c {
            return k;
        }
        k = k + 1;
    }
    end
}

fn field_end_exec(s: &Vec<char>, i: usize) -> (r: usize)
    requires
        i <= s.len(),
    ensures
        r == field_end(s@, i as int),
        i <= r <= s.len(),
{
    let n = s.len();
    let mut k = i;
    while k < n
        invariant
            n == s.len(),
            i <= k <= n,
            field_end(s@, i as int) == field_end(s@, k as int),
        decreases n - k,
    {
        if s[k] == ':' || s[k] == '\n' {
            return k;
        }
        k = k + 1;
    }
    n
}


const MAX_TILE: usize = 0x100_0000;

/// One more digit on a number read so far: `None` above `usize::MAX`.
fn push_digit(v: usize, d: usize) -> (r: Option<usize>)
    requires
        d <= 9,
    ensures
        match r {
            Some(n) => n == v * 10 + d,
            None => v * 10 + d > usize::MAX,
        },
{
    match v.checked_mul(10) {
        Some(m) => m.checked_add(d),
        None => None,
    }
}

/// The decimal number in `s[from..to]`: whether it fits in a `usize`, and
/// its value where it does.
fn decimal_exec(s: &Vec<char>, from: usize, to: usize) -> (r: Option<(usize, bool)>)
    requires
        from <= to <= s.len(),
    ensures
        match decimal(s@.subrange(from as int, to as int)) {
            Some(v) => r matches Some((x, fits)) && fits == (v <= usize::MAX) && (fits ==> x
                == v),
            None => r is None,
        },
{
    let ghost t = s@.subrange(from as int, to as int);
    let start = if from < to && s[from] == '+' {
        from + 1
    } else {
        from
    };
    let ghost u = s@.subrange(start as int, to as int);
    assert(u == (if t.len() > 0 && t[0] == '+' {
        t.subrange(1, t.len() as int)
    } else {
        t
    }));
    if start == to {
        return None;
    }
    let mut v: usize = 0;
    let mut over = false;
    let mut k = start;
    while k < to
        invariant
            from <= start <= k <= to,
            to <= s.len(),
            t == s@.subrange(from as int, to as int),
            u == s@.subrange(start as int, to as int),
            u == (if t.len() > 0 && t[0] == '+' {
                t.subrange(1, t.len() as int)
            } else {
                t
            }),
            u.len() > 0,
            forall|j: int| start <= j < k ==> is_digit(s@[j]),
            over == (digits_value(s@.subrange(start as int, k as int)) > usize::MAX),
            !over ==> v == digits_value(s@.subrange(start as int, k as int)),
        decreases to - k,
    {
        let c = s[k];
        if !is_digit_char(c) {
            assert(u[k - start] == c);
            return None;
        }
        let d = digit_of(c);
        assert(s@.subrange(start as int, k + 1).drop_last() =~= s@.subrange(start as int, k as int));
        assert(s@.subrange(start as int, k + 1).last() == c);
        if !over {
            match push_digit(v, d) {
                Some(n) => {
                    v = n;
                },
                None => {
                    over = true;
                },
            }
        }
        k = k + 1;
    }
    assert(all_digits(u)) by {
        assert forall|j: int| 0 <= j < u.len() implies is_digit(#[trigger] u[j]) by {
            assert(u[j] == s@[start + j]);
        }
    }
    assert(s@.subrange(start as int, to as int) == u);
    Some((v, !over))
}

fn version_exec(s: &Vec<char>) -> (r: usize)
    ensures
        r == version(s@),
{
    if !(s.len() >= 2 && s[0] == ':' && s[1] == ':') {
        return 1;
    }
    let q = find_exec(s, ':', 2, s.len());
    match decimal_exec(s, 2, q) {
        Some((v, fits)) => if fits && (v == 1 || v == 2) {
            v
        } else {
            0
        },
        None => 0,
    }
}

fn v2_sizes_ok_exec(s: &Vec<char>) -> (b: bool)
    requires
        starts_with_colons(s@),
    ensures
        b == v2_sizes_ok(s@),
{
    let n = s.len();
    let q = find_exec(s, ':', 2, n);
    if q >= n {
        return true;
    }
    let e1 = field_end_exec(s, q + 1);
    if !(e1 < n && s[e1] == ':') {
        return true;
    }
    let e2 = field_end_exec(s, e1 + 1);
    match (decimal_exec(s, q + 1, e1), decimal_exec(s, e1 + 1, e2)) {
        (Some((w, wf)), Some((h, hf))) => wf && hf && w <= 6 && h <= 6,
        _ => true,
    }
}

pub open spec fn state_wf(st: StepState, h: usize) -> bool {
    &&& h <= 6
    &&& st.dots <= 36
    &&& st.plus <= 2
    &&& st.phase <= 4
}

fn tok_empty_exec() -> (t: Tok)
    ensures
        t == tok_empty(),
{
    Tok { nonempty: false, digits: true, over: false, val: 0 }
}

fn tok_push_exec(t: Tok, c: char) -> (r: Tok)
    ensures
        r == tok_push(t, c),
{
    if !is_digit_char(c) {
        Tok { nonempty: true, digits: false, ..t }
    } else if t.over {
        Tok { nonempty: true, over: true, ..t }
    } else {
        match push_digit(t.val, digit_of(c)) {
            Some(n) => Tok { nonempty: true, val: n, ..t },
            None => Tok { nonempty: true, over: true, ..t },
        }
    }
}

fn tok_parses_exec(t: Tok) -> (b: bool)
    ensures
        b == tok_parses(t),
{
    t.nonempty && t.digits && !t.over
}

fn step_start_exec(bad: bool) -> (st: StepState)
    ensures
        st == step_start(bad),
{
    StepState {
        in_parts0: true,
        in_board: true,
        dots: 0,
        ent: tok_empty_exec(),
        failed: false,
        panics: false,
        plus: 0,
        added_any: false,
        phase: 0,
        x: tok_empty_exec(),
        y: tok_empty_exec(),
        v: tok_empty_exec(),
        has_y: false,
        has_v: false,
        bad,
    }
}

fn close_value_exec(st: StepState, w: usize, h: usize) -> (r: StepState)
    requires
        state_wf(st, h),
    ensures
        r == close_value(st, w, h),
        state_wf(r, h),
        !r.failed && !r.panics ==> r.dots < 6 * h,
{
    if st.failed || st.panics {
        st
    } else if !tok_parses_exec(st.ent) {
        StepState { failed: true, ..st }
    } else if w == 0 || h == 0 || st.dots >= 6 * h {
        StepState { panics: true, ..st }
    } else {
        StepState { bad: st.bad || st.ent.val > MAX_TILE, ..st }
    }
}

fn read_char_exec(st: StepState, c: char, w: usize, h: usize) -> (r: StepState)
    requires
        state_wf(st, h),
    ensures
        r == read_char(st, c, w, h),
        state_wf(r, h),
{
    if !st.in_parts0 {
        st
    } else if c == ';' {
        let b = if st.in_board {
            close_value_exec(st, w, h)
        } else {
            st
        };
        StepState { in_parts0: false, in_board: false, ..b }
    } else if c == '+' {
        if st.in_board {
            StepState { in_board: false, plus: 1, ..close_value_exec(st, w, h) }
        } else if st.plus == 1 {
            StepState { plus: 2, ..st }
        } else {
            st
        }
    } else if st.in_board {
        if c == '.' {
            let b = close_value_exec(st, w, h);
            if b.failed || b.panics {
                b
            } else {
                StepState { dots: b.dots + 1, ent: tok_empty_exec(), ..b }
            }
        } else {
            StepState { ent: tok_push_exec(st.ent, c), ..st }
        }
    } else if st.plus == 1 {
        let a = StepState { added_any: true, ..st };
        if c == '.' {
            if a.phase <= 2 {
                StepState { phase: 3, has_v: true, ..a }
            } else if a.phase == 3 {
                StepState { phase: 4, ..a }
            } else {
                a
            }
        } else if c == ',' && a.phase == 0 {
            StepState { phase: 1, has_y: true, ..a }
        } else if c == ',' && a.phase == 1 {
            StepState { phase: 2, ..a }
        } else if a.phase == 0 {
            StepState { x: tok_push_exec(a.x, c), ..a }
        } else if a.phase == 1 {
            StepState { y: tok_push_exec(a.y, c), ..a }
        } else if a.phase == 3 {
            StepState { v: tok_push_exec(a.v, c), ..a }
        } else {
            a
        }
    } else {
        st
    }
}

fn added_fails_exec(st: StepState) -> (b: bool)
    ensures
        b == added_fails(st),
{
    st.added_any && !(tok_parses_exec(st.x) && st.has_y && tok_parses_exec(st.y) && st.has_v
        && tok_parses_exec(st.v))
}

fn addition_off_exec(st: StepState) -> (b: bool)
    ensures
        b == addition_off(st),
{
    st.added_any && !added_fails_exec(st) && st.v.val <= 4 && (st.x.val > 5 || st.y.val > 5)
}

fn steps_reading_exec(s: &Vec<char>, start: usize, w: usize, h: usize) -> (r: Reading)
    requires
        start <= s.len(),
        h <= 6,
    ensures
        r == steps_reading(s@, start as int, step_start(false), w, h),
{
    let n = s.len();
    let mut st = step_start_exec(false);
    let mut i = start;
    while i < n && s[i] != 'S'
        invariant
            n == s.len(),
            start <= i <= n,
            state_wf(st, h),
            steps_reading(s@, start as int, step_start(false), w, h) == steps_reading(
                s@,
                i as int,
                st,
                w,
                h,
            ),
        decreases n - i,
    {
        if s[i] == ':' {
            let b = if st.in_board {
                close_value_exec(st, w, h)
            } else {
                st
            };
            if st.in_parts0 {
                return Reading::Fails;
            } else if b.panics {
                return Reading::Panics;
            } else if b.failed || added_fails_exec(b) {
                return Reading::Fails;
            }
            st = step_start_exec(b.bad || addition_off_exec(b));
        } else {
            st = read_char_exec(st, s[i], w, h);
        }
        i = i + 1;
    }
    let b = if st.in_board {
        close_value_exec(st, w, h)
    } else {
        st
    };
    if st.in_parts0 {
        Reading::Fails
    } else if b.panics {
        Reading::Panics
    } else if b.failed || added_fails_exec(b) {
        Reading::Fails
    } else {
        Reading::Parses { replay_ok: !b.bad }
    }
}

fn v1_reading_exec(s: &Vec<char>) -> (r: Reading)
    ensures
        r == v1_reading(s@),
{
    let n = s.len();
    let p = find_exec(s, 'S', 0, n);
    if p == n {
        return steps_reading_exec(s, 0, 4, 4);
    }
    let x1 = find_exec(s, 'x', 0, p);
    if x1 == p {
        return Reading::Fails;
    }
    let x2 = find_exec(s, 'x', x1 + 1, p);
    match (decimal_exec(s, 0, x1), decimal_exec(s, x1 + 1, x2)) {
        (Some((w, true)), Some((h, true))) => {
            if w > 6 || h > 6 {
                Reading::Panics
            } else {
                steps_reading_exec(s, p + 1, w, h)
            }
        },
        _ => Reading::Fails,
    }
}

/// Whether the engine can parse and hash a recording without a panic.
pub fn parse_ready(data: &str) -> (ok: bool)
    ensures
        ok == parse_domain(data@),
{
    let s = chars_of(data);
    if version_exec(&s) != 1 {
        return true;
    }
    match v1_reading_exec(&s) {
        Reading::Panics => false,
        _ => true,
    }
}

/// Whether the engine can reconstruct, validate and play a recording to the
/// end without a panic or an overflow. A version 2 recording whose sizes are
/// too large is first parsed by the engine: it is kept if that fails.
pub fn replay_ready(data: &str) -> (ok: bool)
    ensures
        ok == replay_domain(data@),
{
    let s = chars_of(data);
    let n = s.len();
    if (n as u128) * 0x8_0000_0000u128 > usize::MAX as u128 {
        return false;
    }
    let v = version_exec(&s);
    if v == 1 {
        match v1_reading_exec(&s) {
            Reading::Parses { replay_ok } => replay_ok,
            Reading::Panics => false,
            Reading::Fails => true,
        }
    } else if v == 2 && !v2_sizes_ok_exec(&s) {
        match unified_parse(data) {
            Ok(_) => false,
            Err(_) => true,
        }
    } else {
        true
    }
}

} // verus!
