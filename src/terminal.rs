//! Terminal cursor state, the escape sequences that set it, and capability negotiation
//! from device-response text.
use vstd::prelude::*;
use crate::cell::Rgba;
use crate::scan::{contains, contains_exec, find, find_from, lemma_find_from, matches_at, occurs_at, string_of_range};
use crate::text::{chars_of, decimal, push_char, push_decimal};

verus! {

/// Cursor shape.
#[derive(Clone, Copy, Debug, PartialEq, Eq, Structural)]
pub enum CursorStyle {
    Block,
    Line,
    Underline,
}

/// Whitespace in Unicode's White_Space property, as `char::is_whitespace` defines it.
pub open spec fn is_white(c: char) -> bool {
    let u = c as u32;
    (0x09 <= u <= 0x0d) || u == 0x20 || u == 0x85 || u == 0xa0 || u == 0x1680 || (0x2000 <= u
        <= 0x200a) || u == 0x2028 || u == 0x2029 || u == 0x202f || u == 0x205f || u == 0x3000
}

/// Index of the first non-whitespace character at or after `i`, or the length.
pub open spec fn skip_white(s: Seq<char>, i: int) -> int
    decreases s.len() - i,
{
    if i < 0 || i >= s.len() {
        i
    } else if is_white(s[i]) {
        skip_white(s, i + 1)
    } else {
        i
    }
}

/// Index just past the last non-whitespace character before `j`, or zero.
pub open spec fn back_white(s: Seq<char>, j: int) -> int
    decreases j,
{
    if j <= 0 || j > s.len() {
        j
    } else if is_white(s[j - 1]) {
        back_white(s, j - 1)
    } else {
        j
    }
}

/// `s` without leading and trailing whitespace.
pub open spec fn trimmed(s: Seq<char>) -> Seq<char> {
    let a = skip_white(s, 0);
    let b = back_white(s, s.len() as int);
    if a < b {
        s.subrange(a, b)
    } else {
        Seq::empty()
    }
}

/// The name and version that a terminal-version reply `inner` announces, given the
/// version known so far: `name(version)`, `name version`, or a bare name. `None` when
/// the reply is blank. A `(` without a closing `)` leaves the version as it was.
pub open spec fn parse_version_reply(inner: Seq<char>, version: Seq<char>) -> Option<(Seq<char>, Seq<char>)> {
    let t = trimmed(inner);
    if t.len() == 0 {
        None
    } else {
        match find_from(t, seq!['('], 0) {
            Some(p) => Some(
                (
                    t.subrange(0, p),
                    match find_from(t, seq![')'], p) {
                        Some(c) => t.subrange(p + 1, c),
                        None => version,
                    },
                ),
            ),
            None => match find_from(t, seq![' '], 0) {
                Some(sp) => Some((t.subrange(0, sp), t.subrange(sp + 1, t.len() as int))),
                None => Some((t, Seq::empty())),
            },
        }
    }
}

/// `ESC P > |`: start of a terminal-version reply.
pub open spec fn version_reply_start() -> Seq<char> {
    seq!['\x1b', 'P', '>', '|']
}

/// `ESC \`: string terminator.
pub open spec fn string_terminator() -> Seq<char> {
    seq!['\x1b', '\\']
}

/// Name, version and whether a reply was seen, after scanning the terminal-version replies
/// of `s` from index `from` on, left to right; each well-formed reply overwrites the
/// previous one.
pub open spec fn version_scan(
    s: Seq<char>,
    from: int,
    name: Seq<char>,
    version: Seq<char>,
    seen: bool,
) -> (Seq<char>, Seq<char>, bool)
    decreases s.len() - from,
{
    if from < 0 {
        (name, version, seen)
    } else {
        match find_from(s, version_reply_start(), from) {
            None => (name, version, seen),
            Some(p) => match find_from(s, string_terminator(), p + 4) {
                None => (name, version, seen),
                // The first branch is never taken (a terminator found after a start lies
                // past `from` and inside `s`); it keeps the recursion visibly decreasing.
                Some(q) => if q + 2 <= from || q + 2 > s.len() {
                    (name, version, seen)
                } else {
                    match parse_version_reply(s.subrange(p + 4, q), version) {
                        None => version_scan(s, q + 2, name, version, seen),
                        Some(nv) => version_scan(s, q + 2, nv.0, nv.1, true),
                    }
                },
            },
        }
    }
}

/// Once a version reply has been seen, scanning more text never forgets it.
pub proof fn lemma_version_scan_keeps_seen(
    s: Seq<char>,
    from: int,
    name: Seq<char>,
    version: Seq<char>,
    seen: bool,
)
    ensures
        seen ==> version_scan(s, from, name, version, seen).2,
    decreases s.len() - from,
{
    if from >= 0 {
        match find_from(s, version_reply_start(), from) {
            None => {},
            Some(p) => match find_from(s, string_terminator(), p + 4) {
                None => {},
                Some(q) => if q + 2 <= from || q + 2 > s.len() {
                } else {
                    match parse_version_reply(s.subrange(p + 4, q), version) {
                        None => lemma_version_scan_keeps_seen(s, q + 2, name, version, seen),
                        Some(nv) => lemma_version_scan_keeps_seen(s, q + 2, nv.0, nv.1, true),
                    }
                },
            },
        }
    }
}

pub open spec fn is_digit(c: char) -> bool {
    48 <= c as u32 <= 57
}

/// Length of the run of ASCII digits starting at index `j`.
pub open spec fn digit_run(s: Seq<char>, j: int) -> int
    decreases s.len() - j,
{
    if 0 <= j < s.len() && is_digit(s[j]) {
        1 + digit_run(s, j + 1)
    } else {
        0
    }
}

/// The number that a string of ASCII digits spells in decimal.
pub open spec fn digits_value(ds: Seq<char>) -> nat
    decreases ds.len(),
{
    if ds.len() == 0 {
        0
    } else {
        digits_value(ds.drop_last()) * 10 + (ds.last() as u32 - 48) as nat
    }
}

/// `ESC [ 1 ;`: start of a cursor-position report on row 1.
pub open spec fn cursor_report_start() -> Seq<char> {
    seq!['\x1b', '[', '1', ';']
}

/// `ESC [ ?`: start of a keyboard-status report.
pub open spec fn keyboard_report_start() -> Seq<char> {
    seq!['\x1b', '[', '?']
}

/// The column of a cursor-position report `ESC[1;{col}R` starting at index `i`.
pub open spec fn cursor_report_at(s: Seq<char>, i: int) -> Option<nat> {
    let k = digit_run(s, i + 4);
    if occurs_at(s, cursor_report_start(), i) && k > 0 && i + 4 + k < s.len() && s[i + 4 + k]
        == 'R' {
        Some(digits_value(s.subrange(i + 4, i + 4 + k)))
    } else {
        None
    }
}

/// Some cursor-position report in `s` gives a column of at least `c`.
#[verifier::opaque]
pub open spec fn reports_column_at_least(s: Seq<char>, c: nat) -> bool {
    exists|i: int| #[trigger] cursor_report_at(s, i) is Some && cursor_report_at(s, i)->0 >= c
}

/// Some keyboard-status report occurs in `s`.
#[verifier::opaque]
pub open spec fn has_keyboard_report(s: Seq<char>) -> bool {
    exists|i: int| keyboard_report_at(s, i)
}

/// A keyboard-status report `ESC[?{digits}u` starts at index `i`.
pub open spec fn keyboard_report_at(s: Seq<char>, i: int) -> bool {
    let k = digit_run(s, i + 3);
    occurs_at(s, keyboard_report_start(), i) && k > 0 && i + 3 + k < s.len() && s[i + 3 + k] == 'u'
}

/// The hexadecimal digit for `d`, lower case.
pub open spec fn hex_digit(d: nat) -> char {
    if d < 10 {
        ((d + 48) as u8) as char
    } else {
        ((d + 87) as u8) as char
    }
}

/// Two lower-case hexadecimal digits for a byte.
pub open spec fn hex_byte(b: u8) -> Seq<char> {
    seq![hex_digit(b as nat / 16), hex_digit(b as nat % 16)]
}

/// `ESC[{shape} q`: the DECSCUSR parameter for a cursor style.
pub open spec fn cursor_style_param(style: CursorStyle, blinking: bool) -> char {
    match (style, blinking) {
        (CursorStyle::Block, false) => '2',
        (CursorStyle::Block, true) => '1',
        (CursorStyle::Line, false) => '6',
        (CursorStyle::Line, true) => '5',
        (CursorStyle::Underline, false) => '4',
        (CursorStyle::Underline, true) => '3',
    }
}

/// `ESC[?25h` or `ESC[?25l` for the cursor's visibility, then `ESC[{y};{x}H`.
pub open spec fn cursor_position_seq(t: Terminal) -> Seq<char> {
    seq!['\x1b', '[', '?', '2', '5', if t.cursor_visible {
        'h'
    } else {
        'l'
    }] + seq!['\x1b', '['] + decimal(t.cursor_y as nat) + seq![';'] + decimal(t.cursor_x as nat)
        + seq!['H']
}

/// `ESC[{n} q` for the cursor's shape and blinking.
pub open spec fn cursor_style_seq(t: Terminal) -> Seq<char> {
    seq!['\x1b', '[', cursor_style_param(t.cursor_style, t.cursor_blinking), ' ', 'q']
}

/// `ESC]12;#rrggbb BEL`: the cursor colour in lower-case hexadecimal.
pub open spec fn cursor_color_seq(t: Terminal) -> Seq<char> {
    seq!['\x1b', ']', '1', '2', ';', '#'] + hex_byte(t.cursor_color.0) + hex_byte(t.cursor_color.1)
        + hex_byte(t.cursor_color.2) + seq!['\x07']
}

/// `ESC]0;{title} BEL`: sets the window title.
pub open spec fn title_seq(title: Seq<char>) -> Seq<char> {
    seq!['\x1b', ']', '0', ';'] + title + seq!['\x07']
}

/// `ESC[H ESC[2J`: cursor home, then clear the screen.
pub open spec fn clear_seq() -> Seq<char> {
    seq!['\x1b', '[', 'H', '\x1b', '[', '2', 'J']
}

/// The state of a terminal before anything is known of it: cursor at (1, 1), visible,
/// steady block, white; no name or version; every capability flag off.
pub open spec fn fresh_terminal(t: Terminal) -> bool {
    &&& t.cursor_x == 1 && t.cursor_y == 1 && t.cursor_visible
    &&& t.cursor_style == CursorStyle::Block && !t.cursor_blinking
    &&& t.cursor_color == (255u8, 255u8, 255u8, 255u8)
    &&& t.term_name@.len() == 0 && t.term_version@.len() == 0
    &&& !t.from_xtversion && !t.kitty_keyboard && !t.kitty_graphics && !t.sgr_pixels && !t.sync
    &&& !t.bracketed_paste && !t.focus_tracking && !t.explicit_width && !t.scaled_text
}

/// Cursor state and the capabilities the terminal has announced.
pub struct Terminal {
    pub cursor_x: u32,
    pub cursor_y: u32,
    pub cursor_visible: bool,
    pub cursor_style: CursorStyle,
    pub cursor_blinking: bool,
    pub cursor_color: Rgba,
    pub term_name: String,
    pub term_version: String,
    pub from_xtversion: bool,
    pub kitty_keyboard: bool,
    pub kitty_graphics: bool,
    pub sgr_pixels: bool,
    pub sync: bool,
    pub bracketed_paste: bool,
    pub focus_tracking: bool,
    pub explicit_width: bool,
    pub scaled_text: bool,
}

/// How one device response `s` turns terminal state `old` into `new`: the version
/// replies are applied left to right, each capability flag is set when its report occurs
/// and is never cleared, and the cursor is untouched.
pub open spec fn capabilities_updated(old: Terminal, new: Terminal, s: Seq<char>) -> bool {
    &&& (new.term_name@, new.term_version@, new.from_xtversion) == version_scan(
        s,
        0,
        old.term_name@,
        old.term_version@,
        old.from_xtversion,
    )
    &&& new.sgr_pixels == (old.sgr_pixels || contains(s, "1016;2$y"@))
    &&& new.sync == (old.sync || contains(s, "2026;1$y"@) || contains(s, "2026;2$y"@))
    &&& new.focus_tracking == (old.focus_tracking || contains(s, "1004;1$y"@) || contains(
        s,
        "1004;2$y"@,
    ))
    &&& new.bracketed_paste == (old.bracketed_paste || contains(s, "2004;1$y"@) || contains(
        s,
        "2004;2$y"@,
    ) || contains(s, "kitty"@))
    &&& new.kitty_keyboard == (old.kitty_keyboard || contains(s, "kitty"@) || has_keyboard_report(s))
    &&& new.kitty_graphics == (old.kitty_graphics || contains(s, "kitty"@))
    &&& new.explicit_width == (old.explicit_width || reports_column_at_least(s, 2))
    &&& new.scaled_text == (old.scaled_text || reports_column_at_least(s, 3))
    &&& old.from_xtversion ==> new.from_xtversion
    &&& old.sgr_pixels ==> new.sgr_pixels
    &&& old.sync ==> new.sync
    &&& old.focus_tracking ==> new.focus_tracking
    &&& old.bracketed_paste ==> new.bracketed_paste
    &&& old.kitty_keyboard ==> new.kitty_keyboard
    &&& old.kitty_graphics ==> new.kitty_graphics
    &&& old.explicit_width ==> new.explicit_width
    &&& old.scaled_text ==> new.scaled_text
    &&& new.cursor_x == old.cursor_x
    &&& new.cursor_y == old.cursor_y
    &&& new.cursor_visible == old.cursor_visible
    &&& new.cursor_style == old.cursor_style
    &&& new.cursor_blinking == old.cursor_blinking
    &&& new.cursor_color == old.cursor_color
}

fn is_white_exec(c: char) -> (r: bool)
    ensures
        r == is_white(c),
{
    let u = c as u32;
    (0x09 <= u && u <= 0x0d) || u == 0x20 || u == 0x85 || u == 0xa0 || u == 0x1680 || (0x2000 <= u
        && u <= 0x200a) || u == 0x2028 || u == 0x2029 || u == 0x202f || u == 0x205f || u == 0x3000
}

/// `s` without leading and trailing whitespace.
fn trim_chars(s: &Vec<char>, a0: usize, b0: usize) -> (r: Vec<char>)
    requires
        a0 <= b0 <= s@.len(),
    ensures
        r@ == trimmed(s@.subrange(a0 as int, b0 as int)),
{
    let ghost t = s@.subrange(a0 as int, b0 as int);
    let mut a = a0;
    while a < b0 && is_white_exec(s[a])
        invariant
            a0 <= a <= b0 <= s@.len(),
            t == s@.subrange(a0 as int, b0 as int),
            skip_white(t, 0) == skip_white(t, a - a0),
        decreases b0 - a,
    {
        a = a + 1;
    }
    let mut b = b0;
    while b > a0 && is_white_exec(s[b - 1])
        invariant
            a0 <= b <= b0 <= s@.len(),
            t == s@.subrange(a0 as int, b0 as int),
            back_white(t, t.len() as int) == back_white(t, b - a0),
        decreases b,
    {
        b = b - 1;
    }
    let mut r: Vec<char> = Vec::new();
    if a < b {
        let mut i = a;
        while i < b
            invariant
                a <= i <= b <= s@.len(),
                r@ == s@.subrange(a as int, i as int),
            decreases b - i,
        {
            r.push(s[i]);
            assert(r@ =~= s@.subrange(a as int, i + 1));
            i = i + 1;
        }
    }
    assert(r@ =~= trimmed(t));
    r
}

/// The length of the digit run at `j`, and its value capped at 3.
fn read_digits(s: &Vec<char>, j: usize) -> (r: (usize, u32))
    requires
        j <= s@.len(),
    ensures
        r.0 == digit_run(s@, j as int),
        j + r.0 <= s@.len(),
        r.1 == if digits_value(s@.subrange(j as int, j + r.0)) < 3 {
            digits_value(s@.subrange(j as int, j + r.0))
        } else {
            3
        },
{
    let mut t = j;
    let mut v: u32 = 0;
    while t < s.len() && 48 <= s[t] as u32 && s[t] as u32 <= 57
        invariant
            j <= t <= s@.len(),
            digit_run(s@, j as int) == (t - j) + digit_run(s@, t as int),
            v == if digits_value(s@.subrange(j as int, t as int)) < 3 {
                digits_value(s@.subrange(j as int, t as int))
            } else {
                3
            },
        decreases s@.len() - t,
    {
        let d = s[t] as u32 - 48;
        let ghost before = s@.subrange(j as int, t as int);
        assert(s@.subrange(j as int, t + 1).drop_last() =~= before);
        v = if v * 10 + d < 3 { v * 10 + d } else { 3 };
        t = t + 1;
    }
    (t - j, v)
}

/// The column of a cursor-position report at `i`, capped at 3.
fn cursor_report_exec(s: &Vec<char>, i: usize) -> (r: Option<u32>)
    ensures
        r is Some <==> cursor_report_at(s@, i as int) is Some,
        r is Some ==> r->0 == if cursor_report_at(s@, i as int)->0 < 3 {
            cursor_report_at(s@, i as int)->0
        } else {
            3
        },
{
    let cpr = vec!['\x1b', '[', '1', ';'];
    assert(cpr@ =~= cursor_report_start());
    let n = s.len();
    if !matches_at(s, &cpr, i) {
        return None;
    }
    let (k, v) = read_digits(s, i + 4);
    if k > 0 && i + 4 + k < s.len() && s[i + 4 + k] == 'R' {
        Some(v)
    } else {
        None
    }
}

/// Whether a keyboard-status report starts at `i`.
fn keyboard_report_exec(s: &Vec<char>, i: usize) -> (r: bool)
    ensures
        r == keyboard_report_at(s@, i as int),
{
    let ksr = vec!['\x1b', '[', '?'];
    assert(ksr@ =~= keyboard_report_start());
    let n = s.len();
    if !matches_at(s, &ksr, i) {
        return false;
    }
    let (k, _v) = read_digits(s, i + 3);
    k > 0 && i + 3 + k < s.len() && s[i + 3 + k] == 'u'
}

/// Whether `s` holds a cursor-position report with a column of at least 2, one with a
/// column of at least 3, and a keyboard-status report.
fn scan_reports(s: &Vec<char>) -> (r: (bool, bool, bool))
    ensures
        r.0 == reports_column_at_least(s@, 2),
        r.1 == reports_column_at_least(s@, 3),
        r.2 == has_keyboard_report(s@),
{
    let mut wide = false;
    let mut scaled = false;
    let mut keyboard = false;
    let n = s.len();
    for i in 0..n
        invariant
            n == s@.len(),
            wide == exists|j: int|
                0 <= j < i && #[trigger] cursor_report_at(s@, j) is Some && cursor_report_at(s@, j)->0 >= 2,
            scaled == exists|j: int|
                0 <= j < i && #[trigger] cursor_report_at(s@, j) is Some && cursor_report_at(s@, j)->0 >= 3,
            keyboard == exists|j: int| 0 <= j < i && #[trigger] keyboard_report_at(s@, j),
    {
        let col = cursor_report_exec(s, i);
        if let Some(c) = col {
            if c >= 2 {
                wide = true;
            }
            if c >= 3 {
                scaled = true;
            }
        }
        if keyboard_report_exec(s, i) {
            keyboard = true;
        }
        proof {
            let _ = cursor_report_at(s@, i as int);
            let _ = keyboard_report_at(s@, i as int);
        }
    }
    proof {
        reveal(reports_column_at_least);
        reveal(has_keyboard_report);
        assert forall|j: int| #[trigger] cursor_report_at(s@, j) is Some implies 0 <= j < n by {
            assert(occurs_at(s@, cursor_report_start(), j));
        }
        assert forall|j: int| #[trigger] keyboard_report_at(s@, j) implies 0 <= j < n by {
            assert(occurs_at(s@, keyboard_report_start(), j));
        }
    }
    (wide, scaled, keyboard)
}

/// Whether `pat` occurs in `s`.
fn has(s: &Vec<char>, pat: &str) -> (r: bool)
    ensures
        r == contains(s@, pat@),
{
    let p = chars_of(pat);
    if p.len() == 0 {
        reveal(contains);
        assert(occurs_at(s@, pat@, 0)) by {
            assert(s@.subrange(0, 0) =~= pat@);
        }
        return true;
    }
    contains_exec(s, &p)
}

fn push_hex_digit(out: &mut String, d: u8)
    requires
        d < 16,
    ensures
        final(out)@ == old(out)@.push(hex_digit(d as nat)),
{
    if d < 10 {
        push_char(out, (d + 48) as char);
    } else {
        push_char(out, (d + 87) as char);
    }
}

fn push_hex_byte(out: &mut String, b: u8)
    ensures
        final(out)@ == old(out)@ + hex_byte(b),
{
    push_hex_digit(out, b / 16);
    push_hex_digit(out, b % 16);
    assert(final(out)@ =~= old(out)@ + hex_byte(b));
}

impl Terminal {
    /// Cursor at (1, 1), visible, steady block, white; no name, version or capability.
    pub fn new() -> (r: Terminal)
        ensures
            fresh_terminal(r),
    {
        Terminal {
            cursor_x: 1,
            cursor_y: 1,
            cursor_visible: true,
            cursor_style: CursorStyle::Block,
            cursor_blinking: false,
            cursor_color: (255, 255, 255, 255),
            term_name: String::new(),
            term_version: String::new(),
            from_xtversion: false,
            kitty_keyboard: false,
            kitty_graphics: false,
            sgr_pixels: false,
            sync: false,
            bracketed_paste: false,
            focus_tracking: false,
            explicit_width: false,
            scaled_text: false,
        }
    }

    /// Applies one terminal-version reply found at `s[a..b]`.
    fn apply_version_reply(&mut self, s: &Vec<char>, a: usize, b: usize)
        requires
            a <= b <= s@.len(),
        ensures
            ({
                let r = parse_version_reply(s@.subrange(a as int, b as int), old(self).term_version@);
                match r {
                    None => final(self).term_name@ == old(self).term_name@
                        && final(self).term_version@ == old(self).term_version@
                        && final(self).from_xtversion == old(self).from_xtversion,
                    Some(nv) => final(self).term_name@ == nv.0 && final(self).term_version@ == nv.1
                        && final(self).from_xtversion,
                }
            }),
            final(self).sgr_pixels == old(self).sgr_pixels,
            final(self).sync == old(self).sync,
            final(self).focus_tracking == old(self).focus_tracking,
            final(self).bracketed_paste == old(self).bracketed_paste,
            final(self).kitty_keyboard == old(self).kitty_keyboard,
            final(self).kitty_graphics == old(self).kitty_graphics,
            final(self).explicit_width == old(self).explicit_width,
            final(self).scaled_text == old(self).scaled_text,
            final(self).cursor_x == old(self).cursor_x,
            final(self).cursor_y == old(self).cursor_y,
            final(self).cursor_visible == old(self).cursor_visible,
            final(self).cursor_style == old(self).cursor_style,
            final(self).cursor_blinking == old(self).cursor_blinking,
            final(self).cursor_color == old(self).cursor_color,
    {
        let t = trim_chars(s, a, b);
        if t.len() == 0 {
            return;
        }
        let open = vec!['('];
        let close = vec![')'];
        let space = vec![' '];
        assert(open@ =~= seq!['(']);
        assert(close@ =~= seq![')']);
        assert(space@ =~= seq![' ']);
        match find(&t, &open, 0) {
            Some(p) => {
                proof { lemma_find_from(t@, open@, 0); }
                self.term_name = string_of_range(&t, 0, p);
                match find(&t, &close, p) {
                    Some(c) => {
                        proof {
                            lemma_find_from(t@, close@, p as int);
                            assert(t@.subrange(p as int, p + 1)[0] == t@[p as int]);
                            assert(t@.subrange(c as int, c + 1)[0] == t@[c as int]);
                        }
                        self.term_version = string_of_range(&t, p + 1, c);
                    },
                    None => {},
                }
            },
            None => match find(&t, &space, 0) {
                Some(sp) => {
                    proof { lemma_find_from(t@, space@, 0); }
                    self.term_name = string_of_range(&t, 0, sp);
                    self.term_version = string_of_range(&t, sp + 1, t.len());
                },
                None => {
                    self.term_name = string_of_range(&t, 0, t.len());
                    self.term_version = String::new();
                    assert(self.term_name@ =~= t@);
                },
            },
        }
        self.from_xtversion = true;
    }

    /// Scans one aggregated device response for terminal-version replies and capability
    /// reports. Every capability flag only ever turns on; malformed fragments are ignored.
    pub fn process_capability_response(&mut self, response: &str)
        ensures
            capabilities_updated(*old(self), *final(self), response@),
    {
        let s = chars_of(response);
        self.scan_version_replies(&s);
        proof {
            lemma_version_scan_keeps_seen(
                s@,
                0,
                old(self).term_name@,
                old(self).term_version@,
                old(self).from_xtversion,
            );
        }
        let sgr = has(&s, "1016;2$y");
        let sync = has(&s, "2026;1$y") || has(&s, "2026;2$y");
        let focus = has(&s, "1004;1$y") || has(&s, "1004;2$y");
        let paste = has(&s, "2004;1$y") || has(&s, "2004;2$y");
        let kitty = has(&s, "kitty");
        let (wide, scaled, keyboard) = scan_reports(&s);
        self.sgr_pixels = self.sgr_pixels || sgr;
        self.sync = self.sync || sync;
        self.focus_tracking = self.focus_tracking || focus;
        self.bracketed_paste = self.bracketed_paste || paste || kitty;
        self.kitty_keyboard = self.kitty_keyboard || kitty || keyboard;
        self.kitty_graphics = self.kitty_graphics || kitty;
        self.explicit_width = self.explicit_width || wide;
        self.scaled_text = self.scaled_text || scaled;
    }

    /// Applies every terminal-version reply in `s`, left to right.
    fn scan_version_replies(&mut self, s: &Vec<char>)
        ensures
            (final(self).term_name@, final(self).term_version@, final(self).from_xtversion)
                == version_scan(
                s@,
                0,
                old(self).term_name@,
                old(self).term_version@,
                old(self).from_xtversion,
            ),
            final(self).sgr_pixels == old(self).sgr_pixels,
            final(self).sync == old(self).sync,
            final(self).focus_tracking == old(self).focus_tracking,
            final(self).bracketed_paste == old(self).bracketed_paste,
            final(self).kitty_keyboard == old(self).kitty_keyboard,
            final(self).kitty_graphics == old(self).kitty_graphics,
            final(self).explicit_width == old(self).explicit_width,
            final(self).scaled_text == old(self).scaled_text,
            final(self).cursor_x == old(self).cursor_x,
            final(self).cursor_y == old(self).cursor_y,
            final(self).cursor_visible == old(self).cursor_visible,
            final(self).cursor_style == old(self).cursor_style,
            final(self).cursor_blinking == old(self).cursor_blinking,
            final(self).cursor_color == old(self).cursor_color,
    {
        let start = chars_of("\x1bP>|");
        let terminator = chars_of("\x1b\\");
        proof {
            reveal_strlit("\x1bP>|");
            reveal_strlit("\x1b\\");
            assert(start@ =~= version_reply_start());
            assert(terminator@ =~= string_terminator());
        }
        let mut from: usize = 0;
        while from <= s.len()
            invariant
                                start@ == version_reply_start(),
                terminator@ == string_terminator(),
                version_scan(s@, from as int, self.term_name@, self.term_version@, self.from_xtversion)
                    == version_scan(
                    s@,
                    0,
                    old(self).term_name@,
                    old(self).term_version@,
                    old(self).from_xtversion,
                ),
                self.sgr_pixels == old(self).sgr_pixels,
                self.sync == old(self).sync,
                self.focus_tracking == old(self).focus_tracking,
                self.bracketed_paste == old(self).bracketed_paste,
                self.kitty_keyboard == old(self).kitty_keyboard,
                self.kitty_graphics == old(self).kitty_graphics,
                self.explicit_width == old(self).explicit_width,
                self.scaled_text == old(self).scaled_text,
                self.cursor_x == old(self).cursor_x,
                self.cursor_y == old(self).cursor_y,
                self.cursor_visible == old(self).cursor_visible,
                self.cursor_style == old(self).cursor_style,
                self.cursor_blinking == old(self).cursor_blinking,
                self.cursor_color == old(self).cursor_color,
            ensures
                (self.term_name@, self.term_version@, self.from_xtversion) == version_scan(
                    s@,
                    0,
                    old(self).term_name@,
                    old(self).term_version@,
                    old(self).from_xtversion,
                ),
            decreases s@.len() + 1 - from,
        {
            let ghost cur = (self.term_name@, self.term_version@, self.from_xtversion);
            let p = match find(s, &start, from) {
                None => {
                    assert(version_scan(s@, from as int, cur.0, cur.1, cur.2) == cur);
                    break;
                },
                Some(p) => p,
            };
            proof { lemma_find_from(s@, start@, from as int); }
            let q = match find(s, &terminator, p + 4) {
                None => {
                    assert(version_scan(s@, from as int, cur.0, cur.1, cur.2) == cur);
                    break;
                },
                Some(q) => q,
            };
            proof { lemma_find_from(s@, terminator@, p + 4); }
            proof {
                assert(s@.subrange(q as int, q + 2) == string_terminator());
            }
            self.apply_version_reply(s, p + 4, q);
            from = q + 2;
        }
        proof {
            if from > s@.len() {
                let cur = (self.term_name@, self.term_version@, self.from_xtversion);
                assert(version_scan(s@, from as int, cur.0, cur.1, cur.2) == cur);
            }
        }
    }



    /// Moves the cursor, clamping both coordinates to at least 1.
    pub fn set_cursor_position(&mut self, x: u32, y: u32, visible: bool)
        ensures
            *final(self) == (Terminal {
                cursor_x: if x < 1 { 1 } else { x },
                cursor_y: if y < 1 { 1 } else { y },
                cursor_visible: visible,
                ..*old(self)
            }),
    {
        self.cursor_x = if x < 1 { 1 } else { x };
        self.cursor_y = if y < 1 { 1 } else { y };
        self.cursor_visible = visible;
    }

    pub fn set_cursor_style(&mut self, style: CursorStyle, blinking: bool)
        ensures
            *final(self) == (Terminal { cursor_style: style, cursor_blinking: blinking, ..*old(self) }),
    {
        self.cursor_style = style;
        self.cursor_blinking = blinking;
    }

    /// Sets the cursor colour, one byte per channel.
    pub fn set_cursor_color(&mut self, color: Rgba)
        ensures
            *final(self) == (Terminal { cursor_color: color, ..*old(self) }),
    {
        self.cursor_color = color;
    }

    /// Show or hide the cursor, then move it: `ESC[?25h` or `ESC[?25l`, then `ESC[{y};{x}H`.
    pub fn cursor_position_ansi(&self) -> (r: String)
        ensures
            r@ == cursor_position_seq(*self),
    {
        let mut out = String::new();
        push_char(&mut out, '\x1b');
        push_char(&mut out, '[');
        push_char(&mut out, '?');
        push_char(&mut out, '2');
        push_char(&mut out, '5');
        push_char(&mut out, if self.cursor_visible { 'h' } else { 'l' });
        push_char(&mut out, '\x1b');
        push_char(&mut out, '[');
        push_decimal(&mut out, self.cursor_y as u64);
        push_char(&mut out, ';');
        push_decimal(&mut out, self.cursor_x as u64);
        push_char(&mut out, 'H');
        assert(out@ =~= cursor_position_seq(*self));
        out
    }

    /// `ESC[{n} q` for the current cursor shape and blinking.
    pub fn cursor_style_ansi(&self) -> (r: String)
        ensures
            r@ == cursor_style_seq(*self),
    {
        let n = match (self.cursor_style, self.cursor_blinking) {
            (CursorStyle::Block, false) => '2',
            (CursorStyle::Block, true) => '1',
            (CursorStyle::Line, false) => '6',
            (CursorStyle::Line, true) => '5',
            (CursorStyle::Underline, false) => '4',
            (CursorStyle::Underline, true) => '3',
        };
        let mut out = String::new();
        push_char(&mut out, '\x1b');
        push_char(&mut out, '[');
        push_char(&mut out, n);
        push_char(&mut out, ' ');
        push_char(&mut out, 'q');
        assert(out@ =~= cursor_style_seq(*self));
        out
    }

    /// `ESC]12;#rrggbb BEL`: the cursor colour in lower-case hexadecimal.
    pub fn cursor_color_ansi(&self) -> (r: String)
        ensures
            r@ == cursor_color_seq(*self),
    {
        let mut out = String::new();
        push_char(&mut out, '\x1b');
        push_char(&mut out, ']');
        push_char(&mut out, '1');
        push_char(&mut out, '2');
        push_char(&mut out, ';');
        push_char(&mut out, '#');
        push_hex_byte(&mut out, self.cursor_color.0);
        push_hex_byte(&mut out, self.cursor_color.1);
        push_hex_byte(&mut out, self.cursor_color.2);
        push_char(&mut out, '\x07');
        assert(out@ =~= cursor_color_seq(*self));
        out
    }

    /// `ESC]0;{title} BEL`: sets the window title.
    pub fn set_terminal_title_ansi(&self, title: &str) -> (r: String)
        ensures
            r@ == title_seq(title@),
    {
        let mut out = String::new();
        push_char(&mut out, '\x1b');
        push_char(&mut out, ']');
        push_char(&mut out, '0');
        push_char(&mut out, ';');
        out.append(title);
        push_char(&mut out, '\x07');
        assert(out@ =~= title_seq(title@));
        out
    }

    /// `ESC[H ESC[2J`: cursor home, then clear the screen.
    pub fn clear_terminal_ansi(&self) -> (r: String)
        ensures
            r@ == clear_seq(),
    {
        let mut out = String::new();
        out.append("\x1b[H\x1b[2J");
        proof { reveal_strlit("\x1b[H\x1b[2J"); }
        out
    }

    pub fn get_cursor_x(&self) -> (r: u32)
        ensures
            r == self.cursor_x,
    {
        self.cursor_x
    }

    pub fn get_cursor_y(&self) -> (r: u32)
        ensures
            r == self.cursor_y,
    {
        self.cursor_y
    }

    pub fn get_cursor_visible(&self) -> (r: bool)
        ensures
            r == self.cursor_visible,
    {
        self.cursor_visible
    }

    pub fn get_cursor_style(&self) -> (r: (CursorStyle, bool))
        ensures
            r == (self.cursor_style, self.cursor_blinking),
    {
        (self.cursor_style, self.cursor_blinking)
    }

    pub fn get_cursor_color(&self) -> (r: Rgba)
        ensures
            r == self.cursor_color,
    {
        self.cursor_color
    }

    pub fn get_terminal_name(&self) -> (r: &str)
        ensures
            r@ == self.term_name@,
    {
        self.term_name.as_str()
    }

    pub fn get_terminal_version(&self) -> (r: &str)
        ensures
            r@ == self.term_version@,
    {
        self.term_version.as_str()
    }

    pub fn get_from_xtversion(&self) -> (r: bool)
        ensures
            r == self.from_xtversion,
    {
        self.from_xtversion
    }

    pub fn get_kitty_keyboard(&self) -> (r: bool)
        ensures
            r == self.kitty_keyboard,
    {
        self.kitty_keyboard
    }

    pub fn get_kitty_graphics(&self) -> (r: bool)
        ensures
            r == self.kitty_graphics,
    {
        self.kitty_graphics
    }

    /// Records a name and version learned some other way than a version reply.
    pub fn set_term_info_for_test(&mut self, name: &str, version: &str)
        ensures
            final(self).term_name@ == name@,
            final(self).term_version@ == version@,
            !final(self).from_xtversion,
            final(self).kitty_keyboard == old(self).kitty_keyboard,
            final(self).kitty_graphics == old(self).kitty_graphics,
            final(self).cursor_x == old(self).cursor_x,
            final(self).cursor_y == old(self).cursor_y,
    {
        self.term_name = name.to_owned();
        self.term_version = version.to_owned();
        self.from_xtversion = false;
    }
}

impl Default for Terminal {
    fn default() -> (r: Terminal)
        ensures
            fresh_terminal(r),
    {
        Terminal::new()
    }
}

} // verus!
