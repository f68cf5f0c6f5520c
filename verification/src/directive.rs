//! Output directives and their terminal text.
//!
//! A frame is modeled as a sequence of directives: color changes, glyphs,
//! cursor moves and the trailing color reset. Their terminal text is
//! produced by the terminal crate; the library states that text exactly,
//! except that the crate emits color directives without their payload in
//! a process that has ANSI colors disabled, so a color directive's piece
//! of text is pinned up to that process-wide switch. The contracts
//! describe the crate's ANSI path, the only one compiled on this
//! target; on a legacy Windows console the crate would instead act
//! through the console API and hand back empty text.

use crate::color::Rgb;
use crossterm::cursor::MoveTo;
use crossterm::style::{Color, ResetColor, SetBackgroundColor, SetForegroundColor};
use vstd::prelude::*;
use vstd::seq_lib::lemma_flatten_concat;
use vstd::string::StringExecFns;

verus! {

/// One element of a frame's output stream.
#[derive(Clone, Copy, PartialEq, Eq, Debug)]
pub enum Directive {
    /// Switch the foreground color.
    SetForeground(Rgb),
    /// Switch the background color.
    SetBackground(Rgb),
    /// Put one glyph at the cursor.
    Glyph(char),
    /// Move the cursor to column and row (zero-based).
    CursorTo(u16, u16),
    /// Reset the colors to the terminal's defaults.
    Reset,
}

/// The decimal digit `d` as a character.
pub open spec fn digit_char(d: int) -> char
    recommends
        0 <= d <= 9,
{
    if d == 0 {
        '0'
    } else if d == 1 {
        '1'
    } else if d == 2 {
        '2'
    } else if d == 3 {
        '3'
    } else if d == 4 {
        '4'
    } else if d == 5 {
        '5'
    } else if d == 6 {
        '6'
    } else if d == 7 {
        '7'
    } else if d == 8 {
        '8'
    } else {
        '9'
    }
}

/// The decimal rendering of `n`, without padding, for `n` below 100000.
pub open spec fn dec_chars(n: int) -> Seq<char>
    recommends
        0 <= n < 100000,
{
    if n < 10 {
        seq![digit_char(n)]
    } else if n < 100 {
        seq![digit_char(n / 10), digit_char(n % 10)]
    } else if n < 1000 {
        seq![digit_char(n / 100), digit_char((n / 10) % 10), digit_char(n % 10)]
    } else if n < 10000 {
        seq![
            digit_char(n / 1000),
            digit_char((n / 100) % 10),
            digit_char((n / 10) % 10),
            digit_char(n % 10),
        ]
    } else {
        seq![
            digit_char(n / 10000),
            digit_char((n / 1000) % 10),
            digit_char((n / 100) % 10),
            digit_char((n / 10) % 10),
            digit_char(n % 10),
        ]
    }
}

/// The control sequence introducer.
pub open spec fn csi_chars() -> Seq<char> {
    seq!['\u{1b}', '[']
}

/// Text of a foreground color directive.
pub open spec fn fg_chars(c: Rgb) -> Seq<char> {
    csi_chars() + seq!['3', '8', ';', '2', ';'] + dec_chars(c.red as int) + seq![';']
        + dec_chars(c.green as int) + seq![';'] + dec_chars(c.blue as int) + seq!['m']
}

/// Text of a background color directive.
pub open spec fn bg_chars(c: Rgb) -> Seq<char> {
    csi_chars() + seq!['4', '8', ';', '2', ';'] + dec_chars(c.red as int) + seq![';']
        + dec_chars(c.green as int) + seq![';'] + dec_chars(c.blue as int) + seq!['m']
}

/// Text of the color reset directive.
pub open spec fn reset_chars() -> Seq<char> {
    seq!['\u{1b}', '[', '0', 'm']
}

/// Text of a cursor move to column `x`, row `y` (zero-based): the
/// one-based row comes first.
pub open spec fn move_chars(x: int, y: int) -> Seq<char> {
    csi_chars() + dec_chars(y + 1) + seq![';'] + dec_chars(x + 1) + seq!['H']
}

/// What a color directive collapses to in a process whose ANSI colors
/// are disabled.
pub open spec fn muted_color_chars() -> Seq<char> {
    seq!['\u{1b}', '[', 'm']
}

/// Whether `s` is the terminal text of directive `d`.
pub open spec fn dir_matches(d: Directive, s: Seq<char>) -> bool {
    match d {
        Directive::SetForeground(c) => s == fg_chars(c) || s == muted_color_chars(),
        Directive::SetBackground(c) => s == bg_chars(c) || s == muted_color_chars(),
        Directive::Glyph(ch) => s == seq![ch],
        Directive::CursorTo(x, y) => s == move_chars(x as int, y as int),
        Directive::Reset => s == reset_chars(),
    }
}

/// Whether `s` splits into one piece of terminal text per directive of
/// `ds`, in order.
pub open spec fn text_matches(s: Seq<char>, ds: Seq<Directive>) -> bool {
    exists|ps: Seq<Seq<char>>|
        ps.len() == ds.len() && s == ps.flatten() && (forall|i: int|
            0 <= i < ds.len() ==> #[trigger] dir_matches(ds[i], ps[i]))
}

/// The empty text matches the empty directive sequence.
pub proof fn lemma_text_matches_empty()
    ensures
        text_matches(Seq::<char>::empty(), Seq::<Directive>::empty()),
{
    let ps = Seq::<Seq<char>>::empty();
    assert(ps.flatten() =~= Seq::<char>::empty());
    assert(ps.len() == Seq::<Directive>::empty().len() && Seq::<char>::empty() == ps.flatten()
        && (forall|i: int|
        0 <= i < Seq::<Directive>::empty().len() ==> #[trigger] dir_matches(
            Seq::<Directive>::empty()[i],
            ps[i],
        )));
}

/// Appending one directive's text keeps the match.
pub proof fn lemma_text_matches_push(s: Seq<char>, ds: Seq<Directive>, piece: Seq<char>,
    d: Directive)
    requires
        text_matches(s, ds),
        dir_matches(d, piece),
    ensures
        text_matches(s + piece, ds.push(d)),
{
    let ps = choose|ps: Seq<Seq<char>>|
        ps.len() == ds.len() && s == ps.flatten() && (forall|i: int|
            0 <= i < ds.len() ==> #[trigger] dir_matches(ds[i], ps[i]));
    let ps2 = ps.push(piece);
    ps.lemma_flatten_push(piece);
    assert(ps2.flatten() =~= s + piece);
    assert forall|i: int| 0 <= i < ds.push(d).len() implies #[trigger] dir_matches(
        ds.push(d)[i],
        ps2[i],
    ) by {
        if i < ds.len() {
            assert(dir_matches(ds[i], ps[i]));
        }
    }
    assert(ps2.len() == ds.push(d).len() && s + piece == ps2.flatten() && (forall|i: int|
        0 <= i < ds.push(d).len() ==> #[trigger] dir_matches(ds.push(d)[i], ps2[i])));
}

/// Concatenating matching texts matches the concatenated directives.
pub proof fn lemma_text_matches_concat(s1: Seq<char>, ds1: Seq<Directive>, s2: Seq<char>,
    ds2: Seq<Directive>)
    requires
        text_matches(s1, ds1),
        text_matches(s2, ds2),
    ensures
        text_matches(s1 + s2, ds1 + ds2),
{
    let ps1 = choose|ps: Seq<Seq<char>>|
        ps.len() == ds1.len() && s1 == ps.flatten() && (forall|i: int|
            0 <= i < ds1.len() ==> #[trigger] dir_matches(ds1[i], ps[i]));
    let ps2 = choose|ps: Seq<Seq<char>>|
        ps.len() == ds2.len() && s2 == ps.flatten() && (forall|i: int|
            0 <= i < ds2.len() ==> #[trigger] dir_matches(ds2[i], ps[i]));
    let ps = ps1 + ps2;
    lemma_flatten_concat(ps1, ps2);
    assert(ps.flatten() =~= s1 + s2);
    assert forall|i: int| 0 <= i < (ds1 + ds2).len() implies #[trigger] dir_matches(
        (ds1 + ds2)[i],
        ps[i],
    ) by {
        if i < ds1.len() {
            assert(dir_matches(ds1[i], ps1[i]));
        } else {
            assert(dir_matches(ds2[i - ds1.len()], ps2[i - ds1.len()]));
        }
    }
    assert(ps.len() == (ds1 + ds2).len() && s1 + s2 == ps.flatten() && (forall|i: int|
        0 <= i < (ds1 + ds2).len() ==> #[trigger] dir_matches((ds1 + ds2)[i], ps[i])));
}

/// Relies on `String::push`: it appends exactly the given character.
pub assume_specification[ String::push ](s: &mut String, ch: char)
    ensures
        final(s)@ == old(s)@.push(ch),
;

/// Relies on crossterm's `SetForegroundColor`: its display form is
/// `CSI 38;2;r;g;b m`, or `CSI m` when the process has ANSI colors
/// disabled.
#[verifier::external_body]
fn fg_text(c: Rgb) -> (r: String)
    ensures
        r@ == fg_chars(c) || r@ == muted_color_chars(),
{
    format!("{}", SetForegroundColor(Color::Rgb { r: c.red, g: c.green, b: c.blue }))
}

/// Relies on crossterm's `SetBackgroundColor`: its display form is
/// `CSI 48;2;r;g;b m`, or `CSI m` when the process has ANSI colors
/// disabled.
#[verifier::external_body]
fn bg_text(c: Rgb) -> (r: String)
    ensures
        r@ == bg_chars(c) || r@ == muted_color_chars(),
{
    format!("{}", SetBackgroundColor(Color::Rgb { r: c.red, g: c.green, b: c.blue }))
}

/// Relies on crossterm's `ResetColor`: its display form is `CSI 0m`.
#[verifier::external_body]
fn reset_text() -> (r: String)
    ensures
        r@ == reset_chars(),
{
    format!("{}", ResetColor)
}

/// Relies on crossterm's `MoveTo`: its display form is
/// `CSI row+1;column+1 H`; both one-based values must fit in `u16`.
#[verifier::external_body]
fn move_text(x: u16, y: u16) -> (r: String)
    requires
        x <= 65534,
        y <= 65534,
    ensures
        r@ == move_chars(x as int, y as int),
{
    format!("{}", MoveTo(x, y))
}

/// Append one directive's terminal text to `out`.
pub(crate) fn push_directive(out: &mut String, d: Directive)
    requires
        d matches Directive::CursorTo(x, y) ==> x <= 65534 && y <= 65534,
    ensures
        exists|piece: Seq<char>|
            final(out)@ == old(out)@ + piece && #[trigger] dir_matches(d, piece),
{
    match d {
        Directive::SetForeground(c) => {
            let t = fg_text(c);
            out.append(t.as_str());
            proof {
                assert(dir_matches(d, t@));
            }
        },
        Directive::SetBackground(c) => {
            let t = bg_text(c);
            out.append(t.as_str());
            proof {
                assert(dir_matches(d, t@));
            }
        },
        Directive::Glyph(ch) => {
            out.push(ch);
            proof {
                assert(final(out)@ == old(out)@ + seq![ch]) by {
                    assert(old(out)@.push(ch) =~= old(out)@ + seq![ch]);
                }
                assert(dir_matches(d, seq![ch]));
            }
        },
        Directive::CursorTo(x, y) => {
            let t = move_text(x, y);
            out.append(t.as_str());
            proof {
                assert(dir_matches(d, t@));
            }
        },
        Directive::Reset => {
            let t = reset_text();
            out.append(t.as_str());
            proof {
                assert(dir_matches(d, t@));
            }
        },
    }
}

/// Render a directive sequence into one buffer of terminal text.
pub fn directives_to_text(ds: &Vec<Directive>) -> (out: String)
    requires
        forall|i: int|
            0 <= i < ds@.len() ==> (#[trigger] ds@[i] matches Directive::CursorTo(x, y) ==> x
                <= 65534 && y <= 65534),
    ensures
        text_matches(out@, ds@),
{
    let mut out = String::new();
    proof {
        lemma_text_matches_empty();
        assert(ds@.take(0) =~= Seq::<Directive>::empty());
    }
    for i in 0..ds.len()
        invariant
            text_matches(out@, ds@.take(i as int)),
            forall|j: int|
                0 <= j < ds@.len() ==> (#[trigger] ds@[j] matches Directive::CursorTo(x, y) ==> x
                    <= 65534 && y <= 65534),
    {
        let d = ds[i];
        let ghost prev = out@;
        push_directive(&mut out, d);
        proof {
            let piece = choose|piece: Seq<char>|
                out@ == prev + piece && #[trigger] dir_matches(d, piece);
            lemma_text_matches_push(prev, ds@.take(i as int), piece, d);
            assert(ds@.take(i as int).push(d) =~= ds@.take(i + 1));
        }
    }
    proof {
        assert(ds@.take(ds@.len() as int) =~= ds@);
    }
    out
}

} // verus!
