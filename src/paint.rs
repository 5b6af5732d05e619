//! Terminal colouring of text, and rendering of multi-line text line by line.
use vstd::prelude::*;
use ansi_term::Colour;
use crate::text::{join, split_lines, push_char};

verus! {

/// The two colours of a difference: removed text is red, added text green.
#[derive(Clone, Copy, Debug, PartialEq, Eq, Structural)]
pub enum Tint {
    Red,
    Green,
}

/// An ANSI control sequence `ESC [ code m`.
pub open spec fn escape(code: Seq<char>) -> Seq<char> {
    seq!['\x1b', '['] + code + seq!['m']
}

/// The sequence that restores the terminal's default style.
pub open spec fn reset() -> Seq<char> {
    escape(seq!['0'])
}

/// The foreground code of a tint.
pub open spec fn foreground(t: Tint) -> Seq<char> {
    match t {
        Tint::Red => seq!['3', '1'],
        Tint::Green => seq!['3', '2'],
    }
}

/// The code for white text on a background of the tint.
pub open spec fn white_on(t: Tint) -> Seq<char> {
    match t {
        Tint::Red => seq!['4', '1', ';', '3', '7'],
        Tint::Green => seq!['4', '2', ';', '3', '7'],
    }
}

/// `s` written in the colour of the tint.
pub open spec fn painted(t: Tint, s: Seq<char>) -> Seq<char> {
    escape(foreground(t)) + s + reset()
}

/// `s` written in white on a background of the tint.
pub open spec fn highlighted(t: Tint, s: Seq<char>) -> Seq<char> {
    escape(white_on(t)) + s + reset()
}

/// Relies on ansi_term's `Colour::paint`, displayed with `to_string`: a plain
/// colour writes its foreground code, the text, then the reset code.
#[verifier::external_body]
pub(crate) fn paint(t: Tint, s: &str) -> (r: String)
    ensures
        r@ == painted(t, s@),
{
    let c = match t {
        Tint::Red => Colour::Red,
        Tint::Green => Colour::Green,
    };
    c.paint(s).to_string()
}

/// Relies on ansi_term's `Colour::on` and `Style::paint`, displayed with
/// `to_string`: white on the tint writes the background code, then `37`, around
/// the text, then the reset code.
#[verifier::external_body]
pub(crate) fn paint_on(t: Tint, s: &str) -> (r: String)
    ensures
        r@ == highlighted(t, s@),
{
    let c = match t {
        Tint::Red => Colour::Red,
        Tint::Green => Colour::Green,
    };
    Colour::White.on(c).paint(s).to_string()
}

/// One line after `prefix`, painted in `tint` if there is one.
pub open spec fn styled_line(prefix: Seq<char>, tint: Option<Tint>, line: Seq<char>) -> Seq<char> {
    match tint {
        None => prefix + line,
        Some(t) => painted(t, prefix + line),
    }
}

/// Each of `lines` styled on its own.
pub open spec fn styled_each(prefix: Seq<char>, tint: Option<Tint>, lines: Seq<Seq<char>>) -> Seq<Seq<char>> {
    lines.map_values(|l: Seq<char>| styled_line(prefix, tint, l))
}

/// Each line of `s` styled on its own, the lines joined by newlines.
pub open spec fn styled_lines(prefix: Seq<char>, tint: Option<Tint>, s: Seq<char>) -> Seq<char> {
    join(styled_each(prefix, tint, split_lines(s)), seq!['\n'])
}

fn style_line(prefix: &str, tint: Option<Tint>, line: &str) -> (r: String)
    ensures
        r@ == styled_line(prefix@, tint, line@),
{
    let mut whole = prefix.to_owned();
    whole.append(line);
    match tint {
        None => whole,
        Some(t) => paint(t, whole.as_str()),
    }
}

proof fn lemma_join_push(parts: Seq<Seq<char>>, x: Seq<char>, sep: Seq<char>)
    requires
        parts.len() >= 1,
    ensures
        join(parts.push(x), sep) == join(parts, sep) + sep + x,
{
    assert(parts.push(x).drop_last() =~= parts);
}

/// Renders `s` line by line: each line after `prefix`, painted in `tint` if
/// there is one, the lines joined by newlines.
pub fn render_lines(s: &str, prefix: &str, tint: Option<Tint>) -> (r: String)
    ensures
        r@ == styled_lines(prefix@, tint, s@),
{
    let ghost mut done: Seq<Seq<char>> = Seq::empty();
    let mut out = String::new();
    let mut line = String::new();
    for c in it: s.chars()
        invariant
            it.seq() == s@,
            split_lines(s@.take(it.index() as int)) == done.push(line@),
            out@ == (if done.len() == 0 {
                Seq::<char>::empty()
            } else {
                join(styled_each(prefix@, tint, done), seq!['\n']) + seq!['\n']
            }),
    {
        let ghost i = it.index() as int;
        assert(s@.take(i + 1).drop_last() =~= s@.take(i));
        if c == '\n' {
            let styled = style_line(prefix, tint, line.as_str());
            let ghost out_before = out@;
            out.append(styled.as_str());
            push_char(&mut out, '\n');
            proof {
                assert(out@ =~= out_before + styled@ + seq!['\n']);
                if done.len() > 0 {
                    lemma_join_push(styled_each(prefix@, tint, done), styled_line(prefix@, tint, line@), seq!['\n']);
                }
                assert(styled_each(prefix@, tint, done.push(line@)) =~= styled_each(prefix@, tint, done).push(styled_line(prefix@, tint, line@)));
                assert(join(styled_each(prefix@, tint, done.push(line@)), seq!['\n']) + seq!['\n'] =~= out@);
                done = done.push(line@);
            }
            line = String::new();
        } else {
            let ghost before = line@;
            push_char(&mut line, c);
            assert(done.push(before).update(done.len() as int, before.push(c))
                =~= done.push(line@));
        }
    }
    let styled = style_line(prefix, tint, line.as_str());
    out.append(styled.as_str());
    proof {
        assert(s@.take(s@.len() as int) =~= s@);
        if done.len() > 0 {
            lemma_join_push(styled_each(prefix@, tint, done), styled_line(prefix@, tint, line@), seq!['\n']);
        }
        assert(styled_each(prefix@, tint, done.push(line@)) =~= styled_each(prefix@, tint, done).push(styled_line(prefix@, tint, line@)));
        assert(join(styled_each(prefix@, tint, done.push(line@)), seq!['\n']) =~= out@);
    }
    out
}

} // verus!
