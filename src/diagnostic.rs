//! The diagnostic of a failed comparison: the condition, each operand's source
//! text underlined with its value beneath, and for equality the difference of
//! the two values.
use vstd::prelude::*;
use crate::diff::{changeset_of, diff_block, diff_fits, fits_for_diff, get_diff};
use crate::paint::{render_lines, styled_lines};
use crate::text::{byte_width, push_char, push_repeated, repeat_char, same_text, width};

verus! {

/// Which operands get their value shown: those whose source text differs from
/// the value's text.
pub enum ValuesToPrint {
    Both,
    First,
    Second,
    Neither,
}

impl ValuesToPrint {
    /// Whether the left operand's value is shown.
    pub fn has_first(&self) -> (r: bool)
        ensures
            r == (*self is Both || *self is First),
    {
        match *self {
            ValuesToPrint::Both | ValuesToPrint::First => true,
            _ => false,
        }
    }

    /// Whether the right operand's value is shown.
    pub fn has_second(&self) -> (r: bool)
        ensures
            r == (*self is Both || *self is Second),
    {
        match *self {
            ValuesToPrint::Both | ValuesToPrint::Second => true,
            _ => false,
        }
    }

    /// Whether both values are shown.
    pub fn has_both(&self) -> (r: bool)
        ensures
            r == (*self is Both),
    {
        match *self {
            ValuesToPrint::Both => true,
            _ => false,
        }
    }
}

/// The start of the first line of a diagnostic.
pub const INTRO: &'static str = "* Condition failed: ";

/// Whether an operand is decorated: its source text differs from its value.
pub open spec fn decorated(expr: Seq<char>, value: Seq<char>) -> bool {
    expr != value
}

/// `n` spaces.
pub open spec fn blanks(n: nat) -> Seq<char> {
    repeat_char(' ', n)
}

/// `c` where the mark is drawn, a space where it is not.
pub open spec fn mark(drawn: bool, c: char) -> char {
    if drawn { c } else { ' ' }
}

/// Whether the operator is equality.
pub open spec fn is_equality(op: Seq<char>) -> bool {
    op == seq!['=', '=']
}

/// The indentation that puts text under the middle of the left operand.
pub open spec fn left_indent(expr1: Seq<char>) -> Seq<char> {
    blanks(INTRO@.len()) + blanks(byte_width(expr1) / 2)
}

/// The indentation that puts text under the middle of the right operand, with
/// the left operand's connector on the way when it is drawn.
pub open spec fn right_indent(first: bool, expr1: Seq<char>, op: Seq<char>, expr2: Seq<char>) -> Seq<char> {
    left_indent(expr1) + seq![mark(first, '|')] + blanks(byte_width(expr1) / 2) + blanks(
        byte_width(op) + 2,
    ) + blanks(byte_width(expr2) / 2)
}

/// The condition as written.
pub open spec fn header_row(expr1: Seq<char>, op: Seq<char>, expr2: Seq<char>) -> Seq<char> {
    INTRO@ + expr1 + seq![' '] + op + seq![' '] + expr2 + seq!['\n']
}

/// Dashes under each decorated operand, spaces elsewhere; widths count bytes.
pub open spec fn underline_row(
    val1: Seq<char>,
    expr1: Seq<char>,
    op: Seq<char>,
    val2: Seq<char>,
    expr2: Seq<char>,
) -> Seq<char> {
    blanks(INTRO@.len()) + repeat_char(mark(decorated(expr1, val1), '-'), byte_width(expr1))
        + blanks(byte_width(op) + 2) + repeat_char(mark(decorated(expr2, val2), '-'), byte_width(expr2))
        + seq!['\n']
}

/// A bar under the middle of each decorated operand.
pub open spec fn connector_row(
    val1: Seq<char>,
    expr1: Seq<char>,
    op: Seq<char>,
    val2: Seq<char>,
    expr2: Seq<char>,
) -> Seq<char> {
    right_indent(decorated(expr1, val1), expr1, op, expr2) + seq![mark(decorated(expr2, val2), '|')]
        + seq!['\n']
}

/// The right value, each of its lines under the right connector, if the right
/// operand is decorated.
pub open spec fn right_value_rows(
    val1: Seq<char>,
    expr1: Seq<char>,
    op: Seq<char>,
    val2: Seq<char>,
    expr2: Seq<char>,
) -> Seq<char> {
    if decorated(expr2, val2) {
        styled_lines(right_indent(decorated(expr1, val1), expr1, op, expr2), None, val2) + seq!['\n']
    } else {
        Seq::empty()
    }
}

/// A bar continuing the left connector past the right value, if both
/// operands are decorated.
pub open spec fn left_connector_row(
    val1: Seq<char>,
    expr1: Seq<char>,
    val2: Seq<char>,
    expr2: Seq<char>,
) -> Seq<char> {
    if decorated(expr1, val1) && decorated(expr2, val2) {
        left_indent(expr1) + seq!['|', '\n']
    } else {
        Seq::empty()
    }
}

/// The left value, each of its lines under the left connector, if the left
/// operand is decorated.
pub open spec fn left_value_rows(val1: Seq<char>, expr1: Seq<char>) -> Seq<char> {
    if decorated(expr1, val1) {
        styled_lines(left_indent(expr1), None, val1) + seq!['\n']
    } else {
        Seq::empty()
    }
}

/// The condition with its operands annotated.
pub open spec fn value_panel(
    val1: Seq<char>,
    expr1: Seq<char>,
    op: Seq<char>,
    val2: Seq<char>,
    expr2: Seq<char>,
) -> Seq<char> {
    header_row(expr1, op, expr2) + underline_row(val1, expr1, op, val2, expr2) + connector_row(
        val1,
        expr1,
        op,
        val2,
        expr2,
    ) + right_value_rows(val1, expr1, op, val2, expr2) + left_connector_row(val1, expr1, val2, expr2)
        + left_value_rows(val1, expr1)
}

/// The whole diagnostic: the annotated condition, then, for equality, the
/// difference of the left value against the right one, line by line.
pub open spec fn diagnostic(
    val1: Seq<char>,
    expr1: Seq<char>,
    op: Seq<char>,
    val2: Seq<char>,
    expr2: Seq<char>,
) -> Seq<char> {
    value_panel(val1, expr1, op, val2, expr2) + if shows_difference(val1, expr1, op, val2, expr2) {
        diff_block(changeset_of(val1, val2, seq!['\n']))
    } else {
        Seq::empty()
    }
}

/// Whether the diagnostic ends with the difference of the values: for
/// equality with both operands decorated.
pub open spec fn shows_difference(
    val1: Seq<char>,
    expr1: Seq<char>,
    op: Seq<char>,
    val2: Seq<char>,
    expr2: Seq<char>,
) -> bool {
    is_equality(op) && decorated(expr1, val1) && decorated(expr2, val2)
}

/// Whether a diagnostic of these operands can be rendered: the difference of
/// the values, when drawn, must fit the difference algorithm.
pub open spec fn renderable(
    val1: Seq<char>,
    expr1: Seq<char>,
    op: Seq<char>,
    val2: Seq<char>,
    expr2: Seq<char>,
) -> bool {
    shows_difference(val1, expr1, op, val2, expr2) ==> diff_fits(val1.len(), val2.len())
}

/// Rendering the same comparison twice gives the same text.
pub proof fn lemma_rendering_repeats(
    val1: Seq<char>,
    expr1: Seq<char>,
    op: Seq<char>,
    val2: Seq<char>,
    expr2: Seq<char>,
    first: Seq<char>,
    second: Seq<char>,
)
    requires
        first == diagnostic(val1, expr1, op, val2, expr2),
        second == diagnostic(val1, expr1, op, val2, expr2),
    ensures
        first == second,
{
}

/// An operand whose source text is its value's text gets no decoration: only
/// spaces under it in the underline row, no bar at its middle in the
/// connector row, and none of its value rows or its own connector row.
pub proof fn lemma_plain_operand_undecorated(
    val1: Seq<char>,
    expr1: Seq<char>,
    op: Seq<char>,
    val2: Seq<char>,
    expr2: Seq<char>,
)
    ensures
        expr1 == val1 ==> {
            &&& underline_row(val1, expr1, op, val2, expr2).subrange(
                INTRO@.len() as int,
                INTRO@.len() + byte_width(expr1) as int,
            ) == blanks(byte_width(expr1))
            &&& connector_row(val1, expr1, op, val2, expr2)[INTRO@.len() + byte_width(expr1) as int / 2] == ' '
            &&& left_connector_row(val1, expr1, val2, expr2).len() == 0
            &&& left_value_rows(val1, expr1).len() == 0
        },
        expr2 == val2 ==> {
            let start = INTRO@.len() as int + byte_width(expr1) + byte_width(op) + 2;
            &&& underline_row(val1, expr1, op, val2, expr2).subrange(start, start + byte_width(expr2))
                == blanks(byte_width(expr2))
            &&& connector_row(val1, expr1, op, val2, expr2)[right_indent(
                decorated(expr1, val1),
                expr1,
                op,
                expr2,
            ).len() as int] == ' '
            &&& left_connector_row(val1, expr1, val2, expr2).len() == 0
            &&& right_value_rows(val1, expr1, op, val2, expr2).len() == 0
        },
{
    let u = underline_row(val1, expr1, op, val2, expr2);
    if expr1 == val1 {
        assert(u.subrange(INTRO@.len() as int, INTRO@.len() + byte_width(expr1) as int) =~= blanks(
            byte_width(expr1),
        ));
    }
    if expr2 == val2 {
        let start = INTRO@.len() as int + byte_width(expr1) + byte_width(op) + 2;
        assert(u.subrange(start, start + byte_width(expr2)) =~= blanks(byte_width(expr2)));
    }
}

/// A diagnostic ends with the difference block of the two values when the
/// operator is equality and both operands are decorated, and is the annotated
/// condition alone otherwise: never a difference for another operator.
pub proof fn lemma_difference_only_for_equality(
    val1: Seq<char>,
    expr1: Seq<char>,
    op: Seq<char>,
    val2: Seq<char>,
    expr2: Seq<char>,
)
    ensures
        !is_equality(op) ==> !shows_difference(val1, expr1, op, val2, expr2),
        shows_difference(val1, expr1, op, val2, expr2) ==> diagnostic(val1, expr1, op, val2, expr2)
            == value_panel(
            val1,
            expr1,
            op,
            val2,
            expr2,
        ) + diff_block(changeset_of(val1, val2, seq!['\n'])),
        !shows_difference(val1, expr1, op, val2, expr2) ==> diagnostic(val1, expr1, op, val2, expr2)
            == value_panel(
            val1,
            expr1,
            op,
            val2,
            expr2,
        ),
{
    assert(value_panel(val1, expr1, op, val2, expr2) + Seq::<char>::empty() =~= value_panel(
        val1,
        expr1,
        op,
        val2,
        expr2,
    ));
}

/// Whether the operator is equality.
fn equality_op(op: &str) -> (r: bool)
    ensures
        r == is_equality(op@),
{
    proof {
        reveal_strlit("==");
        assert("=="@ =~= seq!['=', '=']);
    }
    same_text(op, "==")
}

/// Whether the diagnostic of a comparison with these values and operator can
/// be rendered.
pub fn can_render(val1: &str, expr1: &str, op: &str, val2: &str, expr2: &str) -> (r: bool)
    ensures
        r == renderable(val1@, expr1@, op@, val2@, expr2@),
{
    !shows_difference_of(val1, expr1, op, val2, expr2) || fits_for_diff(val1, val2)
}

/// Whether the diagnostic of these operands ends with the difference of the
/// values.
fn shows_difference_of(val1: &str, expr1: &str, op: &str, val2: &str, expr2: &str) -> (r: bool)
    ensures
        r == shows_difference(val1@, expr1@, op@, val2@, expr2@),
{
    equality_op(op) && !same_text(expr1, val1) && !same_text(expr2, val2)
}

fn left_indent_text(expr1: &str) -> (r: String)
    ensures
        r@ == left_indent(expr1@),
{
    let mut pad = String::new();
    push_repeated(&mut pad, ' ', INTRO.unicode_len());
    push_repeated(&mut pad, ' ', width(expr1) / 2);
    assert(pad@ =~= left_indent(expr1@));
    pad
}

fn op_gap(op: &str) -> (r: String)
    ensures
        r@ == blanks(byte_width(op@) + 2),
{
    let mut gap = String::new();
    push_repeated(&mut gap, ' ', width(op));
    push_repeated(&mut gap, ' ', 2);
    assert(gap@ =~= blanks(byte_width(op@) + 2));
    gap
}

fn right_indent_text(first: bool, expr1: &str, op: &str, expr2: &str) -> (r: String)
    ensures
        r@ == right_indent(first, expr1@, op@, expr2@),
{
    let mut pad = left_indent_text(expr1);
    push_char(&mut pad, if first { '|' } else { ' ' });
    push_repeated(&mut pad, ' ', width(expr1) / 2);
    let gap = op_gap(op);
    pad.append(gap.as_str());
    push_repeated(&mut pad, ' ', width(expr2) / 2);
    assert(pad@ =~= right_indent(first, expr1@, op@, expr2@));
    pad
}

fn header_text(expr1: &str, op: &str, expr2: &str) -> (r: String)
    ensures
        r@ == header_row(expr1@, op@, expr2@),
{
    let mut out = String::new();
    out.append(INTRO);
    out.append(expr1);
    push_char(&mut out, ' ');
    out.append(op);
    push_char(&mut out, ' ');
    out.append(expr2);
    push_char(&mut out, '\n');
    assert(out@ =~= header_row(expr1@, op@, expr2@));
    out
}

fn underline_text(first: bool, second: bool, expr1: &str, op: &str, expr2: &str) -> (r: String)
    ensures
        r@ == blanks(INTRO@.len()) + repeat_char(mark(first, '-'), byte_width(expr1@)) + blanks(
            byte_width(op@) + 2,
        ) + repeat_char(mark(second, '-'), byte_width(expr2@)) + seq!['\n'],
{
    let mut out = String::new();
    push_repeated(&mut out, ' ', INTRO.unicode_len());
    push_repeated(&mut out, if first { '-' } else { ' ' }, width(expr1));
    let gap = op_gap(op);
    out.append(gap.as_str());
    push_repeated(&mut out, if second { '-' } else { ' ' }, width(expr2));
    push_char(&mut out, '\n');
    out
}

/// The rows of a value: each of its lines after `indent`, each row ended by a newline.
fn value_rows(value: &str, indent: &str) -> (r: String)
    ensures
        r@ == styled_lines(indent@, None, value@) + seq!['\n'],
{
    let mut rows = render_lines(value, indent, Option::None);
    push_char(&mut rows, '\n');
    rows
}

/// Renders the condition with its operands annotated.
fn render_panel(val1: &str, expr1: &str, op: &str, val2: &str, expr2: &str) -> (r: String)
    ensures
        r@ == value_panel(val1@, expr1@, op@, val2@, expr2@),
{
    let first = !same_text(expr1, val1);
    let second = !same_text(expr2, val2);
    let values_to_print = if first {
        if second { ValuesToPrint::Both } else { ValuesToPrint::First }
    } else {
        if second { ValuesToPrint::Second } else { ValuesToPrint::Neither }
    };
    let left_pad = left_indent_text(expr1);
    let right_pad = right_indent_text(values_to_print.has_first(), expr1, op, expr2);

    let mut out = header_text(expr1, op, expr2);
    let underline = underline_text(values_to_print.has_first(), values_to_print.has_second(), expr1, op, expr2);
    out.append(underline.as_str());

    out.append(right_pad.as_str());
    push_char(&mut out, if values_to_print.has_second() { '|' } else { ' ' });
    push_char(&mut out, '\n');
    let ghost at_right = out@;

    if values_to_print.has_second() {
        let rows = value_rows(val2, right_pad.as_str());
        out.append(rows.as_str());
    }
    let ghost at_left_connector = out@;

    if values_to_print.has_both() {
        out.append(left_pad.as_str());
        push_char(&mut out, '|');
        push_char(&mut out, '\n');
    }
    let ghost at_left = out@;

    if values_to_print.has_first() {
        let rows = value_rows(val1, left_pad.as_str());
        out.append(rows.as_str());
    }
    proof {
        assert(at_left_connector =~= at_right + right_value_rows(val1@, expr1@, op@, val2@, expr2@));
        assert(at_left =~= at_left_connector + left_connector_row(val1@, expr1@, val2@, expr2@));
        assert(out@ =~= at_left + left_value_rows(val1@, expr1@));
        assert(out@ =~= value_panel(val1@, expr1@, op@, val2@, expr2@));
    }
    out
}

/// Renders the diagnostic of the failed condition `expr1 op expr2`, whose
/// operands' values read `val1` and `val2`.
pub fn internal_build_error(val1: &str, expr1: &str, op: &str, val2: &str, expr2: &str) -> (r: String)
    requires
        renderable(val1@, expr1@, op@, val2@, expr2@),
    ensures
        r@ == diagnostic(val1@, expr1@, op@, val2@, expr2@),
{
    let mut out = render_panel(val1, expr1, op, val2, expr2);
    if shows_difference_of(val1, expr1, op, val2, expr2) {
        let block = get_diff(val1, val2);
        out.append(block.as_str());
    }
    assert(out@ =~= diagnostic(val1@, expr1@, op@, val2@, expr2@));
    out
}

} // verus!
