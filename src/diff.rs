//! The difference block shown under a failed equality: a line-level diff of
//! the two values, with a word-level diff for a single changed line.
use vstd::prelude::*;
use difference::{Changeset, Difference};
use crate::paint::{Tint, painted, highlighted, paint, paint_on, styled_lines, render_lines};
use crate::text::{join, single_line, is_single_line, push_char};

verus! {

/// One piece of a difference between two texts: kept, added or removed.
#[derive(Debug)]
pub enum Chunk<T> {
    Same(T),
    Add(T),
    Rem(T),
}

impl<T> Chunk<T> {
    /// The text that the piece carries.
    pub open spec fn text(self) -> T {
        match self {
            Chunk::Same(t) => t,
            Chunk::Add(t) => t,
            Chunk::Rem(t) => t,
        }
    }
}

impl View for Chunk<String> {
    type V = Chunk<Seq<char>>;

    open spec fn view(&self) -> Chunk<Seq<char>> {
        match self {
            Chunk::Same(t) => Chunk::Same(t@),
            Chunk::Add(t) => Chunk::Add(t@),
            Chunk::Rem(t) => Chunk::Rem(t@),
        }
    }
}

/// The pieces as character sequences.
pub open spec fn chunks_view(v: Seq<Chunk<String>>) -> Seq<Chunk<Seq<char>>> {
    v.map_values(|c: Chunk<String>| c@)
}

/// The pieces into which the difference algorithm cuts `orig` and `edit`,
/// both split at `split`.
pub uninterp spec fn changeset_of(orig: Seq<char>, edit: Seq<char>, split: Seq<char>) -> Seq<Chunk<Seq<char>>>;

/// Whether two texts are small enough for the difference algorithm's table,
/// which holds a machine word for each pair of pieces (at most one piece per
/// byte, plus one, and at most four bytes per character).
pub open spec fn diff_fits(a: nat, b: nat) -> bool {
    (4 * a + 1) * (4 * b + 1) <= usize::MAX as int / 16
}

/// Whether texts of these lengths fit the difference algorithm.
pub fn fits_for_diff(a: &str, b: &str) -> (r: bool)
    ensures
        r == diff_fits(a@.len(), b@.len()),
{
    let limit: u128 = (usize::MAX / 16) as u128;
    let x: u128 = 4 * (a.unicode_len() as u128) + 1;
    let y: u128 = 4 * (b.unicode_len() as u128) + 1;
    if x > limit || y > limit {
        assert(x * y > limit) by (nonlinear_arith)
            requires
                x > limit || y > limit,
                x >= 1,
                y >= 1,
        ;
        return false;
    }
    assert(x * y <= limit * limit) by (nonlinear_arith)
        requires
            x <= limit,
            y <= limit,
    ;
    assert(limit * limit <= u128::MAX) by (nonlinear_arith)
        requires
            limit < 0x1_0000_0000_0000_0000,
    ;
    x * y <= limit
}

/// Each piece is no longer than the text it was cut from.
pub open spec fn pieces_within(d: Seq<Chunk<Seq<char>>>, orig: nat, edit: nat) -> bool {
    forall|k: int| 0 <= k < d.len() ==> (#[trigger] d[k]).text().len()
        <= if d[k] is Add { edit } else { orig }
}

/// Relies on difference's `Changeset::new`: its `diffs`, mapped one for one.
/// Each piece joins consecutive parts of the text it was cut from.
#[verifier::external_body]
fn changeset(orig: &str, edit: &str, split: &str) -> (r: Vec<Chunk<String>>)
    requires
        diff_fits(orig@.len(), edit@.len()),
    ensures
        chunks_view(r@) == changeset_of(orig@, edit@, split@),
        pieces_within(chunks_view(r@), orig@.len(), edit@.len()),
{
    Changeset::new(orig, edit, split).diffs.into_iter().map(|d| match d {
        Difference::Same(t) => Chunk::Same(t),
        Difference::Add(t) => Chunk::Add(t),
        Difference::Rem(t) => Chunk::Rem(t),
    }).collect()
}

/// The colour of a side: red for the removed line, green for the added one.
pub open spec fn side_tint(removal: bool) -> Tint {
    if removal { Tint::Red } else { Tint::Green }
}

/// The mark in front of a side's line.
pub open spec fn side_mark(removal: bool) -> char {
    if removal { '-' } else { '+' }
}

/// The words shown on one side of a word-level difference: the kept words in
/// the side's colour, the side's own changed words highlighted, empty pieces
/// and the other side's words left out.
pub open spec fn word_parts(w: Seq<Chunk<Seq<char>>>, removal: bool) -> Seq<Seq<char>>
    decreases w.len(),
{
    if w.len() == 0 {
        Seq::empty()
    } else {
        let rest = word_parts(w.drop_last(), removal);
        let t = side_tint(removal);
        match w.last() {
            Chunk::Same(z) => if z.len() > 0 { rest.push(painted(t, z)) } else { rest },
            Chunk::Rem(z) => if removal && z.len() > 0 { rest.push(highlighted(t, z)) } else { rest },
            Chunk::Add(z) => if !removal && z.len() > 0 { rest.push(highlighted(t, z)) } else { rest },
        }
    }
}

/// One side of a word-level difference: the coloured mark, then the words
/// separated by single spaces.
pub open spec fn word_diff_text(w: Seq<Chunk<Seq<char>>>, removal: bool) -> Seq<char> {
    painted(side_tint(removal), seq![side_mark(removal)]) + join(word_parts(w, removal), seq![' '])
}

/// Renders one side of a word-level difference from the word pieces `words`.
pub fn render_word_diff(words: &Vec<Chunk<String>>, removal: bool) -> (r: String)
    ensures
        r@ == word_diff_text(chunks_view(words@), removal),
{
    let ghost w = chunks_view(words@);
    let t = if removal { Tint::Red } else { Tint::Green };
    let mut joined = String::new();
    let mut any = false;
    let mut k: usize = 0;
    while k < words.len()
        invariant
            k <= words.len(),
            w == chunks_view(words@),
            t == side_tint(removal),
            joined@ == join(word_parts(w.take(k as int), removal), seq![' ']),
            any == (word_parts(w.take(k as int), removal).len() > 0),
        decreases words.len() - k,
    {
        let ghost before = word_parts(w.take(k as int), removal);
        assert(w.take(k + 1).drop_last() =~= w.take(k as int));
        assert(w.take(k + 1).last() == words@[k as int]@);
        let piece: Option<String> = match &words[k] {
            Chunk::Same(z) => if !z.as_str().is_empty() { Some(paint(t, z.as_str())) } else { None },
            Chunk::Rem(z) => if removal && !z.as_str().is_empty() { Some(paint_on(t, z.as_str())) } else { None },
            Chunk::Add(z) => if !removal && !z.as_str().is_empty() { Some(paint_on(t, z.as_str())) } else { None },
        };
        if let Some(p) = piece {
            if any {
                joined.append(" ");
            }
            joined.append(p.as_str());
            proof {
                reveal_strlit(" ");
                let after = word_parts(w.take(k + 1), removal);
                assert(after == before.push(p@));
                if before.len() > 0 {
                    assert(after.drop_last() =~= before);
                }
            }
            any = true;
        }
        k = k + 1;
    }
    assert(w.take(words.len() as int) =~= w);
    let mut out = paint(t, if removal { "-" } else { "+" });
    proof {
        reveal_strlit("-");
        reveal_strlit("+");
    }
    out.append(joined.as_str());
    out
}

/// Whether two texts of these lengths still fit the difference algorithm once
/// two shorter ones fit.
proof fn lemma_fits_smaller(a: nat, b: nat, a2: nat, b2: nat)
    requires
        diff_fits(a, b),
        a2 <= a,
        b2 <= b,
    ensures
        diff_fits(a2, b2),
{
    assert((4 * a2 + 1) * (4 * b2 + 1) <= (4 * a + 1) * (4 * b + 1)) by (nonlinear_arith)
        requires
            a2 <= a,
            b2 <= b,
    ;
}

/// Renders one side of the word-level difference of two single lines.
pub fn word_by_word_diff(x: &str, y: &str, removal: bool) -> (r: String)
    requires
        diff_fits(x@.len(), y@.len()),
    ensures
        r@ == word_diff_text(changeset_of(x@, y@, seq![' ']), removal),
{
    let words = changeset(x, y, " ");
    proof {
        reveal_strlit(" ");
        assert(" "@ =~= seq![' ']);
    }
    render_word_diff(&words, removal)
}

/// The first line of a difference block.
pub const DIFF_HEADER: &'static str = "----- Difference -----\n";

/// The last line of a difference block.
pub const DIFF_FOOTER: &'static str = "----------------------\n";

/// Whether the pieces at `k` and `k + 1` are a single removed line followed by
/// a single added line, shown as a word-level difference.
pub open spec fn word_pair(d: Seq<Chunk<Seq<char>>>, k: int) -> bool {
    &&& 0 <= k
    &&& k + 1 < d.len()
    &&& d[k] is Rem
    &&& d[k + 1] is Add
    &&& single_line(d[k].text())
    &&& single_line(d[k + 1].text())
}

/// The rows shown for the piece at `k`: kept lines after a space; a single
/// changed line paired with its counterpart as a word-level difference; other
/// removed or added lines coloured whole after `-` or `+`.
pub open spec fn chunk_text(d: Seq<Chunk<Seq<char>>>, k: int) -> Seq<char> {
    match d[k] {
        Chunk::Same(x) => styled_lines(seq![' '], None, x) + seq!['\n'],
        Chunk::Rem(x) => if word_pair(d, k) {
            word_diff_text(changeset_of(x, d[k + 1].text(), seq![' ']), true) + seq!['\n']
        } else {
            styled_lines(seq!['-'], Some(Tint::Red), x) + seq!['\n']
        },
        Chunk::Add(y) => if word_pair(d, k - 1) {
            word_diff_text(changeset_of(d[k - 1].text(), y, seq![' ']), false) + seq!['\n']
        } else {
            styled_lines(seq!['+'], Some(Tint::Green), y) + seq!['\n']
        },
    }
}

/// The rows of the first `n` pieces.
pub open spec fn diff_body(d: Seq<Chunk<Seq<char>>>, n: nat) -> Seq<char>
    decreases n,
{
    if n == 0 {
        Seq::empty()
    } else {
        diff_body(d, (n - 1) as nat) + chunk_text(d, n - 1)
    }
}

/// The whole difference block of the pieces `d`.
pub open spec fn diff_block(d: Seq<Chunk<Seq<char>>>) -> Seq<char> {
    DIFF_HEADER@ + diff_body(d, d.len()) + DIFF_FOOTER@
}

/// Whether every word-level pair of `d` fits the difference algorithm.
pub open spec fn word_pairs_fit(d: Seq<Chunk<Seq<char>>>) -> bool {
    forall|k: int| #[trigger] word_pair(d, k) ==> diff_fits(d[k].text().len(), d[k + 1].text().len())
}

fn whole_lines(x: &str, removal: bool) -> (r: String)
    ensures
        r@ == styled_lines(seq![side_mark(removal)], Some(side_tint(removal)), x@) + seq!['\n'],
{
    let mut text = if removal {
        render_lines(x, "-", Some(Tint::Red))
    } else {
        render_lines(x, "+", Some(Tint::Green))
    };
    proof {
        reveal_strlit("-");
        reveal_strlit("+");
        assert("-"@ =~= seq!['-']);
        assert("+"@ =~= seq!['+']);
    }
    push_char(&mut text, '\n');
    text
}

fn render_chunk(changes: &Vec<Chunk<String>>, k: usize) -> (r: String)
    requires
        k < changes.len(),
        word_pairs_fit(chunks_view(changes@)),
    ensures
        r@ == chunk_text(chunks_view(changes@), k as int),
{
    let ghost d = chunks_view(changes@);
    assert(d[k as int] == changes@[k as int]@);
    match &changes[k] {
        Chunk::Same(x) => {
            let mut text = render_lines(x.as_str(), " ", None);
            proof {
                reveal_strlit(" ");
                assert(" "@ =~= seq![' ']);
            }
            push_char(&mut text, '\n');
            text
        },
        Chunk::Rem(x) => {
            if k + 1 < changes.len() && is_single_line(x.as_str()) {
                assert(d[k + 1] == changes@[k + 1]@);
                match &changes[k + 1] {
                    Chunk::Add(y) => {
                        if is_single_line(y.as_str()) {
                            assert(word_pair(d, k as int));
                            let mut text = word_by_word_diff(x.as_str(), y.as_str(), true);
                            push_char(&mut text, '\n');
                            text
                        } else {
                            whole_lines(x.as_str(), true)
                        }
                    },
                    _ => whole_lines(x.as_str(), true),
                }
            } else {
                whole_lines(x.as_str(), true)
            }
        },
        Chunk::Add(y) => {
            if k >= 1 && is_single_line(y.as_str()) {
                assert(d[k - 1] == changes@[k - 1]@);
                match &changes[k - 1] {
                    Chunk::Rem(x) => {
                        if is_single_line(x.as_str()) {
                            assert(word_pair(d, k - 1));
                            let mut text = word_by_word_diff(x.as_str(), y.as_str(), false);
                            push_char(&mut text, '\n');
                            text
                        } else {
                            whole_lines(y.as_str(), false)
                        }
                    },
                    _ => whole_lines(y.as_str(), false),
                }
            } else {
                whole_lines(y.as_str(), false)
            }
        },
    }
}

/// Renders the difference block of the pieces `changes`.
pub fn render_diff(changes: &Vec<Chunk<String>>) -> (r: String)
    requires
        word_pairs_fit(chunks_view(changes@)),
    ensures
        r@ == diff_block(chunks_view(changes@)),
{
    let ghost d = chunks_view(changes@);
    let mut out = String::new();
    out.append(DIFF_HEADER);
    let mut k: usize = 0;
    while k < changes.len()
        invariant
            k <= changes.len(),
            d == chunks_view(changes@),
            word_pairs_fit(d),
            out@ == DIFF_HEADER@ + diff_body(d, k as nat),
        decreases changes.len() - k,
    {
        let text = render_chunk(changes, k);
        out.append(text.as_str());
        k = k + 1;
    }
    out.append(DIFF_FOOTER);
    out
}

/// Renders the difference block of `text1` against `text2`, compared line by
/// line.
pub fn get_diff(text1: &str, text2: &str) -> (r: String)
    requires
        diff_fits(text1@.len(), text2@.len()),
    ensures
        r@ == diff_block(changeset_of(text1@, text2@, seq!['\n'])),
{
    let changes = changeset(text1, text2, "\n");
    proof {
        reveal_strlit("\n");
        assert("\n"@ =~= seq!['\n']);
        let d = chunks_view(changes@);
        assert forall|k: int| #[trigger] word_pair(d, k) implies diff_fits(
            d[k].text().len(),
            d[k + 1].text().len(),
        ) by {
            lemma_fits_smaller(text1@.len(), text2@.len(), d[k].text().len(), d[k + 1].text().len());
        }
    }
    render_diff(&changes)
}

} // verus!
