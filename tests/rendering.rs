use vinegar::batch::{check, expect, expect_compare, expect_eq, expect_len};
use vinegar::diagnostic::{can_render, internal_build_error};
use vinegar::diff::{get_diff, render_diff, render_word_diff, word_by_word_diff, Chunk};
use vinegar::paint::{render_lines, Tint};
use vinegar::text::push_decimal;

const RED: &str = "\u{1b}[31m";
const GREEN: &str = "\u{1b}[32m";
const ON_RED: &str = "\u{1b}[41;37m";
const ON_GREEN: &str = "\u{1b}[42;37m";
const RESET: &str = "\u{1b}[0m";

#[test]
fn batch_without_failures_passes() {
    assert_eq!(check(vec![]), Ok(()));
    assert_eq!(check(vec![Ok(()), Ok(()), Ok(())]), Ok(()));
}

#[test]
fn batch_reports_the_single_failure() {
    let r = check(vec![Ok(()), Err("boom".to_string()), Ok(())]);
    assert_eq!(r, Err("\niteration[1]:\nboom".to_string()));
    assert_eq!(r.unwrap_err().matches("iteration[").count(), 1);
}

#[test]
fn batch_reports_every_failure_in_order() {
    let mut outcomes: Vec<Result<(), String>> = (0..12).map(|_| Ok(())).collect();
    outcomes[0] = Err("first".to_string());
    outcomes[4] = Err("a\nb".to_string());
    outcomes[11] = Err("last".to_string());
    assert_eq!(
        check(outcomes),
        Err("\niteration[0]:\nfirst\niteration[4]:\na\nb\niteration[11]:\nlast".to_string())
    );
}

#[test]
fn bare_condition() {
    assert_eq!(expect(2 + 2 == 4, "2 + 2 == 4"), Ok(()));
    assert_eq!(expect(1 > 2, "1 > 2"), Err("Condition failed: 1 > 2".to_string()));
}

#[test]
fn comparison_that_holds_passes() {
    assert_eq!(expect_compare(2 + 2 == 4, "4", "2 + 2", "==", "4", "4"), Ok(()));
}

#[test]
fn plain_right_operand_is_not_decorated() {
    let msg = expect_compare(4 < 1, "4", "{ 2 + 2 }", "<", "1000", "1000").unwrap_err();
    let expected = [
        "* Condition failed: { 2 + 2 } < 1000\n",
        "                    ---------       \n",
        "                        |          \n",
        "                        4\n",
    ].concat();
    assert_eq!(msg, expected);
}

#[test]
fn plain_operands_on_both_sides() {
    let msg = internal_build_error("1", "1", ">", "2", "2");
    assert_eq!(msg, "* Condition failed: 1 > 2\n                         \n                         \n");
}

#[test]
fn multi_line_values_stay_in_their_column() {
    let msg = internal_build_error("a\nb", "{ x }", "!=", "a\nb", "{ y }");
    let expected = [
        "* Condition failed: { x } != { y }\n",
        "                    -----    -----\n",
        "                      |        |\n",
        "                      |        a\n",
        "                      |        b\n",
        "                      |\n",
        "                      a\n",
        "                      b\n",
    ].concat();
    assert_eq!(msg, expected);
}

#[test]
fn rendering_twice_gives_the_same_text() {
    let a = internal_build_error("hello", "{ a }", "==", "hevvo", "{ b }");
    let b = internal_build_error("hello", "{ a }", "==", "hevvo", "{ b }");
    assert_eq!(a, b);
}

#[test]
fn only_equality_gets_a_difference() {
    let eq = internal_build_error("1", "{ x }", "==", "2", "{ y }");
    let ne = internal_build_error("1", "{ x }", "!=", "2", "{ y }");
    let lt = internal_build_error("1", "{ x }", "<", "2", "{ y }");
    assert!(eq.contains("----- Difference -----\n"));
    assert!(eq.ends_with("----------------------\n"));
    assert!(!ne.contains("Difference"));
    assert!(!lt.contains("Difference"));
}

#[test]
fn equality_with_a_plain_side_gets_no_difference() {
    let msg = expect_eq(false, "4", "{ 2 + 2 }", "5", "5").unwrap_err();
    let expected = [
        "* Condition failed: { 2 + 2 } == 5\n",
        "                    ---------     \n",
        "                        |         \n",
        "                        4\n",
    ].concat();
    assert_eq!(msg, expected);
}

#[test]
fn comparison_of_two_plain_operands_is_quoted_bare() {
    assert_eq!(expect_compare(1 > 2, "1", "1", ">", "2", "2"), Err("Condition failed: 1 > 2".to_string()));
    assert_eq!(expect_eq(false, "1", "1", "2", "2"), Err("Condition failed: 1 == 2".to_string()));
}

#[test]
fn widths_count_bytes() {
    // "\u{e9}" is one character of two bytes: two dashes, and the bar after one space.
    let msg = internal_build_error("1", "\u{e9}", "<", "2", "2");
    let expected = [
        "* Condition failed: \u{e9} < 2\n",
        "                    --    \n",
        "                     |     \n",
        "                     1\n",
    ].concat();
    assert_eq!(msg, expected);
}

#[test]
fn word_difference_highlights_the_changed_word() {
    let msg = expect_eq(false, "hello", "{ \"hello\" }", "hevvo", "{ \"hevvo\" }").unwrap_err();
    let block = [
        "----- Difference -----\n",
        RED, "-", RESET, ON_RED, "hello", RESET, "\n",
        GREEN, "+", RESET, ON_GREEN, "hevvo", RESET, "\n",
        "----------------------\n",
    ].concat();
    assert!(msg.ends_with(&block));
}

#[test]
fn length_matches() {
    assert_eq!(expect_len(3, 3, "[1, 2, 3]", "[1, 2, 3]"), Ok(()));
}

#[test]
fn length_differs() {
    assert_eq!(expect_len(0, 3, "[]", "[]"), Err("Length of [] is 0, not 3 -- []".to_string()));
}

#[test]
fn length_rendering_is_cut_after_fifty_characters() {
    let long: String = "x".repeat(60);
    let exact: String = "y".repeat(50);
    assert_eq!(
        expect_len(60, 1, "v", &long),
        Err(format!("Length of v is 60, not 1 -- {}...", "x".repeat(50)))
    );
    assert_eq!(
        expect_len(50, 10, "w", &exact),
        Err(format!("Length of w is 50, not 10 -- {}", exact))
    );
}

#[test]
fn decimal_digits() {
    let mut s = String::from("n=");
    push_decimal(&mut s, 0);
    push_decimal(&mut s, 7);
    s.push(',');
    push_decimal(&mut s, 1234567890);
    assert_eq!(s, "n=07,1234567890");
}

#[test]
fn lines_are_prefixed_and_painted_one_by_one() {
    assert_eq!(render_lines("a\n\nb", "> ", None), "> a\n> \n> b");
    assert_eq!(render_lines("", " ", None), " ");
    assert_eq!(
        render_lines("x\ny", "-", Some(Tint::Red)),
        format!("{RED}-x{RESET}\n{RED}-y{RESET}")
    );
}

#[test]
fn kept_and_changed_lines() {
    let block = get_diff("same\nold\nend", "same\nnew\nend");
    let expected = [
        "----- Difference -----\n",
        " same\n",
        RED, "-", RESET, ON_RED, "old", RESET, "\n",
        GREEN, "+", RESET, ON_GREEN, "new", RESET, "\n",
        " end\n",
        "----------------------\n",
    ].concat();
    assert_eq!(block, expected);
}

#[test]
fn empty_kept_line_between_changes_is_shown() {
    let block = get_diff("x\na\n\nb", "x\nc\n\nd");
    let expected = [
        "----- Difference -----\n",
        " x\n",
        RED, "-", RESET, ON_RED, "a", RESET, "\n",
        GREEN, "+", RESET, ON_GREEN, "c", RESET, "\n",
        " \n",
        RED, "-", RESET, ON_RED, "b", RESET, "\n",
        GREEN, "+", RESET, ON_GREEN, "d", RESET, "\n",
        "----------------------\n",
    ].concat();
    assert_eq!(block, expected);
}

#[test]
fn several_removed_lines_are_shown_whole() {
    let block = get_diff("Hello\nworld\nWhat a \nbeautiful\nday!", "Ola\nworld");
    let expected = [
        "----- Difference -----\n",
        RED, "-", RESET, ON_RED, "Hello", RESET, "\n",
        GREEN, "+", RESET, ON_GREEN, "Ola", RESET, "\n",
        " world\n",
        RED, "-What a ", RESET, "\n",
        RED, "-beautiful", RESET, "\n",
        RED, "-day!", RESET, "\n",
        "----------------------\n",
    ].concat();
    assert_eq!(block, expected);
}

#[test]
fn added_lines_alone_are_shown_whole() {
    let block = get_diff("", "a\nb");
    let expected = [
        "----- Difference -----\n",
        GREEN, "+a", RESET, "\n",
        GREEN, "+b", RESET, "\n",
        "----------------------\n",
    ].concat();
    assert_eq!(block, expected);
}

#[test]
fn word_difference_of_two_lines() {
    let removed = word_by_word_diff("the quick fox", "the slow fox", true);
    let added = word_by_word_diff("the quick fox", "the slow fox", false);
    assert_eq!(removed, format!("{RED}-{RESET}{RED}the{RESET} {ON_RED}quick{RESET} {RED}fox{RESET}"));
    assert_eq!(added, format!("{GREEN}+{RESET}{GREEN}the{RESET} {ON_GREEN}slow{RESET} {GREEN}fox{RESET}"));
}

#[test]
fn word_pieces_rendered_per_side() {
    let words = vec![
        Chunk::Same("a b".to_string()),
        Chunk::Rem("c".to_string()),
        Chunk::Add("d".to_string()),
        Chunk::Same(String::new()),
    ];
    assert_eq!(render_word_diff(&words, true), format!("{RED}-{RESET}{RED}a b{RESET} {ON_RED}c{RESET}"));
    assert_eq!(render_word_diff(&words, false), format!("{GREEN}+{RESET}{GREEN}a b{RESET} {ON_GREEN}d{RESET}"));
    assert_eq!(render_word_diff(&vec![], true), format!("{RED}-{RESET}"));
}

#[test]
fn pieces_rendered_as_a_block() {
    let changes = vec![
        Chunk::Same(String::new()),
        Chunk::Rem("x\ny".to_string()),
        Chunk::Add("z".to_string()),
        Chunk::Same("k".to_string()),
    ];
    let expected = [
        "----- Difference -----\n",
        " \n",
        RED, "-x", RESET, "\n",
        RED, "-y", RESET, "\n",
        GREEN, "+z", RESET, "\n",
        " k\n",
        "----------------------\n",
    ].concat();
    assert_eq!(render_diff(&changes), expected);
    assert_eq!(render_diff(&vec![]), "----- Difference -----\n----------------------\n");
}

#[test]
fn ordinary_values_can_be_rendered() {
    assert!(can_render("hello", "{ a }", "==", "hevvo", "{ b }"));
    assert!(can_render("", "{ a }", "<", "", "{ b }"));
    assert!(can_render(&"z".repeat(10_000), "{ a }", "==", &"w".repeat(10_000), "{ b }"));
}
