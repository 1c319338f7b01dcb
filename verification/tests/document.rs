use lean4_mcp_proxy::document::{edit_text, split_lines, whole_text_range};
use lean4_mcp_proxy::lean_client::LeanClient;
use lean4_mcp_proxy::lsp::{LspPosition, LspRange};

fn range(start: (u64, u64), end: (u64, u64)) -> LspRange {
    LspRange {
        start: LspPosition { line: start.0, character: start.1 },
        end: LspPosition { line: end.0, character: end.1 },
    }
}

#[test]
fn test_position_to_offset_first_line() {
    let text = "hello\nworld\n";
    let lines: Vec<&str> = text.split('\n').collect();
    // Line 0, char 0 -> offset 0
    assert_eq!(LeanClient::position_to_offset(&lines, 0, 0), 0);
    // Line 0, char 3 -> offset 3
    assert_eq!(LeanClient::position_to_offset(&lines, 0, 3), 3);
    // Line 0, char 5 -> offset 5 (end of "hello")
    assert_eq!(LeanClient::position_to_offset(&lines, 0, 5), 5);
}

#[test]
fn test_position_to_offset_second_line() {
    let text = "hello\nworld\n";
    let lines: Vec<&str> = text.split('\n').collect();
    // Line 1, char 0 -> offset 6 (after "hello\n")
    assert_eq!(LeanClient::position_to_offset(&lines, 1, 0), 6);
    // Line 1, char 3 -> offset 9
    assert_eq!(LeanClient::position_to_offset(&lines, 1, 3), 9);
    // Line 1, char 5 -> offset 11 (end of "world")
    assert_eq!(LeanClient::position_to_offset(&lines, 1, 5), 11);
}

#[test]
fn test_position_to_offset_clamped_character() {
    let text = "hi\nworld\n";
    let lines: Vec<&str> = text.split('\n').collect();
    // Line 0, char 100 -> clamped to end of "hi" = offset 2
    assert_eq!(LeanClient::position_to_offset(&lines, 0, 100), 2);
}

#[test]
fn test_position_to_offset_empty_text() {
    let text = "";
    let lines: Vec<&str> = text.split('\n').collect();
    // Line 0, char 0 on empty string
    assert_eq!(LeanClient::position_to_offset(&lines, 0, 0), 0);
}

#[test]
fn test_position_to_offset_multiline() {
    let text = "def hello : String := \"world\"\n\n#check hello\n";
    let lines: Vec<&str> = text.split('\n').collect();
    // Line 0, char 0
    assert_eq!(LeanClient::position_to_offset(&lines, 0, 0), 0);
    // Line 1, char 0 (empty line after first)
    assert_eq!(LeanClient::position_to_offset(&lines, 1, 0), 30);
    // Line 2, char 0
    assert_eq!(LeanClient::position_to_offset(&lines, 2, 0), 31);
    // Line 2, char 6 -> "#check" ends at char 6
    assert_eq!(LeanClient::position_to_offset(&lines, 2, 6), 37);
}

#[test]
fn a_place_behind_the_last_line_is_behind_the_text() {
    let lines = ["ab", "c"];
    assert_eq!(LeanClient::position_to_offset(&lines, 2, 0), 5);
    assert_eq!(LeanClient::position_to_offset(&lines, 7, 3), 5);
}

#[test]
fn lines_are_split_at_line_feeds() {
    assert_eq!(split_lines(""), vec![""]);
    assert_eq!(split_lines("a\n\nbé"), vec!["a", "", "bé"]);
    assert_eq!(split_lines("a\n"), vec!["a", ""]);
}

#[test]
fn an_edit_puts_text_in_the_place_of_a_stretch() {
    let text = "theorem a : 1 = 1 := by\n  sorry\n";
    assert_eq!(
        edit_text(text, range((1, 2), (1, 7)), "rfl"),
        Ok("theorem a : 1 = 1 := by\n  rfl\n".to_string())
    );
    assert_eq!(
        edit_text("ab\ncd", range((0, 1), (1, 1)), ""),
        Ok("ad".to_string())
    );
    assert_eq!(
        edit_text("ab", range((0, 9), (0, 9)), "c"),
        Ok("abc".to_string())
    );
}

#[test]
fn an_edit_out_of_bounds_is_refused() {
    assert_eq!(
        edit_text("a\nb", range((0, 0), (3, 0)), "x"),
        Err("Edit range out of bounds: lines 0-3, document has 2 lines".to_string())
    );
}

#[test]
fn an_edit_that_ends_before_it_begins_is_refused() {
    assert_eq!(
        edit_text("abc\ndef", range((1, 1), (0, 2)), "x"),
        Err("Invalid edit range: start offset (5) > end offset (2)".to_string())
    );
}

#[test]
fn an_edit_behind_the_last_line_is_refused() {
    assert_eq!(
        edit_text("a", range((0, 0), (1, 0)), "x"),
        Err("Edit range out of bounds: lines 0-1, document has 1 lines".to_string())
    );
    assert_eq!(
        edit_text("a\n", range((2, 0), (2, 0)), "x"),
        Err("Edit range out of bounds: lines 2-2, document has 2 lines".to_string())
    );
    assert_eq!(edit_text("a\n", range((1, 0), (1, 0)), "x"), Ok("a\nx".to_string()));
}

#[test]
fn an_edit_inside_a_character_is_refused() {
    assert_eq!(edit_text("aé", range((0, 1), (0, 3)), "b"), Ok("ab".to_string()));
    assert_eq!(
        edit_text("aé", range((0, 2), (0, 3)), "b"),
        Err(
            "Invalid edit range: start offset (2) or end offset (3) is inside a character"
                .to_string()
        )
    );
}

#[test]
fn replacing_all_of_a_text_leaves_the_new_one() {
    for text in ["", "a", "a\n", "a\nbé\n\n", "\n"] {
        let all = whole_text_range(text);
        assert_eq!(edit_text(text, all, "new"), Ok("new".to_string()));
    }
    assert_eq!(whole_text_range("a\nbé"), range((0, 0), (1, 3)));
}
