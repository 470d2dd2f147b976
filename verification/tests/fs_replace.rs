use forge::fs_replace::{normalize_line_endings, parse_blocks, DiffError, FSReplace};

fn edit(content: &str, diff: &str) -> Result<String, String> {
    FSReplace.edit(diff, content)
}

#[test]
fn test_whitespace_preservation() {
    let content = "    Hello World    \n  Test Line  \n   Goodbye World   \n";
    let result = edit(
        content,
        "<<<<<<< SEARCH\n    Hello World    \n=======\n    Hi World    \n>>>>>>> REPLACE\n",
    )
    .unwrap();
    assert_eq!(result, "    Hi World    \n  Test Line  \n   Goodbye World   \n");
    assert!(FSReplace::success_message("test.txt").contains("Successfully replaced"));
}

#[test]
fn test_empty_search_new_file() {
    let result = edit("", "<<<<<<< SEARCH\n=======\nNew content\n>>>>>>> REPLACE\n").unwrap();
    assert_eq!(result, "New content\n");
}

#[test]
fn test_multiple_blocks() {
    let content = "    First Line    \n  Middle Line  \n    Last Line    \n";
    let diff = "<<<<<<< SEARCH\n    First Line    \n=======\n    New First    \n>>>>>>> REPLACE\n<<<<<<< SEARCH\n    Last Line    \n=======\n    New Last    \n>>>>>>> REPLACE\n";
    let result = edit(content, diff).unwrap();
    assert_eq!(result, "    New First    \n  Middle Line  \n    New Last    \n");
}

#[test]
fn test_empty_block() {
    let content = "    First Line    \n  Middle Line  \n    Last Line    \n";
    let result = edit(content, "<<<<<<< SEARCH\n  Middle Line  \n=======\n>>>>>>> REPLACE\n").unwrap();
    assert_eq!(result, "    First Line    \n    Last Line    \n");
}

#[test]
fn test_newline_preservation() {
    let content = "First Line\n\nSecond Line\n\n\nThird Line\n";
    let result = edit(
        content,
        "<<<<<<< SEARCH\nSecond Line\n\n\n=======\nReplaced Line\n\n\n>>>>>>> REPLACE\n",
    )
    .unwrap();
    assert_eq!(result, "First Line\n\nReplaced Line\n\n\nThird Line\n");
}

#[test]
fn success_message_names_the_path() {
    assert_eq!(FSReplace::success_message("a/b.txt"), "Successfully replaced content in a/b.txt");
}

#[test]
fn only_first_match_is_replaced() {
    let result = edit("x x x", "<<<<<<< SEARCH\nx\n=======\ny\n>>>>>>> REPLACE\n");
    // the search text is "x\n", which does not occur: content unchanged
    assert_eq!(result.unwrap(), "x x x");
    let result = edit("a\nb\na\n", "<<<<<<< SEARCH\na\n=======\nc\n>>>>>>> REPLACE\n").unwrap();
    assert_eq!(result, "c\nb\na\n");
}

#[test]
fn missing_search_leaves_content() {
    let result = edit("hello\n", "<<<<<<< SEARCH\nbye\n=======\nhi\n>>>>>>> REPLACE\n").unwrap();
    assert_eq!(result, "hello\n");
}

#[test]
fn same_text_block_leaves_content() {
    let result = edit("one\ntwo\n", "<<<<<<< SEARCH\ntwo\n=======\ntwo\n>>>>>>> REPLACE\n").unwrap();
    assert_eq!(result, "one\ntwo\n");
}

#[test]
fn new_file_without_final_newline_gets_one() {
    let result = edit("old", "<<<<<<< SEARCH\n=======\nabc>>>>>>> REPLACE\n").unwrap();
    assert_eq!(result, "abc\n");
    let result = edit("old", "<<<<<<< SEARCH\n=======\n>>>>>>> REPLACE\n").unwrap();
    assert_eq!(result, "");
}

#[test]
fn crlf_is_normalized() {
    assert_eq!(normalize_line_endings("a\r\nb\rc\r\n"), "a\nb\rc\n");
    assert_eq!(normalize_line_endings("\r\r\n"), "\r\n");
    let result = edit("one\ntwo\n", "<<<<<<< SEARCH\r\none\r\n=======\r\nuno\r\n>>>>>>> REPLACE\r\n").unwrap();
    assert_eq!(result, "uno\ntwo\n");
}

#[test]
fn parse_errors() {
    assert!(matches!(parse_blocks("no blocks here"), Err(DiffError::NoBlocks)));
    assert!(matches!(parse_blocks("<<<<<<< SEARCH"), Err(DiffError::MissingSearchNewline)));
    assert!(matches!(parse_blocks("<<<<<<< SEARCH\nabc"), Err(DiffError::MissingSeparator)));
    assert!(matches!(parse_blocks("<<<<<<< SEARCH\nabc\n======="), Err(DiffError::MissingSeparatorNewline)));
    assert!(matches!(parse_blocks("<<<<<<< SEARCH\nabc\n=======\ndef\n"), Err(DiffError::MissingEndMarker)));
    assert_eq!(
        edit("x", "nothing").unwrap_err(),
        "Invalid diff format: No valid blocks found"
    );
    assert_eq!(
        edit("x", "<<<<<<< SEARCH\nabc").unwrap_err(),
        "Invalid diff format: Missing separator"
    );
    assert_eq!(DiffError::MissingSearchNewline.message(), "Invalid diff format: Missing newline after SEARCH marker");
    assert_eq!(DiffError::MissingSeparatorNewline.message(), "Invalid diff format: Missing newline after separator");
    assert_eq!(DiffError::MissingEndMarker.message(), "Invalid diff format: Missing end marker");
}

#[test]
fn parse_gives_back_written_blocks() {
    let diff = "<<<<<<< SEARCH\nfn a() {}\n=======\nfn b() {}\n>>>>>>> REPLACE\n<<<<<<< SEARCH\nx\n=======\n>>>>>>> REPLACE\n";
    let blocks = parse_blocks(diff).unwrap();
    assert_eq!(blocks.len(), 2);
    assert_eq!(blocks[0].search, "fn a() {}\n");
    assert_eq!(blocks[0].replace, "fn b() {}\n");
    assert_eq!(blocks[1].search, "x\n");
    assert_eq!(blocks[1].replace, "");
}

#[test]
fn text_after_end_marker_up_to_newline_is_skipped() {
    let diff = "<<<<<<< SEARCH\na\n=======\nb\n>>>>>>> REPLACE trailing\n<<<<<<< SEARCH\nc\n=======\nd\n>>>>>>> REPLACE";
    let blocks = parse_blocks(diff).unwrap();
    assert_eq!(blocks.len(), 2);
    assert_eq!(blocks[1].search, "c\n");
    assert_eq!(blocks[1].replace, "d\n");
}

#[test]
fn concatenated_diffs_give_both_block_lists_in_order() {
    let d1 = "<<<<<<< SEARCH\na\n=======\nb\n>>>>>>> REPLACE\n";
    let d2 = "<<<<<<< SEARCH\r\nc\r\n=======\r\nd\r\n>>>>>>> REPLACE\r\n<<<<<<< SEARCH\ne\n=======\n>>>>>>> REPLACE\n";
    let whole = format!("{}{}", d1, d2);
    let b1 = parse_blocks(d1).ok().unwrap();
    let b2 = parse_blocks(d2).ok().unwrap();
    let b = parse_blocks(&whole).ok().unwrap();
    assert_eq!(b.len(), b1.len() + b2.len());
    let pairs: Vec<(String, String)> = b.iter().map(|x| (x.search.clone(), x.replace.clone())).collect();
    let mut expected: Vec<(String, String)> = b1.iter().map(|x| (x.search.clone(), x.replace.clone())).collect();
    expected.extend(b2.iter().map(|x| (x.search.clone(), x.replace.clone())));
    assert_eq!(pairs, expected);
    assert_eq!(pairs[1], ("c\n".to_string(), "d\n".to_string()));
}
