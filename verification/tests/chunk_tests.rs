use rag_core::chunk::{chunk_text, split_into_lines};

#[test]
fn splits_text_into_lines() {
    let lines = split_into_lines("aaa\nbb\nc");
    assert_eq!(lines, vec!["aaa", "bb", "c"]);
}

#[test]
fn split_keeps_empty_lines() {
    assert_eq!(split_into_lines(""), vec![""]);
    assert_eq!(split_into_lines("a\n"), vec!["a", ""]);
    assert_eq!(split_into_lines("\n\n"), vec!["", "", ""]);
}

#[test]
fn chunks_accumulate_lines_greedily() {
    let chunks = chunk_text("aaa\nbb\nc\ndddd", 7);
    assert_eq!(chunks, vec!["aaa\nbb", "c\ndddd"]);
}

#[test]
fn chunk_boundaries_replace_newlines_exactly() {
    let text = "one\ntwo\nthree\nfour";
    let chunks = chunk_text(text, 8);
    assert_eq!(chunks.join("\n"), text);
}

#[test]
fn oversized_line_becomes_its_own_chunk() {
    let chunks = chunk_text("xxxxxxxxxx", 3);
    assert_eq!(chunks, vec!["xxxxxxxxxx"]);
    let chunks = chunk_text("a\nyyyyyyyy\nb", 4);
    assert_eq!(chunks, vec!["a", "yyyyyyyy", "b"]);
}

#[test]
fn empty_text_is_one_empty_chunk() {
    assert_eq!(chunk_text("", 16), vec![""]);
}

#[test]
fn zero_budget_gives_one_chunk_per_line() {
    assert_eq!(chunk_text("a\nb\nc", 0), vec!["a", "b", "c"]);
}

#[test]
fn large_budget_keeps_the_document_whole() {
    let text = "alpha\nbeta\ngamma";
    assert_eq!(chunk_text(text, 1000), vec![text]);
}

#[test]
fn budget_counts_bytes_not_characters() {
    // Two-byte characters: four of them weigh eight bytes.
    let chunks = chunk_text("éé\néé", 5);
    assert_eq!(chunks, vec!["éé", "éé"]);
    let chunks = chunk_text("éé\néé", 9);
    assert_eq!(chunks, vec!["éé\néé"]);
}
