use ccsessionctl::code_blocks::parse_code_blocks;

#[test]
fn test_parse_code_blocks() {
    let lines: Vec<String> = vec![
        "Some text".to_string(),
        "```rust".to_string(),
        "fn main() {}".to_string(),
        "```".to_string(),
        "More text".to_string(),
    ];

    let blocks = parse_code_blocks(&lines);
    assert_eq!(blocks.len(), 1);
    assert_eq!(blocks[0].start, 2);
    assert_eq!(blocks[0].end, 3);
    assert_eq!(blocks[0].language, "rust");
}

#[test]
fn unclosed_block_is_not_reported() {
    let lines: Vec<String> = vec!["````  python ".to_string(), "x = 1".to_string()];
    assert!(parse_code_blocks(&lines).is_empty());
}

#[test]
fn two_blocks_with_trimmed_languages() {
    let lines: Vec<String> = vec![
        "````  python ".to_string(),
        "x".to_string(),
        "```".to_string(),
        "```".to_string(),
        "```".to_string(),
    ];
    let blocks = parse_code_blocks(&lines);
    assert_eq!(blocks.len(), 2);
    assert_eq!((blocks[0].start, blocks[0].end), (1, 2));
    assert_eq!(blocks[0].language, "python");
    assert_eq!((blocks[1].start, blocks[1].end), (4, 4));
    assert_eq!(blocks[1].language, "");
}
