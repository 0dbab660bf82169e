use paper_search::text::{concat_texts, copy_texts, last_piece, remove_prefix, replace_char, same_text};

#[test]
fn same_text_compares_whole_texts() {
    assert!(same_text("", ""));
    assert!(same_text("entry", "entry"));
    assert!(!same_text("entry", "Entry"));
    assert!(!same_text("entry", "entry "));
    assert!(!same_text("é", "e"));
}

#[test]
fn last_piece_follows_the_last_separator() {
    assert_eq!(last_piece("http://arxiv.org/abs/2301.12345v1", '/'), "2301.12345v1");
    assert_eq!(last_piece("no separator", '/'), "no separator");
    assert_eq!(last_piece("ends/", '/'), "");
    assert_eq!(last_piece("", '/'), "");
    assert_eq!(last_piece("/", '/'), "");
    assert_eq!(last_piece("a/b/ç", '/'), "ç");
}

#[test]
fn replace_char_replaces_every_occurrence() {
    assert_eq!(replace_char("a\nb\n\nc", '\n', ' '), "a b  c");
    assert_eq!(replace_char("abc", 'x', 'y'), "abc");
    assert_eq!(replace_char("", 'x', 'y'), "");
    assert_eq!(replace_char("xxx", 'x', 'x'), "xxx");
}

#[test]
fn remove_prefix_takes_the_prefix_off_once() {
    assert_eq!(remove_prefix("arxiv:2301.1", "arxiv:"), "2301.1");
    assert_eq!(remove_prefix("2301.1", "arxiv:"), "2301.1");
    assert_eq!(remove_prefix("arxiv:arxiv:1", "arxiv:"), "arxiv:1");
    assert_eq!(remove_prefix("arxiv:", "arxiv:"), "");
    assert_eq!(remove_prefix("x", ""), "x");
}

#[test]
fn concat_and_copy() {
    assert_eq!(concat_texts("a", "b"), "ab");
    assert_eq!(concat_texts("", ""), "");
    let list = vec!["a".to_string(), "".to_string(), "ç".to_string()];
    assert_eq!(copy_texts(&list), list);
    assert!(copy_texts(&vec![]).is_empty());
}
