use mafia_server::filter::Filter;

#[test]
fn filter_masks_by_byte_length() {
    let filter = Filter::from("바보\n");
    assert_eq!(filter.word_list.len(), 1);
    let out = filter.filter("너 바보야".to_string());
    assert_eq!(out, "너 ******야");
    assert_eq!(out.len(), "너 바보야".len());
}

#[test]
fn filter_leaves_clean_text() {
    let filter = Filter::new("hello\n\nworld\n");
    assert_eq!(filter.word_list, vec!["hello".to_string(), "world".to_string()]);
    assert_eq!(filter.filter("good morning".to_string()), "good morning");
}

#[test]
fn filter_applies_words_in_order() {
    let filter = Filter::from("ab\nb*c");
    // "ab" first: "abc" -> "**c", then "b*c" does not occur
    assert_eq!(filter.filter("abc".to_string()), "**c");
    let filter = Filter::from("*a");
    assert_eq!(filter.filter("*aa".to_string()), "***");
}

#[test]
fn filter_from_empty_text() {
    let filter = Filter::from("");
    assert_eq!(filter.word_list.len(), 0);
    assert_eq!(filter.filter("anything".to_string()), "anything");
    let filter = Filter::from("\n\n");
    assert_eq!(filter.word_list.len(), 0);
}

#[test]
fn filtering_twice_changes_nothing() {
    let filter = Filter::from("hello\nworld\nabcd\naa");
    for text in ["hello!!hello", "hell! hello hello world!", "abcabcdabcdhello!", "aaaaa", "", "clean text"] {
        let once = filter.filter(text.to_string());
        for word in ["hello", "world", "abcd", "aa"] {
            assert!(!once.contains(word));
        }
        assert_eq!(filter.filter(once.clone()), once);
    }
    assert_eq!(filter.filter("aaaaa".to_string()), "****a");
}
