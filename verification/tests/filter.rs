use mafia_server::filter::Filter;

#[test]
fn filter_test() {
    let filter = Filter::from("hello\nworld\nabcd\n");

    assert_eq!(filter.word_list.len(), 3);
    assert_eq!(filter.word_list[0], "hello");
    assert_eq!(filter.word_list[1], "world");
    assert_eq!(filter.word_list[2], "abcd");

    let filter = Filter::from("hello\nworld\nabcd");

    assert_eq!(filter.word_list.len(), 3);
    assert_eq!(filter.word_list[0], "hello");
    assert_eq!(filter.word_list[1], "world");
    assert_eq!(filter.word_list[2], "abcd");

    assert_eq!(filter.filter("hello!!".into()), "*****!!");
    assert_eq!(filter.filter("hello!!hello".into()), "*****!!*****");
    assert_eq!(filter.filter("hell! hello hello world!".into()), "hell! ***** ***** *****!");
    assert_eq!(filter.filter("abcabcdabcdhello!".into()), "abc*************!");
    assert_eq!(filter.filter("".into()), "");
    assert_eq!(filter.filter("hell!!".into()), "hell!!");
}
