use alter::words::word_count;

#[test]
fn two_words() {
    assert_eq!(word_count("hello world"), 2);
}

#[test]
fn empty_text_is_one_word() {
    assert_eq!(word_count(""), 1);
}

#[test]
fn comma_separated() {
    // Two comma delimiters plus one.
    assert_eq!(word_count("a,b,c"), 3);
}

#[test]
fn comma_and_space_separated() {
    // Three delimiters (two commas, one space) plus one.
    assert_eq!(word_count("a,b, c"), 4);
}

#[test]
fn all_delimiters_count() {
    assert_eq!(word_count(" \n\t\r,.!?:;()\"'"), 15);
}

#[test]
fn non_delimiters_do_not_count() {
    assert_eq!(word_count("abcdef"), 1);
    assert_eq!(word_count("a-b_c@d"), 1);
}

#[test]
fn mixed_text() {
    assert_eq!(word_count("Hello, how are you?"), 6);
}

#[test]
fn non_ascii_text() {
    assert_eq!(word_count("salut à toi"), 3);
}
