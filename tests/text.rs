use minerva::clean_text;

#[test]
fn truncation_keeps_max_length() {
    assert_eq!(clean_text("abcdefgh", 3, false, false, false), "abc");
    assert_eq!(clean_text("abc", 3, false, false, false), "abc");
    assert_eq!(clean_text("", 3, false, false, true), "");
}

#[test]
fn markup_characters_are_escaped_and_nulls_dropped() {
    assert_eq!(clean_text("a<b>&c\0d", 100, false, false, true), "a&lt;b&gt;&amp;cd");
    assert_eq!(clean_text("a<b>&c", 100, false, false, false), "a<b>&c");
}

#[test]
fn words_wrap_onto_new_lines() {
    assert_eq!(clean_text("one two three", 7, true, false, false), "one two \nthree ");
    assert_eq!(clean_text("one two three", 7, true, true, false), "one two \n\t\tthree ");
    assert_eq!(clean_text("  spaced\t out \n", 20, true, false, false), "spaced out ");
}

#[test]
fn long_words_are_cut_and_continued() {
    assert_eq!(clean_text("abcdefghij", 4, true, false, false), "abcd\n... ");
    assert_eq!(clean_text("ab abcdefghij", 4, true, false, false), "ab a\n... ");
}

#[test]
fn wrapped_text_is_escaped_too() {
    assert_eq!(clean_text("a&b <c>", 10, true, false, true), "a&amp;b &lt;c&gt; ");
}
