use jbotci::web_href::{
    cll_ebnf_href, cll_parse_href, cll_table_class, cukta_anchor_from_href,
    cukta_section_reference_from_href, parse_i32, query_value, vlacku_word_type_tag_class,
    vote_class, word_type_tag_class,
};

#[test]
fn grammar_parse_links_move_under_the_base_path() {
    assert_eq!(cll_parse_href("/jbotci/", "../gentufa?text=coi"), "/jbotci/gentufa?text=coi");
    assert_eq!(cll_parse_href("", "../gentufa"), "/gentufa");
    assert_eq!(cll_parse_href("/jbotci", "https://example.org"), "https://example.org");
}

#[test]
fn grammar_dictionary_links_move_under_the_base_path() {
    assert_eq!(cll_ebnf_href("/base//", "../vlacku/klama"), "/base/vlacku/klama");
    assert_eq!(cll_ebnf_href("/base", "../vlacku"), "../vlacku");
}

#[test]
fn section_reference_takes_what_follows_the_last_marker() {
    assert_eq!(
        cukta_section_reference_from_href("/a/cukta/section/1/cukta/section/2.3#x"),
        Some("2.3".to_owned())
    );
    assert_eq!(cukta_section_reference_from_href("section/4.5"), Some("4.5".to_owned()));
    assert_eq!(cukta_section_reference_from_href("/cukta/section/#top"), None);
    assert_eq!(cukta_section_reference_from_href("section/"), None);
    assert_eq!(cukta_section_reference_from_href("other/4.5"), None);
    assert_eq!(cukta_section_reference_from_href("#section/4.5"), None);
}

#[test]
fn anchor_is_what_follows_the_first_hash() {
    assert_eq!(cukta_anchor_from_href("page#a#b"), Some("a#b".to_owned()));
    assert_eq!(cukta_anchor_from_href("page#"), None);
    assert_eq!(cukta_anchor_from_href("page"), None);
}

#[test]
fn word_type_tags_group_the_word_types() {
    assert_eq!(vlacku_word_type_tag_class("experimental-gismu"), "is-gismu");
    assert_eq!(vlacku_word_type_tag_class("obsolete-zei-lujvo"), "is-lujvo");
    assert_eq!(vlacku_word_type_tag_class("obsolete-fu'ivla"), "is-fuhivla");
    assert_eq!(vlacku_word_type_tag_class("cmavo-compound"), "is-cmavo");
    assert_eq!(vlacku_word_type_tag_class("bu-letteral"), "is-letteral");
    assert_eq!(vlacku_word_type_tag_class("obsolete-cmevla"), "is-cmevla");
    assert_eq!(vlacku_word_type_tag_class("phrase"), "is-other");
    assert_eq!(
        word_type_tag_class("gismu"),
        "dictionary-meta-segment dictionary-word-type-tag is-gismu"
    );
}

#[test]
fn table_classes_are_prefixed() {
    assert_eq!(cll_table_class(&Vec::new()), "cll-table");
    assert_eq!(
        cll_table_class(&vec!["wide".to_owned(), "dense".to_owned()]),
        "cll-table cll-table-wide cll-table-dense"
    );
}

#[test]
fn query_values_come_from_the_first_matching_pair() {
    assert_eq!(query_value("??q=klama&q=other", "q"), Some("klama".to_owned()));
    assert_eq!(query_value("mode&q=", "q"), Some(String::new()));
    assert_eq!(query_value("mode=rafsi", "q"), None);
    assert_eq!(query_value("a=b=c", "a"), Some("b=c".to_owned()));
}

#[test]
fn integers_parse_like_std() {
    for text in ["0", "+7", "-12", "2147483647", "-2147483648", "2147483648", "", "-", "+", "1a", " 1", "--1", "007"] {
        assert_eq!(parse_i32(text), text.parse::<i32>().ok(), "{text}");
    }
}

#[test]
fn vote_tags_follow_the_tally() {
    assert_eq!(
        vote_class("∞"),
        "dictionary-meta-segment dictionary-meta-tooltip dictionary-vote-tag is-official"
    );
    assert_eq!(
        vote_class("+5"),
        "dictionary-meta-segment dictionary-meta-tooltip dictionary-vote-tag is-high"
    );
    assert_eq!(
        vote_class("++3"),
        "dictionary-meta-segment dictionary-meta-tooltip dictionary-vote-tag is-medium"
    );
    assert_eq!(
        vote_class("1"),
        "dictionary-meta-segment dictionary-meta-tooltip dictionary-vote-tag is-low"
    );
    assert_eq!(
        vote_class("-9"),
        "dictionary-meta-segment dictionary-meta-tooltip dictionary-vote-tag is-low"
    );
    assert_eq!(
        vote_class("many"),
        "dictionary-meta-segment dictionary-meta-tooltip dictionary-vote-tag is-low"
    );
}

#[test]
fn vote_titles_explain_the_official_marker() {
    assert!(jbotci::web_href::vote_title("∞").starts_with("Official baseline lexicon word."));
    assert_eq!(
        jbotci::web_href::vote_title("+3"),
        "Community upvote/downvote tally from Lensisku contributors."
    );
}
