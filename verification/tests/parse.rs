use dogfood::info::{join, Draft};
use dogfood::{get_entries, Entry, ParseError, Parser, Verdict};

const DOCUMENT: &str = "\
# First
## The first one
`a, b, c`
- OK
Some text
more text, and `code`
1. http://example.com
2. second source
> Nice

# Second

- bad
";

fn parsed(document: &str) -> Vec<Entry> {
    match get_entries(document) {
        Ok(entries) => entries,
        Err(fault) => panic!("{}", fault.message()),
    }
}

fn fault_of(document: &str) -> ParseError {
    match get_entries(document) {
        Ok(entries) => panic!("accepted, with {} entries", entries.len()),
        Err(fault) => fault,
    }
}

#[test]
fn parses_a_whole_document() {
    let entries = parsed(DOCUMENT);
    assert_eq!(entries.len(), 2);

    let first = &entries[0];
    assert_eq!(first.name, "First");
    assert_eq!(first.subtitle.as_deref(), Some("The first one"));
    assert_eq!(first.tags, vec!["a", "b", "c"]);
    assert_eq!(first.verdict, Verdict::Good);
    assert_eq!(first.description, "Some text\nmore text, and `code`");
    assert_eq!(first.sources, vec!["http://example.com", "second source"]);
    assert_eq!(first.review.as_deref(), Some("Nice"));

    let second = &entries[1];
    assert_eq!(second.name, "Second");
    assert_eq!(second.subtitle, None);
    assert!(second.tags.is_empty());
    assert_eq!(second.verdict, Verdict::Bad);
    assert_eq!(second.description, "");
    assert!(second.sources.is_empty());
    assert_eq!(second.review, None);
}

#[test]
fn one_entry_for_each_heading_in_order() {
    let mut document = String::new();
    let names = ["Zeta", "alpha", "Mid dle", "Zeta", "9"];
    for name in names {
        document.push_str("# ");
        document.push_str(name);
        document.push_str("\ntext\n- maybe\n\n");
    }
    let entries = parsed(&document);
    assert_eq!(entries.len(), names.len());
    for (entry, name) in entries.iter().zip(names) {
        assert_eq!(entry.name, name);
        assert_eq!(entry.verdict, Verdict::Maybe);
        assert_eq!(entry.description, "text");
    }
}

#[test]
fn single_heading_gives_single_entry() {
    let entries = parsed("# Only\n- ok");
    assert_eq!(entries.len(), 1);
    assert_eq!(entries[0].name, "Only");
    assert_eq!(entries[0].verdict, Verdict::Good);
}

#[test]
fn verdict_is_read_in_any_case() {
    for word in ["OK", "Ok", "ok", "oK", "O\u{212a}"] {
        let entries = parsed(&format!("# A\n- {word}"));
        assert_eq!(entries[0].verdict, Verdict::Good, "{word}");
    }
    for word in ["bad", "BAD", "Bad", "bAd"] {
        let entries = parsed(&format!("# A\n- {word}"));
        assert_eq!(entries[0].verdict, Verdict::Bad, "{word}");
    }
    for word in ["maybe", "MAYBE", "Maybe", "mayBE"] {
        let entries = parsed(&format!("# A\n- {word}"));
        assert_eq!(entries[0].verdict, Verdict::Maybe, "{word}");
    }
}

#[test]
fn verdict_from_text() {
    assert_eq!(Verdict::from_text("ok"), Some(Verdict::Good));
    assert_eq!(Verdict::from_text("OK"), Some(Verdict::Good));
    assert_eq!(Verdict::from_text("Ok"), Some(Verdict::Good));
    assert_eq!(Verdict::from_text("bad"), Some(Verdict::Bad));
    assert_eq!(Verdict::from_text("mAyBe"), Some(Verdict::Maybe));
    assert_eq!(Verdict::from_text(""), None);
    assert_eq!(Verdict::from_text("o"), None);
    assert_eq!(Verdict::from_text("okay"), None);
    assert_eq!(Verdict::from_text(" ok"), None);
    assert_eq!(Verdict::from_text("good"), None);
    assert_eq!(Verdict::from_text("yes"), None);
    assert_eq!(Verdict::from_text("maybe..."), None);
    assert_eq!(Verdict::from_text("b\u{e4}d"), None);
}

#[test]
fn verdict_try_from_text() {
    assert_eq!(Verdict::try_from("ok"), Ok(Verdict::Good));
    assert_eq!(Verdict::try_from("BAD"), Ok(Verdict::Bad));
    assert_eq!(Verdict::try_from("Maybe"), Ok(Verdict::Maybe));
    assert_eq!(Verdict::try_from("nope"), Err(()));
}

#[test]
fn verdict_labels_and_places() {
    assert_eq!(Verdict::Good.label(), "Yes!");
    assert_eq!(Verdict::Bad.label(), "NO!");
    assert_eq!(Verdict::Maybe.label(), "Maybe...");
    assert_eq!(Verdict::Good.index(), 0);
    assert_eq!(Verdict::Bad.index(), 1);
    assert_eq!(Verdict::Maybe.index(), 2);
}

#[test]
fn tag_line_gives_trimmed_tags_in_order() {
    let entries = parsed("# A\n`a, b, c`\n- ok");
    assert_eq!(entries[0].tags, vec!["a", "b", "c"]);
}

#[test]
fn tag_line_edge_cases() {
    assert_eq!(parsed("# A\n``\n- ok")[0].tags, vec![""]);
    assert_eq!(parsed("# A\n`one`\n- ok")[0].tags, vec!["one"]);
    assert_eq!(parsed("# A\n`a,,b,`\n- ok")[0].tags, vec!["a", "", "b", ""]);
    assert_eq!(parsed("# A\n`  x y ,\tz  `\n- ok")[0].tags, vec!["x y", "z"]);
    assert_eq!(parsed("# A\n` a, b\n- ok")[0].tags, vec!["a", "b"]);
}

#[test]
fn later_tag_line_replaces_the_earlier() {
    let entries = parsed("# A\n`a, b`\n`c`\n- ok");
    assert_eq!(entries[0].tags, vec!["c"]);
}

#[test]
fn sources_are_kept_in_order() {
    let entries = parsed("# A\n2. two\n1. one\n10. ten  \n- ok\n3. three");
    assert_eq!(entries[0].sources, vec!["two", "one", "ten", "three"]);
}

#[test]
fn description_lines_are_joined_by_line_feeds() {
    let entries = parsed("# A\n  first line  \n\n   \nsecond\n- ok\nword\n1.\n#\n###  x");
    assert_eq!(entries[0].description, "first line\nsecond\nword\n1.\n#\n###  x");
}

#[test]
fn join_puts_a_line_feed_between_lines() {
    assert_eq!(join(&vec![]), "");
    assert_eq!(join(&vec!["a".to_string()]), "a");
    assert_eq!(join(&vec!["a".to_string(), "".to_string(), "b".to_string()]), "a\n\nb");
}

#[test]
fn blank_lines_and_line_endings_do_not_matter() {
    let entries = parsed("\r\n\r\n# A\r\n\r\n- ok\r\n\r\ntext\r\n\r\n");
    assert_eq!(entries.len(), 1);
    assert_eq!(entries[0].name, "A");
    assert_eq!(entries[0].description, "text");
}

#[test]
fn lines_before_the_first_heading_are_dropped() {
    let entries = parsed("## early\n- bad\ntext\n1. s\n> r\n`t`\n# A\n- ok");
    assert_eq!(entries.len(), 1);
    assert_eq!(entries[0].name, "A");
    assert_eq!(entries[0].subtitle, None);
    assert_eq!(entries[0].verdict, Verdict::Good);
    assert_eq!(entries[0].description, "");
    assert!(entries[0].sources.is_empty());
    assert!(entries[0].tags.is_empty());
    assert_eq!(entries[0].review, None);
}

#[test]
fn heading_resets_what_was_gathered() {
    let entries = parsed("# A\n## s\n`t`\n- ok\nd\n1. x\n> r\n# B\n- bad");
    assert_eq!(entries.len(), 2);
    assert_eq!(entries[1].name, "B");
    assert_eq!(entries[1].subtitle, None);
    assert!(entries[1].tags.is_empty());
    assert_eq!(entries[1].description, "");
    assert!(entries[1].sources.is_empty());
    assert_eq!(entries[1].review, None);
}

#[test]
fn empty_document_lacks_a_name() {
    assert_eq!(fault_of(""), ParseError::MissingName);
    assert_eq!(fault_of("\n\n  \n"), ParseError::MissingName);
}

#[test]
fn document_without_heading_lacks_a_name() {
    assert_eq!(fault_of("- ok"), ParseError::MissingName);
    assert_eq!(fault_of("some text\n- ok\n> fine"), ParseError::MissingName);
    assert_eq!(fault_of("#\n- ok"), ParseError::MissingName);
    assert_eq!(fault_of("#Name\n- ok"), ParseError::MissingName);
}

#[test]
fn record_without_verdict_is_refused() {
    assert_eq!(fault_of("# A"), ParseError::MissingVerdict);
    assert_eq!(fault_of("# A\ntext"), ParseError::MissingVerdict);
    assert_eq!(fault_of("# A\n# B\n- ok"), ParseError::MissingVerdict);
    assert_eq!(fault_of("# A\n- ok\n# B"), ParseError::MissingVerdict);
    assert_eq!(fault_of("# A\n-ok"), ParseError::MissingVerdict);
}

#[test]
fn verdict_that_names_nothing_is_missing() {
    assert_eq!(fault_of("# A\n- banana"), ParseError::MissingVerdict);
    assert_eq!(fault_of("# A\n- okay"), ParseError::MissingVerdict);
    assert_eq!(fault_of("# A\n- ok maybe"), ParseError::MissingVerdict);
    assert_eq!(fault_of("# A\n- banana\n# B\n- ok"), ParseError::MissingVerdict);
}

#[test]
fn second_verdict_line_is_refused() {
    assert_eq!(fault_of("# A\n- ok\n- bad"), ParseError::DuplicateVerdict);
    assert_eq!(fault_of("# A\n- ok\n- ok"), ParseError::DuplicateVerdict);
    assert_eq!(fault_of("# A\n- ok\n- banana"), ParseError::DuplicateVerdict);
    assert_eq!(fault_of("# A\n- banana\n- ok"), ParseError::DuplicateVerdict);
    assert_eq!(fault_of("- ok\n- ok\n# A\n- ok"), ParseError::DuplicateVerdict);
}

#[test]
fn second_subtitle_is_refused() {
    assert_eq!(fault_of("# A\n## s\n## t\n- ok"), ParseError::DuplicateSubtitle);
    assert_eq!(fault_of("# A\n- ok\n## s\ntext\n## s"), ParseError::DuplicateSubtitle);
    assert_eq!(fault_of("## s\n## t\n# A\n- ok"), ParseError::DuplicateSubtitle);
}

#[test]
fn second_review_is_refused() {
    assert_eq!(fault_of("# A\n> r\n> s\n- ok"), ParseError::DuplicateReview);
    assert_eq!(fault_of("# A\n- ok\n> r\n# B\n- ok\n> r\n> r"), ParseError::DuplicateReview);
}

#[test]
fn first_fault_wins() {
    assert_eq!(fault_of("# A\n## s\n## s\n> r\n> r"), ParseError::DuplicateSubtitle);
    assert_eq!(fault_of("# A\n> r\n> r\n## s\n## s"), ParseError::DuplicateReview);
    assert_eq!(fault_of("## s\n## s"), ParseError::DuplicateSubtitle);
    assert_eq!(fault_of("# A\n# B\n## s\n## s"), ParseError::MissingVerdict);
}

#[test]
fn fault_messages() {
    assert_eq!(ParseError::MissingName.message(), "No name given!");
    assert_eq!(ParseError::MissingVerdict.message(), "No verdict given, or is invalid!");
    assert_eq!(ParseError::DuplicateSubtitle.message(), "Subtitle already given!");
    assert_eq!(ParseError::DuplicateVerdict.message(), "Verdict already given!");
    assert_eq!(ParseError::DuplicateReview.message(), "Review already given!");
}

#[test]
fn parser_reads_line_by_line() {
    let mut parser = Parser::new();
    assert_eq!(parser.feed("# A"), Ok(()));
    assert_eq!(parser.feed(""), Ok(()));
    assert_eq!(parser.feed("## sub"), Ok(()));
    assert_eq!(parser.feed("## again"), Err(ParseError::DuplicateSubtitle));
    assert_eq!(parser.feed("- ok"), Ok(()));
    assert_eq!(parser.feed("- ok"), Err(ParseError::DuplicateVerdict));
    assert_eq!(parser.feed("text"), Ok(()));
    assert_eq!(parser.feed("# B"), Ok(()));
    assert_eq!(parser.feed("# C"), Err(ParseError::MissingVerdict));
    assert_eq!(parser.feed("- maybe"), Ok(()));
    let entries = match parser.finish() {
        Ok(entries) => entries,
        Err(fault) => panic!("{}", fault.message()),
    };
    assert_eq!(entries.len(), 2);
    assert_eq!(entries[0].name, "A");
    assert_eq!(entries[0].subtitle.as_deref(), Some("sub"));
    assert_eq!(entries[0].description, "text");
    assert_eq!(entries[1].name, "B");
    assert_eq!(entries[1].verdict, Verdict::Maybe);
}

#[test]
fn parser_takes_untrimmed_lines() {
    let mut parser = Parser::new();
    assert_eq!(parser.feed("   # A  \r"), Ok(()));
    assert_eq!(parser.feed("\t- bad "), Ok(()));
    assert_eq!(parser.feed("  two  words  "), Ok(()));
    let entries = parser.finish().unwrap();
    assert_eq!(entries.len(), 1);
    assert_eq!(entries[0].name, "A");
    assert_eq!(entries[0].verdict, Verdict::Bad);
    assert_eq!(entries[0].description, "two  words");
}

#[test]
fn parser_without_lines_lacks_a_name() {
    assert_eq!(Parser::new().finish().err(), Some(ParseError::MissingName));
}

#[test]
fn draft_closes_only_with_name_and_verdict() {
    assert_eq!(Draft::new().finalize().err(), Some(ParseError::MissingName));
}
