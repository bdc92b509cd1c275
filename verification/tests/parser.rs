use gifsy::git::parser::{parse, parse_c_string, parse_from, parse_index, parse_to, parse_tree, parse_utf8_char, ParseError};
use gifsy::git::Status;

#[test]
fn test_parse_utf8_char() {
    let input = " A demo\u{0}";

    match parse_utf8_char(input, "MADRU ") {
        Some((c, rest)) => {
            assert!(rest == "A demo\u{0}");
            assert!(c == ' ');
        }
        None => assert!(false),
    };

    match parse_utf8_char(input, "MADRU") {
        Some(_) => assert!(false),
        None => assert!(true),
    };
}

#[test]
fn test_match_til_zero() {
    let input = "demo\u{0}second\u{0}";

    let (f, rest) = match parse_c_string(input) {
        Ok((f, Some(rest))) => (f, rest),
        _ => ("", ""),
    };
    println!("{:?} {:?}", f, rest);
    assert!(f == "demo");
    assert!(rest == "second\u{0}");
}

#[test]
fn test_parse_file_single() {
    let input = "demo\u{0}";

    let (f, rest) = match parse_c_string(input) {
        Ok((f, Some(rest))) => (f, rest),
        _ => ("", ""),
    };
    println!("{:?} {:?}", f, rest);
    assert!(f == "demo");
    assert!(rest == "");
}

#[test]
fn test_parse_file_fail() {
    let input = "demo";

    let (_, _) = match parse_c_string(input) {
        Ok((f, Some(rest))) => (f, rest),
        _ => ("", ""),
    };
}

#[test]
fn c_string_without_terminator_is_an_error() {
    assert_eq!(parse_c_string("demo"), Err(""));
    assert_eq!(parse_c_string(""), Err(""));
}

#[test]
fn c_string_may_be_empty_before_the_terminator() {
    assert_eq!(parse_c_string("\u{0}x"), Ok(("", Some("x"))));
}

#[test]
fn c_string_counts_characters_not_bytes() {
    assert_eq!(parse_c_string("über\u{0}späť\u{0}"), Ok(("über", Some("späť\u{0}"))));
}

#[test]
fn utf8_char_of_empty_input_is_none() {
    assert_eq!(parse_utf8_char("", "MADRU? "), None);
}

#[test]
fn utf8_char_leaves_the_rest_of_a_wide_character() {
    assert_eq!(parse_utf8_char("éa", "é"), Some(('é', "a")));
}

#[test]
fn parse_modified_in_tree() {
    let entries = parse(" M file\u{0}").unwrap();
    assert_eq!(entries.len(), 1);
    assert_eq!(entries[0].index_state, ' ');
    assert_eq!(entries[0].tree_state, 'M');
    assert_eq!(entries[0].from_path, "file");
    assert_eq!(entries[0].to_path, None);
    assert_eq!(entries[0].file(), "file");
    assert!(!entries[0].is_unmerged());
}

#[test]
fn parse_rename_reads_two_paths() {
    let entries = parse("R  old\u{0}new\u{0}").unwrap();
    assert_eq!(entries.len(), 1);
    assert_eq!(entries[0].index_state, 'R');
    assert_eq!(entries[0].tree_state, ' ');
    assert_eq!(entries[0].from_path, "old");
    assert_eq!(entries[0].to_path, Some("new".to_string()));
    assert_eq!(entries[0].file(), "new");
}

#[test]
fn parse_empty_is_clean() {
    assert_eq!(parse("").unwrap().len(), 0);
}

#[test]
fn parse_single_trailing_byte_ends_the_stream() {
    assert_eq!(parse("\u{0}").unwrap().len(), 0);
    let entries = parse("M  a\u{0}\u{0}").unwrap();
    assert_eq!(entries.len(), 1);
    assert_eq!(entries[0].from_path, "a");
}

#[test]
fn parse_single_wide_character_is_no_end() {
    assert_eq!(parse("é").err(), Some(ParseError));
}

#[test]
fn parse_unknown_index_state_fails() {
    assert_eq!(parse("X  file\u{0}").err(), Some(ParseError));
}

#[test]
fn parse_unknown_tree_state_fails() {
    assert_eq!(parse("MX file\u{0}").err(), Some(ParseError));
    assert_eq!(parse("?? file\u{0}").err(), Some(ParseError));
}

#[test]
fn parse_missing_terminator_fails() {
    assert_eq!(parse("M  file").err(), Some(ParseError));
}

#[test]
fn parse_rename_without_second_path_fails() {
    assert_eq!(parse("R  old\u{0}new").err(), Some(ParseError));
}

#[test]
fn parse_takes_a_path_without_separator_as_it_is() {
    let entries = parse("MMfile\u{0}").unwrap();
    assert_eq!(entries.len(), 1);
    assert_eq!(entries[0].tree_state, 'M');
    assert_eq!(entries[0].from_path, "file");
}

#[test]
fn parse_takes_an_empty_path() {
    let entries = parse("M  \u{0}A \u{0}").unwrap();
    assert_eq!(entries.len(), 2);
    assert_eq!(entries[0].from_path, "");
    assert_eq!(entries[1].from_path, "");
}

#[test]
fn parse_failure_discards_earlier_records() {
    assert_eq!(parse("M  good\u{0}X  bad\u{0}").err(), Some(ParseError));
}

#[test]
fn parse_keeps_the_order_of_the_records() {
    let entries = parse("M  a\u{0}R  b\u{0}c\u{0}?  d e\u{0} D f\u{0}UU g\u{0}A  h\u{0}").unwrap();
    let seen: Vec<(char, char, String, Option<String>)> = entries
        .iter()
        .map(|e| (e.index_state, e.tree_state, e.from_path.clone(), e.to_path.clone()))
        .collect();
    assert_eq!(
        seen,
        vec![
            ('M', ' ', "a".to_string(), None),
            ('R', ' ', "b".to_string(), Some("c".to_string())),
            ('?', ' ', "d e".to_string(), None),
            (' ', 'D', "f".to_string(), None),
            ('U', 'U', "g".to_string(), None),
            ('A', ' ', "h".to_string(), None),
        ]
    );
    for e in &entries {
        assert_eq!(e.to_path.is_some(), e.index_state == 'R');
    }
}

#[test]
fn parse_keeps_spaces_inside_and_around_a_path() {
    let entries = parse("M   lead\u{0}A  trail \u{0}").unwrap();
    assert_eq!(entries[0].from_path, " lead");
    assert_eq!(entries[1].from_path, "trail ");
}

#[test]
fn parse_index_sets_only_the_index_state() {
    let mut status = Status::blank();
    assert_eq!(parse_index("? x", &mut status), Ok(Some(" x")));
    assert_eq!(status.index_state, '?');
    assert_eq!(status.tree_state, '\0');
    assert_eq!(parse_index("x", &mut status), Err(""));
    assert_eq!(status.index_state, '?');
    assert_eq!(parse_index("", &mut status), Err(""));
}

#[test]
fn parse_tree_sets_only_the_tree_state() {
    let mut status = Status::blank();
    assert_eq!(parse_tree("U x", &mut status), Ok(Some(" x")));
    assert_eq!(status.tree_state, 'U');
    assert_eq!(status.index_state, '\0');
    assert_eq!(parse_tree("R x", &mut status), Err(""));
    assert_eq!(parse_tree("? x", &mut status), Err(""));
    assert_eq!(status.tree_state, 'U');
}

#[test]
fn parse_from_drops_the_separator() {
    let mut status = Status::blank();
    assert_eq!(parse_from(" a b\u{0}rest", &mut status), Ok(Some("rest")));
    assert_eq!(status.from_path, "a b");
    assert_eq!(parse_from(" a", &mut status), Err(""));
    assert_eq!(parse_from("", &mut status), Err(""));
    assert_eq!(status.from_path, "a b");
    assert_eq!(parse_from("a\u{0}", &mut status), Ok(Some("")));
    assert_eq!(status.from_path, "a");
    assert_eq!(parse_from("  a \u{0}", &mut status), Ok(Some("")));
    assert_eq!(status.from_path, " a ");
    assert_eq!(parse_from("\u{0}x", &mut status), Ok(Some("x")));
    assert_eq!(status.from_path, "");
}

#[test]
fn parse_to_reads_only_after_a_rename() {
    let mut status = Status::blank();
    status.index_state = 'M';
    assert_eq!(parse_to("new\u{0}x", &mut status), Ok(Some("new\u{0}x")));
    assert_eq!(status.to_path, None);
    status.index_state = 'R';
    assert_eq!(parse_to("new\u{0}x", &mut status), Ok(Some("x")));
    assert_eq!(status.to_path, Some("new".to_string()));
    assert_eq!(parse_to("new", &mut status), Err(""));
}

#[test]
fn parse_reads_paths_of_wide_characters() {
    let entries = parse("R  äöü/\u{1d11e}\u{0}日本語 €\u{0} M ok\u{0}").unwrap();
    assert_eq!(entries.len(), 2);
    assert_eq!(entries[0].from_path, "äöü/\u{1d11e}");
    assert_eq!(entries[0].to_path, Some("日本語 €".to_string()));
    assert_eq!(entries[1].from_path, "ok");
}
