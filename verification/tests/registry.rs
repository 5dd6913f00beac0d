use w1_gate::identifier::{OneWireId, ParseError};
use w1_gate::registry::{parse_entry, parse_registry, read_entry, Entry, Rejection};

const A: OneWireId = [0x33, 0x00, 0x00, 0x03, 0x92, 0xc6, 0xea];
const B: OneWireId = [0x01, 0x02, 0x03, 0x04, 0x05, 0x06, 0x07];
const C: OneWireId = [0xff, 0xfe, 0xfd, 0xfc, 0xfb, 0xfa, 0xf9];

#[test]
fn an_entry_lists_its_identifier() {
    assert_eq!(parse_entry("33-00000392c6ea,alice"), Entry::Listed(A));
    assert_eq!(parse_entry("33-00000392c6ea,"), Entry::Listed(A));
    assert_eq!(parse_entry("33-00000392c6ea,alice,with,commas"), Entry::Listed(A));
    assert_eq!(parse_entry("  33-00000392c6ea,alice \r"), Entry::Listed(A));
    assert_eq!(parse_entry("01-020304050607,José"), Entry::Listed(B));
}

#[test]
fn lines_that_say_nothing_are_skipped() {
    assert_eq!(parse_entry(""), Entry::Skipped);
    assert_eq!(parse_entry("   \t"), Entry::Skipped);
    assert_eq!(parse_entry("#comment"), Entry::Skipped);
    assert_eq!(parse_entry("  # 33-00000392c6ea,alice"), Entry::Skipped);
    assert_eq!(parse_entry("bad-line-no-comma"), Entry::Skipped);
    assert_eq!(parse_entry("33-00000392c6ea"), Entry::Skipped);
}

#[test]
fn an_entry_with_a_bad_identifier_is_rejected() {
    assert_eq!(parse_entry("zz-00000392c6ea,bob"), Entry::Rejected(ParseError::BadHex));
    assert_eq!(parse_entry("33000000392c6ea,bob"), Entry::Rejected(ParseError::BadFormat));
    assert_eq!(parse_entry(",bob"), Entry::Rejected(ParseError::BadFormat));
    assert_eq!(parse_entry("33-0000,bob"), Entry::Rejected(ParseError::BadHex));
    assert_eq!(parse_entry("33 -00000392c6ea,bob"), Entry::Rejected(ParseError::BadHex));
    assert_eq!(parse_entry("33-00000392c6ea ,bob"), Entry::Rejected(ParseError::BadHex));
    assert_eq!(parse_entry("33-00000392c6ea00,bob"), Entry::Rejected(ParseError::BadHex));
    assert_eq!(parse_entry("33-+1000392c6ea,bob"), Entry::Rejected(ParseError::BadHex));
}

#[test]
fn read_entry_agrees_with_parse_entry() {
    for line in ["33-00000392c6ea,alice", "", "#c", "x", "zz-00000392c6ea,bob", ",", " , "] {
        let chars: Vec<char> = line.chars().collect();
        assert_eq!(read_entry(&chars), parse_entry(line));
    }
}

#[test]
fn a_listing_holds_the_identifiers_in_order() {
    let listing =
        parse_registry("33-00000392c6ea,alice\n01-020304050607,bob\nff-fefdfcfbfaf9,carol\n");
    assert_eq!(listing.ids, vec![A, B, C]);
    assert_eq!(listing.rejected, vec![]);
}

#[test]
fn an_empty_answer_lists_nothing() {
    for body in ["", "\n", "\n\n\n", "   ", "# nothing here\n"] {
        let listing = parse_registry(body);
        assert_eq!(listing.ids, Vec::<OneWireId>::new());
        assert_eq!(listing.rejected, vec![]);
    }
}

#[test]
fn malformed_lines_do_not_affect_the_lines_after_them() {
    let listing = parse_registry(
        "\n#comment\nbad-line-no-comma\n33-00000392c6ea,alice\n\n# more\nnope\n01-020304050607,bob",
    );
    assert_eq!(listing.ids, vec![A, B]);
    assert_eq!(listing.rejected, vec![]);
    let plain = parse_registry("33-00000392c6ea,alice\n01-020304050607,bob");
    assert_eq!(plain.ids, listing.ids);
}

#[test]
fn a_rejected_line_is_reported_and_only_that_line_is_dropped() {
    let listing = parse_registry(
        "33-00000392c6ea,alice\nzz-00000392c6ea,bob\n01-020304050607,carol\n\n33000000392c6ea,dan\nff-fefdfcfbfaf9,eve\n",
    );
    assert_eq!(listing.ids, vec![A, B, C]);
    assert_eq!(
        listing.rejected,
        vec![
            Rejection { line: 1, error: ParseError::BadHex },
            Rejection { line: 4, error: ParseError::BadFormat },
        ]
    );
}

#[test]
fn an_identifier_listed_twice_is_held_once() {
    let listing = parse_registry(
        "01-020304050607,bob\n33-00000392c6ea,alice\n01-020304050607,robert\n33-00000392C6EA,al\n",
    );
    assert_eq!(listing.ids, vec![B, A]);
}

#[test]
fn line_ends_of_either_kind_are_read() {
    let listing = parse_registry("33-00000392c6ea,alice\r\n01-020304050607,bob\r\n");
    assert_eq!(listing.ids, vec![A, B]);
    let listing = parse_registry("33-00000392c6ea,alice\r01-020304050607,bob");
    assert_eq!(listing.ids, vec![A]);
}

#[test]
fn the_last_line_needs_no_line_feed() {
    assert_eq!(parse_registry("33-00000392c6ea,alice").ids, vec![A]);
    assert_eq!(
        parse_registry("33-00000392c6ea,alice\nzz,bob").rejected,
        vec![Rejection { line: 1, error: ParseError::BadFormat }]
    );
}

#[test]
fn a_listing_agrees_with_reading_line_by_line() {
    let body = " 33-00000392c6ea,a\n#x\n\nzz-1,b\nqq\n01-020304050607,José\n33-00000392c6ea,again";
    let mut ids: Vec<OneWireId> = Vec::new();
    let mut rejected = Vec::new();
    for (line, text) in body.lines().enumerate() {
        match parse_entry(text) {
            Entry::Listed(id) => {
                if !ids.contains(&id) {
                    ids.push(id)
                }
            }
            Entry::Rejected(error) => rejected.push(Rejection { line, error }),
            Entry::Skipped => {}
        }
    }
    let listing = parse_registry(body);
    assert_eq!(listing.ids, ids);
    assert_eq!(listing.rejected, rejected);
    assert_eq!(listing.ids, vec![A, B]);
}
