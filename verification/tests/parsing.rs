use iai_callgrind_runner::callgrind::CallgrindOutput;
use iai_callgrind_runner::costs::Costs;
use iai_callgrind_runner::error::{Error, HeaderFault};
use iai_callgrind_runner::event_kind::EventKind;
use iai_callgrind_runner::parser::{parse_header, Sentinel};
use iai_callgrind_runner::sentinel_parser::SentinelParser;

fn report(lines: &[&str]) -> CallgrindOutput {
    CallgrindOutput::new("callgrind.out", lines.iter().map(|l| l.to_string()).collect())
}

fn parse(sentinel: &str, lines: &[&str]) -> Result<Costs, Error> {
    SentinelParser::new(&Sentinel::new(sentinel)).parse(&report(lines)).map(|stats| stats.0)
}

fn costs_of(kinds: &[EventKind], values: &[&str]) -> Costs {
    let mut costs = Costs::with_event_kinds(kinds.to_vec()).unwrap();
    costs.add_iter_str(values).unwrap();
    costs
}

#[test]
fn two_records_of_the_sentinel_are_added_up() {
    let costs = parse(
        "target",
        &[
            "# callgrind format",
            "version: 1",
            "events: Ir",
            "",
            "fn=target",
            "5",
            "",
            "fn=other",
            "7",
            "",
            "fn=target",
            "5",
        ],
    )
    .unwrap();
    assert_eq!(costs.cost_by_kind(&EventKind::Ir), Some(10));
    assert_eq!(costs, costs_of(&[EventKind::Ir], &["10"]));
}

#[test]
fn sentinel_not_found_whatever_the_other_records_hold() {
    let result = parse(
        "target",
        &[
            "# callgrind format",
            "events: Ir Dr",
            "fn=other",
            "1 2",
            "not a number",
            "",
            "fn=another",
            "3 x",
            "",
            "fn=target_longer",
            "4 5",
        ],
    );
    match result {
        Err(Error::SentinelNotFound { label, sentinel }) => {
            assert_eq!(label, "callgrind.out");
            assert_eq!(sentinel, "target");
        }
        other => panic!("unexpected: {:?}", other),
    }
}

#[test]
fn positions_are_skipped_and_short_lines_fill_with_zero() {
    let costs = parse(
        "main",
        &[
            "# callgrind format",
            "version: 1",
            "creator: callgrind-3.21.0",
            "positions: instr line",
            "events: Ir Dr Dw",
            "",
            "fn=main",
            "0x10 1 10 5",
            "0x14 2 7",
            "3 * 1 1 1 99",
            "+3 * 100 100 100",
            "-3 * 100 100 100",
            "* * 100 100 100",
        ],
    )
    .unwrap();
    // Only a line that begins with a digit is a cost line.
    assert_eq!(costs.cost_by_kind(&EventKind::Ir), Some(18));
    assert_eq!(costs.cost_by_kind(&EventKind::Dr), Some(6));
    assert_eq!(costs.cost_by_kind(&EventKind::Dw), Some(1));
}

#[test]
fn one_position_is_skipped_before_three_declared_kinds() {
    let costs = parse(
        "main",
        &[
            "# callgrind format",
            "positions: line",
            "events: Ir L1hits RamHits",
            "fn=main",
            "1 10 5",
        ],
    )
    .unwrap();
    assert_eq!(costs.cost_by_kind(&EventKind::Ir), Some(10));
    assert_eq!(costs.cost_by_kind(&EventKind::L1hits), Some(5));
    assert_eq!(costs.cost_by_kind(&EventKind::RamHits), Some(0));
    let all = parse(
        "main",
        &["# callgrind format", "events: Ir L1hits RamHits", "fn=main", "1 10 5"],
    )
    .unwrap();
    assert_eq!(all.cost_by_kind(&EventKind::Ir), Some(1));
    assert_eq!(all.cost_by_kind(&EventKind::L1hits), Some(10));
    assert_eq!(all.cost_by_kind(&EventKind::RamHits), Some(5));
}

#[test]
fn a_line_with_positions_only_adds_nothing() {
    let costs = parse(
        "main",
        &["callgrind format", "positions: instr line", "events: Ir", "fn=main", "1 2", "3"],
    )
    .unwrap();
    assert_eq!(costs.cost_by_kind(&EventKind::Ir), Some(0));
}

#[test]
fn a_record_ends_at_a_blank_line() {
    let costs = parse(
        "main",
        &[
            "callgrind format",
            "events: Ir",
            "fn=main",
            "1",
            "   \t ",
            "2",
            "fn=main",
            "fl=file.rs",
            "cfn=callee",
            "calls=1 0",
            "4",
            "fn=other",
            "8",
        ],
    )
    .unwrap();
    // Inside a record every line that begins with a digit counts, also after
    // another `fn=` line: only a blank line ends the record.
    assert_eq!(costs.cost_by_kind(&EventKind::Ir), Some(13));
}

#[test]
fn comments_are_passed_over_in_every_state() {
    let costs = parse(
        "main",
        &[
            "callgrind format",
            "events: Ir",
            "# fn=main",
            "1",
            "fn=main",
            "# 100",
            "#",
            "2",
            " # 7",
            "3",
        ],
    )
    .unwrap();
    assert_eq!(costs.cost_by_kind(&EventKind::Ir), Some(5));
}

#[test]
fn lines_are_trimmed_before_they_are_read() {
    let costs =
        parse("main", &["callgrind format", "events: Ir Dr", "  fn=main  ", "\t 4   5\t", "\u{a0}6"])
            .unwrap();
    assert_eq!(costs.cost_by_kind(&EventKind::Ir), Some(10));
    assert_eq!(costs.cost_by_kind(&EventKind::Dr), Some(5));
}

#[test]
fn the_label_must_be_the_sentinel_exactly() {
    assert!(matches!(
        parse("main", &["callgrind format", "events: Ir", "fn=main ()", "1"]),
        Err(Error::SentinelNotFound { .. })
    ));
    assert!(matches!(
        parse("main", &["callgrind format", "events: Ir", "fn= main", "1"]),
        Err(Error::SentinelNotFound { .. })
    ));
    assert!(matches!(
        parse("main", &["callgrind format", "events: Ir", "cfn=main", "1"]),
        Err(Error::SentinelNotFound { .. })
    ));
    assert!(parse("", &["callgrind format", "events: Ir", "fn=", "1"]).is_ok());
}

#[test]
fn a_found_record_without_cost_lines_gives_zeros() {
    let costs = parse("main", &["callgrind format", "events: Ir Ge", "fn=main"]).unwrap();
    assert_eq!(costs, Costs::with_event_kinds(vec![EventKind::Ir, EventKind::Ge]).unwrap());
    assert!(!costs.is_summarized());
}

#[test]
fn malformed_cost_line_names_line_and_token() {
    let result = parse(
        "main",
        &["callgrind format", "positions: line", "events: Ir Dr", "fn=main", "1 2 3", "2 4 x5 6"],
    );
    match result {
        Err(Error::MalformedCostLine { label, line, token }) => {
            assert_eq!(label, "callgrind.out");
            assert_eq!(line, 6);
            assert_eq!(token, "x5");
        }
        other => panic!("unexpected: {:?}", other),
    }
}

#[test]
fn tokens_beyond_the_declared_kinds_are_not_read() {
    let costs =
        parse("main", &["callgrind format", "events: Ir", "fn=main", "1 not-a-number"]).unwrap();
    assert_eq!(costs.cost_by_kind(&EventKind::Ir), Some(1));
}

#[test]
fn malformed_lines_outside_the_record_do_not_matter() {
    let costs = parse(
        "main",
        &["callgrind format", "events: Ir", "fn=other", "1x", "", "fn=main", "2"],
    )
    .unwrap();
    assert_eq!(costs.cost_by_kind(&EventKind::Ir), Some(2));
}

#[test]
fn header_faults() {
    match parse("main", &[]) {
        Err(Error::HeaderParseError { fault: HeaderFault::Empty, label }) => {
            assert_eq!(label, "callgrind.out")
        }
        other => panic!("unexpected: {:?}", other),
    }
    assert!(matches!(
        parse("main", &["", "  ", "\t"]),
        Err(Error::HeaderParseError { fault: HeaderFault::Empty, .. })
    ));
    assert!(matches!(
        parse("main", &["callgrind format", "version: 1", "fn=main", "1"]),
        Err(Error::HeaderParseError { fault: HeaderFault::MissingEvents, .. })
    ));
    match parse("main", &["callgrind format", "version: 2", "events: Ir"]) {
        Err(Error::HeaderParseError { fault: HeaderFault::VersionMismatch { version }, .. }) => {
            assert_eq!(version, "2")
        }
        other => panic!("unexpected: {:?}", other),
    }
    match parse("main", &["callgrind format", "events: Ir Foo"]) {
        Err(Error::HeaderParseError { fault: HeaderFault::UnknownEvent { name }, .. }) => {
            assert_eq!(name, "Foo")
        }
        other => panic!("unexpected: {:?}", other),
    }
    match parse("main", &["callgrind format", "events: Ir SysCount"]) {
        Err(Error::HeaderParseError { fault: HeaderFault::UnknownEvent { name }, .. }) => {
            assert_eq!(name, "SysCount")
        }
        other => panic!("unexpected: {:?}", other),
    }
    match parse("main", &["callgrind format", "events: Ir Dr Ir"]) {
        Err(Error::HeaderParseError { fault: HeaderFault::DuplicateEvent { name }, .. }) => {
            assert_eq!(name, "Ir")
        }
        other => panic!("unexpected: {:?}", other),
    }
}

#[test]
fn the_first_line_with_content_is_passed_over() {
    // The line that names the format is not looked at, whatever it says.
    assert!(matches!(
        parse("main", &["", "events: Ir", "fn=main", "1"]),
        Err(Error::HeaderParseError { fault: HeaderFault::MissingEvents, .. })
    ));
}

#[test]
fn header_gives_positions_kinds_and_body() {
    let lines: Vec<String> = [
        "",
        "# callgrind format",
        "version: 1",
        "# a comment",
        "no colon here",
        "cmd:  target/release/bench",
        "positions :  instr   line ",
        "  events:Ir sysCount   Ge",
        "summary: 1 2 3",
    ]
    .iter()
    .map(|l| l.to_string())
    .collect();
    let (properties, body) = parse_header(&lines).unwrap();
    assert_eq!(properties.positions_prototype, vec!["instr".to_string(), "line".to_string()]);
    assert_eq!(
        properties.costs_prototype.event_kinds(),
        vec![EventKind::Ir, EventKind::SysCount, EventKind::Ge]
    );
    assert_eq!(properties.costs_prototype.cost_by_index(1), Some(0));
    assert_eq!(body, 8);
}

#[test]
fn error_messages() {
    let not_found = parse("bench::main", &["callgrind format", "events: Ir"]).unwrap_err();
    assert_eq!(
        not_found.to_string(),
        "Error parsing file 'callgrind.out': Sentinel 'bench::main' not found"
    );
    assert_eq!(not_found.label(), "callgrind.out");
    assert_eq!(not_found.cause(), "Sentinel 'bench::main' not found");
    let malformed = parse("m", &["callgrind format", "events: Ir", "fn=m", "1e3"]).unwrap_err();
    assert_eq!(
        malformed.to_string(),
        "Error parsing file 'callgrind.out': Malformed cost line 4: '1e3' is not a counter"
    );
    let empty = parse("m", &[]).unwrap_err();
    assert_eq!(empty.to_string(), "Error parsing file 'callgrind.out': Empty file");
    let version = parse("m", &["x", "version: 3"]).unwrap_err();
    assert_eq!(
        version.cause(),
        "Version mismatch: Requires version '1' but was '3'"
    );
    let events = parse("m", &["x"]).unwrap_err();
    assert_eq!(events.cause(), "Header field 'events' must be present");
    assert_eq!(
        HeaderFault::UnknownEvent { name: "Foo".to_string() }.to_string(),
        "Unknown event type: Foo"
    );
    assert_eq!(
        HeaderFault::DuplicateEvent { name: "Ir".to_string() }.to_string(),
        "Duplicate event type: Ir"
    );
}

#[test]
fn sentinel_matches_exact_text_only() {
    let sentinel = Sentinel::new("bench::main");
    assert!(sentinel.matches("bench::main"));
    assert!(!sentinel.matches("bench::main2"));
    assert!(!sentinel.matches("bench::mai"));
    assert!(!sentinel.matches("Bench::main"));
    assert!(!sentinel.matches("main"));
    assert!(!sentinel.matches(""));
    assert_eq!(sentinel.to_string(), "bench::main");
    assert!(sentinel.clone().matches("bench::main"));
    assert!(Sentinel::new("héllo").matches("héllo"));
    assert!(!Sentinel::new("héllo").matches("hello"));
    assert!(Sentinel::new("").matches(""));
}
