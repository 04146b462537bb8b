use httprobe::config::{input_source, parse_decimal_u64, parse_timeout, ConfigError, InputSource};
use httprobe::probe::{line_content, probe_target};
use httprobe::report::{decimal_string, report_line};
use httprobe::session::{next_step, ReadEvent, Step};

#[test]
fn timeout_defaults_to_three_seconds() {
    assert_eq!(parse_timeout(None), Ok(3));
}

#[test]
fn timeout_reads_seconds() {
    assert_eq!(parse_timeout(Some("10")), Ok(10));
    assert_eq!(parse_timeout(Some("+7")), Ok(7));
}

#[test]
fn timeout_zero_is_accepted() {
    assert_eq!(parse_timeout(Some("0")), Ok(0));
}

#[test]
fn timeout_rejects_non_numbers() {
    assert_eq!(parse_timeout(Some("abc")), Err(ConfigError::InvalidTimeout));
    assert_eq!(parse_timeout(Some("")), Err(ConfigError::InvalidTimeout));
    assert_eq!(parse_timeout(Some("+")), Err(ConfigError::InvalidTimeout));
    assert_eq!(parse_timeout(Some("-1")), Err(ConfigError::InvalidTimeout));
    assert_eq!(parse_timeout(Some(" 3")), Err(ConfigError::InvalidTimeout));
    assert_eq!(parse_timeout(Some("3s")), Err(ConfigError::InvalidTimeout));
    assert_eq!(parse_timeout(Some("1.5")), Err(ConfigError::InvalidTimeout));
}

#[test]
fn decimal_limits_of_u64() {
    assert_eq!(parse_decimal_u64("18446744073709551615"), Some(u64::MAX));
    assert_eq!(parse_decimal_u64("18446744073709551616"), None);
    assert_eq!(parse_decimal_u64("99999999999999999999x"), None);
    assert_eq!(parse_decimal_u64("007"), Some(7));
}

#[test]
fn dash_means_standard_input() {
    assert_eq!(input_source("-"), InputSource::Stdin);
    assert_eq!(input_source("urls.txt"), InputSource::File(String::from("urls.txt")));
    assert_eq!(input_source("--"), InputSource::File(String::from("--")));
}

#[test]
fn line_endings_are_dropped() {
    assert_eq!(line_content("http://a.example\n"), "http://a.example");
    assert_eq!(line_content("http://a.example\r\n"), "http://a.example");
    assert_eq!(line_content("http://a.example"), "http://a.example");
    assert_eq!(line_content("x\r"), "x\r");
    assert_eq!(line_content("\n"), "");
    assert_eq!(line_content(""), "");
}

#[test]
fn well_formed_url_is_probed_in_serialized_form() {
    assert_eq!(probe_target("https://example.com"), Some(String::from("https://example.com/")));
    assert_eq!(
        probe_target("HTTP://Example.COM/a/b?q=1\n"),
        Some(String::from("http://example.com/a/b?q=1"))
    );
}

#[test]
fn malformed_lines_are_not_probed() {
    assert_eq!(probe_target("not a url"), None);
    assert_eq!(probe_target("example.com"), None);
    assert_eq!(probe_target(""), None);
    assert_eq!(probe_target("\n"), None);
    assert_eq!(probe_target("http://"), None);
}

#[test]
fn report_line_is_url_space_status() {
    assert_eq!(report_line("https://example.com/", 200), "https://example.com/ 200");
    assert_eq!(report_line("http://example.com/missing", 404), "http://example.com/missing 404");
    assert_eq!(report_line("http://x/", 0), "http://x/ 0");
}

#[test]
fn decimal_string_values() {
    assert_eq!(decimal_string(0), "0");
    assert_eq!(decimal_string(7), "7");
    assert_eq!(decimal_string(301), "301");
    assert_eq!(decimal_string(65535), "65535");
}

#[test]
fn end_of_input_finishes() {
    assert_eq!(next_step(&InputSource::Stdin, ReadEvent::End), Step::Finish);
    assert_eq!(next_step(&InputSource::File(String::from("f")), ReadEvent::End), Step::Finish);
}

#[test]
fn read_failure_on_stdin_is_reported_and_passed_over() {
    assert_eq!(next_step(&InputSource::Stdin, ReadEvent::Failed), Step::ReportError);
}

#[test]
fn read_failure_on_file_aborts() {
    assert_eq!(next_step(&InputSource::File(String::from("f")), ReadEvent::Failed), Step::Abort);
}

#[test]
fn lines_become_probes_or_skips() {
    let src = InputSource::Stdin;
    assert_eq!(
        next_step(&src, ReadEvent::Line(String::from("https://example.com\n"))),
        Step::Probe(String::from("https://example.com/"))
    );
    assert_eq!(next_step(&src, ReadEvent::Line(String::from("garbage\n"))), Step::Skip);
    assert_eq!(next_step(&src, ReadEvent::Line(String::from("\n"))), Step::Skip);
}

// Runs the decisions over a list of lines with a fixed set of hosts that
// answer, as the program would with a real client.
fn simulate(lines: &[&str], answers: &[(&str, u16)]) -> Vec<String> {
    let src = InputSource::File(String::from("input"));
    let mut out = Vec::new();
    for line in lines {
        match next_step(&src, ReadEvent::Line(String::from(*line))) {
            Step::Probe(url) => {
                if let Some((_, status)) = answers.iter().find(|(u, _)| *u == url) {
                    out.push(report_line(&url, *status));
                }
            }
            Step::Skip => {}
            other => panic!("unexpected step {:?}", other),
        }
    }
    out
}

#[test]
fn only_answered_urls_print_in_input_order() {
    let lines = [
        "https://a.example",
        "not a url",
        "https://down.example",
        "http://b.example/x",
        "",
        "https://c.example",
    ];
    let answers = [
        ("https://a.example/", 200),
        ("http://b.example/x", 404),
        ("https://c.example/", 301),
    ];
    let out = simulate(&lines, &answers);
    assert_eq!(
        out,
        vec![
            String::from("https://a.example/ 200"),
            String::from("http://b.example/x 404"),
            String::from("https://c.example/ 301"),
        ]
    );
}

#[test]
fn no_answers_print_nothing() {
    let lines = ["https://a.example", "https://b.example"];
    assert!(simulate(&lines, &[]).is_empty());
}
