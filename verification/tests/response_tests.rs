use vailence::response::{
    extract_score, handle_response, parse_error, parse_response, parse_result, split_body,
    ResponseFault,
};
use vailence::retry::{is_transient, Action, Phase, RetryState, BACKOFF_SECONDS};
use vailence::scoring::gather_scores;
use vailence::text::{contains, find, find_from, same_bytes, take_before, trim_bytes};
use vailence::types::{ApiResult, Categories, CategoryScores, ModerationResult};

const HEAD: &str = "HTTP/1.1 200 OK\r\nContent-Type: application/json\r\n\r\n";

fn result_json(flags: [bool; 5], scores: [&str; 5]) -> String {
    format!(
        "{{\"flagged\": true, \"categories\": {{\"violence\": {}, \"violence/graphic\": {}, \
         \"harassment/threatening\": {}, \"hate/threatening\": {}, \"illicit/violent\": {}}}, \
         \"category_scores\": {{\"violence\": {}, \"violence/graphic\": {}, \
         \"harassment/threatening\": {}, \"hate/threatening\": {}, \"illicit/violent\": {}}}}}",
        flags[0], flags[1], flags[2], flags[3], flags[4], scores[0], scores[1], scores[2],
        scores[3], scores[4]
    )
}

fn body_json(results: &[String]) -> String {
    format!(
        "{{\"id\": \"modr-1\", \"model\": \"omni-moderation-latest\", \"results\": [{}]}}",
        results.join(", ")
    )
}

fn number(text: &[u8]) -> f64 {
    String::from_utf8_lossy(text).trim().parse::<f64>().unwrap_or_default()
}

fn mean(group: &[Vec<u8>]) -> f64 {
    if group.is_empty() {
        0.0
    } else {
        group.iter().map(|t| number(t)).sum::<f64>() / group.len() as f64
    }
}

fn scores_of(texts: [&str; 5]) -> CategoryScores {
    CategoryScores {
        violence: texts[0].as_bytes().to_vec(),
        violence_graphic: texts[1].as_bytes().to_vec(),
        harassment_threatening: texts[2].as_bytes().to_vec(),
        hate_threatening: texts[3].as_bytes().to_vec(),
        illicit_violent: texts[4].as_bytes().to_vec(),
    }
}

#[test]
fn find_gives_first_occurrence() {
    assert_eq!(find(b"abcabc", b"bc"), Some(1));
    assert_eq!(find_from(b"abcabc", b"bc", 2), Some(4));
    assert_eq!(find_from(b"abcabc", b"bc", 5), None);
    assert_eq!(find(b"abc", b"abcd"), None);
    assert_eq!(find(b"abc", b""), Some(0));
    assert_eq!(find(b"aab", b"ab"), Some(1));
    assert!(same_bytes(b"abc", b"abc"));
    assert!(!same_bytes(b"abc", b"abd"));
    assert!(!same_bytes(b"abc", b"ab"));
    assert!(contains(b"xyz", b"yz"));
    assert!(!contains(b"xyz", b"zy"));
}

#[test]
fn trim_and_take_before() {
    assert_eq!(trim_bytes(b"  0.5 \t\r\n"), b"0.5");
    assert_eq!(trim_bytes(b" \n "), b"");
    assert_eq!(trim_bytes(b"a b"), b"a b");
    assert_eq!(take_before(b"1, 2", b","), b"1");
    assert_eq!(take_before(b"12", b","), b"12");
}

#[test]
fn split_body_at_first_blank_line() {
    assert_eq!(split_body(b"H: 1\r\n\r\nbody\r\n\r\nmore"), Some(&b"body\r\n\r\nmore"[..]));
    assert_eq!(split_body(b"H: 1\r\n\r\n"), Some(&b""[..]));
    assert_eq!(split_body(b"H: 1\r\nno blank line"), None);
    assert_eq!(split_body(b"H: 1\n\nbody"), None);
}

#[test]
fn parse_error_extracts_message_and_type() {
    let body = b"{\n  \"error\": {\n    \"message\": \"The server had an error\",\n    \"type\": \"server_error\",\n    \"param\": null\n  }\n}";
    assert_eq!(
        parse_error(body),
        Some((b"The server had an error".to_vec(), b"server_error".to_vec()))
    );
}

#[test]
fn parse_error_absent_or_incomplete() {
    assert_eq!(parse_error(b"{\"results\": []}"), None);
    assert_eq!(parse_error(b"{\"error\": {\"message\": \"only a message\"}}"), None);
    assert_eq!(parse_error(b"{\"error\": {\"message\": \"m\", \"type\": \"unterminated}}"), None);
    assert_eq!(parse_error(b"\"message\": \"m\", \"type\": \"t\""), None);
}

#[test]
fn parse_error_reads_fields_behind_the_error_marker() {
    let body = b"\"type\": \"early\", \"error\": {\"type\": \"invalid_request_error\", \"message\": \"bad\"}";
    assert_eq!(parse_error(body), Some((b"bad".to_vec(), b"invalid_request_error".to_vec())));
}

#[test]
fn extract_score_reads_trimmed_field() {
    let scores = b"\"violence\": 0.80, \"violence/graphic\":   0.01  , \"illicit/violent\": 4.5e-06";
    assert_eq!(extract_score(scores, b"\"violence\":"), b"0.80".to_vec());
    assert_eq!(extract_score(scores, b"\"violence/graphic\":"), b"0.01".to_vec());
    assert_eq!(extract_score(scores, b"\"illicit/violent\":"), b"4.5e-06".to_vec());
    assert_eq!(extract_score(scores, b"\"hate/threatening\":"), Vec::<u8>::new());
}

#[test]
fn extract_score_stops_at_repeated_key() {
    assert_eq!(extract_score(b"\"k\": 1 \"k\": 2, 3", b"\"k\":"), b"1".to_vec());
}

#[test]
fn round_trip_single_violent_line() {
    let body = body_json(&[result_json(
        [true, false, false, false, false],
        ["0.80", "0.01", "0.02", "0.03", "0.04"],
    )]);
    let parsed = parse_response(body.as_bytes()).expect("one result");
    assert_eq!(parsed.results.len(), 1);
    let result = &parsed.results[0];
    assert_eq!(
        result.categories,
        Categories {
            violence: true,
            violence_graphic: false,
            harassment_threatening: false,
            hate_threatening: false,
            illicit_violent: false,
        }
    );
    assert_eq!(result.category_scores, scores_of(["0.80", "0.01", "0.02", "0.03", "0.04"]));
    let (violence, threat) = gather_scores(&result.categories, &result.category_scores);
    assert_eq!(violence, vec![b"0.80".to_vec()]);
    assert!(threat.is_empty());
    assert_eq!(mean(&violence), 0.80);
    assert_eq!(mean(&threat), 0.0);
}

#[test]
fn results_keep_the_order_of_the_body() {
    let body = body_json(&[
        result_json([false, false, true, false, false], ["0.1", "0.2", "0.3", "0.4", "0.5"]),
        result_json([false, true, false, false, true], ["0.6", "0.7", "0.8", "0.9", "1.0"]),
        result_json([false, false, false, false, false], ["0", "0", "0", "0", "0"]),
    ]);
    let parsed = ApiResult::from_json_slice(body.as_bytes()).expect("three results");
    assert_eq!(parsed.results.len(), 3);
    assert!(parsed.results[0].categories.harassment_threatening);
    assert_eq!(parsed.results[0].category_scores, scores_of(["0.1", "0.2", "0.3", "0.4", "0.5"]));
    assert!(parsed.results[1].categories.violence_graphic);
    assert!(parsed.results[1].categories.illicit_violent);
    assert!(!parsed.results[1].categories.violence);
    assert_eq!(parsed.results[1].category_scores, scores_of(["0.6", "0.7", "0.8", "0.9", "1.0"]));
    assert_eq!(parsed.results[2].categories, Categories::default());
    assert_eq!(parsed, parse_response(body.as_bytes()).unwrap());
}

#[test]
fn body_without_results_array_is_no_response() {
    assert_eq!(parse_response(b"{\"error\": {\"message\": \"m\", \"type\": \"t\"}}"), None);
    assert_eq!(parse_response(b""), None);
}

#[test]
fn results_array_without_entries_is_empty() {
    assert_eq!(parse_response(b"{\"results\": []}"), Some(ApiResult { results: vec![] }));
}

#[test]
fn one_broken_segment_fails_the_body() {
    let good = result_json([true, false, false, false, false], ["0.8", "0", "0", "0", "0"]);
    let body = format!("{{\"results\": [{}, {{\"categories\": {{\"violence\": true}}}}]}}", good);
    assert_eq!(parse_response(body.as_bytes()), None);
    assert_eq!(parse_result(b"\"violence\": true}, \"category_scores\": {\"violence\": 0.5"), None);
    assert_eq!(parse_result(b"\"violence\": true} \"category_scores\": {\"violence\": 0.5}"), None);
}

#[test]
fn malformed_and_missing_scores_do_not_stop_the_rest() {
    let seg = b"\"violence\": true, \"hate/threatening\": true}, \"category_scores\": {\"violence\": oops, \"violence/graphic\": 0.5, \"hate/threatening\": }}";
    let result = parse_result(seg).expect("a result");
    assert!(result.categories.violence);
    assert!(result.categories.hate_threatening);
    assert!(!result.categories.violence_graphic);
    assert_eq!(result.category_scores, scores_of(["oops", "0.5", "", "", ""]));
    assert_eq!(number(&result.category_scores.violence), 0.0);
    assert_eq!(number(&result.category_scores.violence_graphic), 0.5);
    assert_eq!(number(&result.category_scores.harassment_threatening), 0.0);
    assert_eq!(number(&result.category_scores.hate_threatening), 0.0);
}

#[test]
fn no_true_flags_means_no_scores_counted() {
    let scores = scores_of(["0.99", "0.98", "0.97", "0.96", "0.95"]);
    let (violence, threat) = gather_scores(&Categories::default(), &scores);
    assert!(violence.is_empty());
    assert!(threat.is_empty());
    assert_eq!(mean(&violence), 0.0);
    assert_eq!(mean(&threat), 0.0);
}

#[test]
fn gather_scores_groups_by_flag() {
    let scores = scores_of(["0.2", "0.4", "0.6", "0.8", "0.9"]);
    let all = Categories {
        violence: true,
        violence_graphic: true,
        harassment_threatening: true,
        hate_threatening: true,
        illicit_violent: true,
    };
    let (violence, threat) = gather_scores(&all, &scores);
    assert_eq!(violence, vec![b"0.2".to_vec(), b"0.4".to_vec(), b"0.9".to_vec()]);
    assert_eq!(threat, vec![b"0.6".to_vec(), b"0.8".to_vec()]);
    assert_eq!(mean(&violence), (0.2 + 0.4 + 0.9) / 3.0);
    let some = Categories { violence_graphic: true, hate_threatening: true, ..Categories::default() };
    let (violence, threat) = gather_scores(&some, &scores);
    assert_eq!(violence, vec![b"0.4".to_vec()]);
    assert_eq!(threat, vec![b"0.8".to_vec()]);
}

#[test]
fn response_without_separator_yields_no_results() {
    let body = body_json(&[result_json([true; 5], ["1", "1", "1", "1", "1"])]);
    let raw = format!("HTTP/1.1 200 OK\r\n{}", body);
    assert_eq!(handle_response(raw.as_bytes(), 1), Err(ResponseFault::NoSeparator));
    let next = format!("{}{}", HEAD, body);
    assert!(handle_response(next.as_bytes(), 1).is_ok());
}

#[test]
fn handle_response_checks_shape_and_count() {
    let one = result_json([true, false, false, false, false], ["0.8", "0", "0", "0", "0"]);
    let raw = format!("{}{}", HEAD, body_json(&[one.clone(), one.clone()]));
    let parsed = handle_response(raw.as_bytes(), 2).expect("two results");
    assert_eq!(parsed.results.len(), 2);
    assert_eq!(
        parsed.results[0],
        ModerationResult {
            categories: Categories { violence: true, ..Categories::default() },
            category_scores: scores_of(["0.8", "0", "0", "0", "0"]),
        }
    );
    assert_eq!(handle_response(raw.as_bytes(), 3), Err(ResponseFault::CountMismatch));
    assert_eq!(handle_response(raw.as_bytes(), 1), Err(ResponseFault::CountMismatch));
    let bad = format!("{}{{\"error\": {{}}}}", HEAD);
    assert_eq!(handle_response(bad.as_bytes(), 2), Err(ResponseFault::NoResults));
}

fn drive(budget: usize, response: &[u8]) -> (usize, Vec<u64>, RetryState) {
    let mut state = RetryState::start(budget);
    let mut sends = 0;
    let mut pauses = Vec::new();
    loop {
        match state.action() {
            Action::Send => {
                sends += 1;
                state = state.on_response(response).0;
            }
            Action::Pause(seconds) => {
                pauses.push(seconds);
                state = state.on_pause_over();
            }
            Action::Interpret => return (sends, pauses, state),
        }
    }
}

#[test]
fn transient_error_is_sent_budget_plus_one_times() {
    let response = b"HTTP/1.1 500 X\r\n\r\n{\"error\": {\"message\": \"overloaded\", \"type\": \"server_error\"}}";
    let (sends, pauses, last) = drive(2, response);
    assert_eq!(sends, 3);
    assert_eq!(pauses, vec![1, 1]);
    assert_eq!(BACKOFF_SECONDS, 1);
    assert_eq!(last, RetryState { phase: Phase::GivenUp, remaining: 0 });
    let (sends, pauses, _) = drive(0, response);
    assert_eq!(sends, 1);
    assert!(pauses.is_empty());
}

#[test]
fn non_transient_error_is_sent_once() {
    let response = b"HTTP/1.1 400 X\r\n\r\n{\"error\": {\"message\": \"bad input\", \"type\": \"invalid_request_error\"}}";
    let (sends, pauses, last) = drive(5, response);
    assert_eq!(sends, 1);
    assert!(pauses.is_empty());
    assert_eq!(last, RetryState { phase: Phase::GivenUp, remaining: 5 });
}

#[test]
fn answer_without_error_succeeds() {
    let (sends, pauses, last) = drive(3, b"HTTP/1.1 200 OK\r\n\r\n{\"results\": []}");
    assert_eq!(sends, 1);
    assert!(pauses.is_empty());
    assert_eq!(last, RetryState { phase: Phase::Succeeded, remaining: 3 });
}

#[test]
fn on_response_steps_and_reports_the_error() {
    let response = b"{\"error\": {\"message\": \"busy\", \"type\": \"server_error\"}}";
    let (next, error) = RetryState::start(1).on_response(response);
    assert_eq!(next, RetryState { phase: Phase::RecoverableFailure, remaining: 0 });
    assert_eq!(error, Some((b"busy".to_vec(), b"server_error".to_vec())));
    assert_eq!(next.action(), Action::Pause(1));
    assert_eq!(next.on_response(response).0, next);
    let again = next.on_pause_over();
    assert_eq!(again, RetryState { phase: Phase::Attempting, remaining: 0 });
    assert_eq!(again.on_pause_over(), again);
    assert_eq!(again.on_response(response).0, RetryState { phase: Phase::GivenUp, remaining: 0 });
}

#[test]
fn only_server_error_is_transient() {
    assert!(is_transient(b"server_error"));
    assert!(!is_transient(b"server_errors"));
    assert!(!is_transient(b"invalid_request_error"));
    assert!(!is_transient(b""));
}
