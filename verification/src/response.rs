//! Reading a raw response: the body, a reported error, the per-line results.
use vstd::prelude::*;
use vstd::slice::{slice_subrange, slice_to_vec};
use vstd::string::*;
use crate::text::{
    before_first, contains, find, find_from, lemma_next_match_is_first, match_end, next_match,
    occurs_in, tail_from, take_before, trim, trim_bytes,
};
use crate::types::{
    ApiResult, Categories, CategoryScores, ModerationResult, ResultModel, ScoreTexts,
};

verus! {

/// The blank line between headers and body.
pub open spec fn separator() -> Seq<u8> {
    "\r\n\r\n".spec_bytes()
}

/// The start of a reported error.
pub open spec fn error_marker() -> Seq<u8> {
    "\"error\": {".spec_bytes()
}

/// The key before an error's message.
pub open spec fn message_key() -> Seq<u8> {
    "\"message\": \"".spec_bytes()
}

/// The key before an error's type.
pub open spec fn type_key() -> Seq<u8> {
    "\"type\": \"".spec_bytes()
}

/// A double quote.
pub open spec fn quote_mark() -> Seq<u8> {
    "\"".spec_bytes()
}

/// The start of the results array.
pub open spec fn results_marker() -> Seq<u8> {
    "\"results\": [".spec_bytes()
}

/// The start of one line's result.
pub open spec fn categories_marker() -> Seq<u8> {
    "\"categories\": {".spec_bytes()
}

/// The end of a categories object.
pub open spec fn categories_end() -> Seq<u8> {
    "},".spec_bytes()
}

/// The start of a scores object.
pub open spec fn scores_marker() -> Seq<u8> {
    "\"category_scores\": {".spec_bytes()
}

/// The end of a scores object.
pub open spec fn scores_end() -> Seq<u8> {
    "}".spec_bytes()
}

/// The comma behind a score.
pub open spec fn comma() -> Seq<u8> {
    ",".spec_bytes()
}

/// The marker that starts a result is fifteen bytes long.
pub proof fn lemma_categories_marker_len()
    ensures
        categories_marker().len() == 15,
{
    reveal_strlit("\"categories\": {");
    is_ascii_spec_bytes("\"categories\": {");
}

/// The body of a response: what follows the first blank line, if there is one.
pub open spec fn body_of(response: Seq<u8>) -> Option<Seq<u8>> {
    match next_match(response, separator(), 0) {
        Some(i) => Some(response.subrange(i + separator().len(), response.len() as int)),
        None => None,
    }
}

/// The text between the first `key` in `txt` and the next double quote.
pub open spec fn quoted_field(txt: Seq<u8>, key: Seq<u8>) -> Option<Seq<u8>> {
    match next_match(txt, key, 0) {
        None => None,
        Some(k) => {
            let after = txt.subrange(k + key.len(), txt.len() as int);
            match next_match(after, quote_mark(), 0) {
                None => None,
                Some(q) => Some(after.subrange(0, q)),
            }
        },
    }
}

/// The message and the type of the error that `body` reports, if it reports
/// one: both are looked for from the error object's start on.
pub open spec fn error_fields(body: Seq<u8>) -> Option<(Seq<u8>, Seq<u8>)> {
    match next_match(body, error_marker(), 0) {
        None => None,
        Some(e) => {
            let inner = body.subrange(e, body.len() as int);
            match (quoted_field(inner, message_key()), quoted_field(inner, type_key())) {
                (Some(m), Some(t)) => Some((m, t)),
                _ => None,
            }
        },
    }
}

/// The score text that `scores` holds for `key`: what stands between the
/// first `key` and the next one (or the end), up to its first comma, trimmed.
/// Empty where `key` does not occur.
pub open spec fn score_field(scores: Seq<u8>, key: Seq<u8>) -> Seq<u8> {
    match next_match(scores, key, 0) {
        None => Seq::empty(),
        Some(k) => {
            let start = k + key.len();
            let end = match next_match(scores, key, start) {
                Some(j) => j,
                None => scores.len() as int,
            };
            trim(before_first(scores.subrange(start, end), comma()))
        },
    }
}

/// The flags that a categories object sets.
pub open spec fn flags_in(txt: Seq<u8>) -> Categories {
    Categories {
        violence: occurs_in(txt, "\"violence\": true".spec_bytes()),
        violence_graphic: occurs_in(txt, "\"violence/graphic\": true".spec_bytes()),
        harassment_threatening: occurs_in(txt, "\"harassment/threatening\": true".spec_bytes()),
        hate_threatening: occurs_in(txt, "\"hate/threatening\": true".spec_bytes()),
        illicit_violent: occurs_in(txt, "\"illicit/violent\": true".spec_bytes()),
    }
}

/// The score texts of a scores object.
pub open spec fn scores_in(txt: Seq<u8>) -> ScoreTexts {
    ScoreTexts {
        violence: score_field(txt, "\"violence\":".spec_bytes()),
        violence_graphic: score_field(txt, "\"violence/graphic\":".spec_bytes()),
        harassment_threatening: score_field(txt, "\"harassment/threatening\":".spec_bytes()),
        hate_threatening: score_field(txt, "\"hate/threatening\":".spec_bytes()),
        illicit_violent: score_field(txt, "\"illicit/violent\":".spec_bytes()),
    }
}

/// One line's result, read from the text between two category markers. The
/// categories object runs to the first `},`, the scores object from its
/// marker to the next `}`; without either there is no result.
pub open spec fn result_in(seg: Seq<u8>) -> Option<ResultModel> {
    match (next_match(seg, categories_end(), 0), next_match(seg, scores_marker(), 0)) {
        (Some(ce), Some(sm)) => {
            let after = seg.subrange(sm + scores_marker().len(), seg.len() as int);
            match next_match(after, scores_end(), 0) {
                None => None,
                Some(se) => Some(
                    ResultModel {
                        categories: flags_in(seg.subrange(0, ce)),
                        scores: scores_in(after.subrange(0, se)),
                    },
                ),
            }
        },
        _ => None,
    }
}

/// The results of `rest`, the text behind a category marker: one for the
/// text up to the next marker, then those behind that marker. One segment
/// without a result leaves none at all.
pub open spec fn results_in(rest: Seq<u8>) -> Option<Seq<ResultModel>>
    decreases rest.len(),
    via results_in_decreases
{
    match result_in(before_first(rest, categories_marker())) {
        None => None,
        Some(r) => match next_match(rest, categories_marker(), 0) {
            None => Some(seq![r]),
            Some(j) => match results_in(
                rest.subrange(j + categories_marker().len(), rest.len() as int),
            ) {
                None => None,
                Some(tail) => Some(seq![r] + tail),
            },
        },
    }
}

#[via_fn]
proof fn results_in_decreases(rest: Seq<u8>) {
    lemma_categories_marker_len();
    lemma_next_match_is_first(rest, categories_marker(), 0);
}

/// The results that `body` holds, in the order of their markers; none
/// without the results array.
pub open spec fn response_results(body: Seq<u8>) -> Option<Seq<ResultModel>> {
    match next_match(body, results_marker(), 0) {
        None => None,
        Some(s) => {
            let inner = body.subrange(s, body.len() as int);
            match next_match(inner, categories_marker(), 0) {
                None => Some(Seq::empty()),
                Some(j) => results_in(
                    inner.subrange(j + categories_marker().len(), inner.len() as int),
                ),
            }
        },
    }
}

/// Whether a segment gives a result depends on its three delimiters alone:
/// no score, present or absent, well formed or not, takes a result away.
pub proof fn lemma_result_needs_delimiters_only(seg: Seq<u8>)
    ensures
        result_in(seg) is Some <==> {
            &&& next_match(seg, categories_end(), 0) is Some
            &&& next_match(seg, scores_marker(), 0) matches Some(sm) && next_match(
                seg.subrange(sm + scores_marker().len(), seg.len() as int),
                scores_end(),
                0,
            ) is Some
        },
{
}

/// A score that the scores object does not name reads as empty, and the
/// other scores are read all the same.
pub proof fn lemma_missing_score_is_empty(scores: Seq<u8>, key: Seq<u8>)
    requires
        !occurs_in(scores, key),
    ensures
        score_field(scores, key) == Seq::<u8>::empty(),
{
}

/// Splits a raw response at its first blank line and hands out the body.
pub fn split_body<'a>(response: &'a [u8]) -> (r: Option<&'a [u8]>)
    ensures
        match r {
            Some(b) => body_of(response@) == Some(b@),
            None => body_of(response@) is None,
        },
{
    let sep = "\r\n\r\n".as_bytes();
    match find(response, sep) {
        Some(i) => Some(tail_from(response, match_end(response, sep, i))),
        None => None,
    }
}

fn read_quoted(txt: &[u8], key: &[u8]) -> (r: Option<Vec<u8>>)
    ensures
        match r {
            Some(v) => quoted_field(txt@, key@) == Some(v@),
            None => quoted_field(txt@, key@) is None,
        },
{
    match find(txt, key) {
        None => None,
        Some(k) => {
            let after = tail_from(txt, match_end(txt, key, k));
            match find(after, "\"".as_bytes()) {
                None => None,
                Some(q) => Some(slice_to_vec(slice_subrange(after, 0, q))),
            }
        },
    }
}

/// The message and type of the error that `body` reports, if any.
pub fn parse_error(body: &[u8]) -> (r: Option<(Vec<u8>, Vec<u8>)>)
    ensures
        match r {
            Some((m, t)) => error_fields(body@) == Some((m@, t@)),
            None => error_fields(body@) is None,
        },
{
    match find(body, "\"error\": {".as_bytes()) {
        None => None,
        Some(e) => {
            let inner = tail_from(body, e);
            let message = read_quoted(inner, "\"message\": \"".as_bytes());
            let kind = read_quoted(inner, "\"type\": \"".as_bytes());
            match (message, kind) {
                (Some(m), Some(t)) => Some((m, t)),
                _ => None,
            }
        },
    }
}

/// The score text for `key` in a scores object.
pub fn extract_score(scores: &[u8], key: &[u8]) -> (r: Vec<u8>)
    ensures
        r@ == score_field(scores@, key@),
{
    match find(scores, key) {
        None => Vec::new(),
        Some(k) => {
            let start = match_end(scores, key, k);
            let end = match find_from(scores, key, start) {
                Some(j) => j,
                None => scores.len(),
            };
            let piece = slice_subrange(scores, start, end);
            slice_to_vec(trim_bytes(take_before(piece, ",".as_bytes())))
        },
    }
}

fn read_flags(txt: &[u8]) -> (r: Categories)
    ensures
        r == flags_in(txt@),
{
    Categories {
        violence: contains(txt, "\"violence\": true".as_bytes()),
        violence_graphic: contains(txt, "\"violence/graphic\": true".as_bytes()),
        harassment_threatening: contains(txt, "\"harassment/threatening\": true".as_bytes()),
        hate_threatening: contains(txt, "\"hate/threatening\": true".as_bytes()),
        illicit_violent: contains(txt, "\"illicit/violent\": true".as_bytes()),
    }
}

fn read_scores(txt: &[u8]) -> (r: CategoryScores)
    ensures
        r@ == scores_in(txt@),
{
    CategoryScores {
        violence: extract_score(txt, "\"violence\":".as_bytes()),
        violence_graphic: extract_score(txt, "\"violence/graphic\":".as_bytes()),
        harassment_threatening: extract_score(txt, "\"harassment/threatening\":".as_bytes()),
        hate_threatening: extract_score(txt, "\"hate/threatening\":".as_bytes()),
        illicit_violent: extract_score(txt, "\"illicit/violent\":".as_bytes()),
    }
}

/// One line's result from the text between two category markers.
pub fn parse_result(seg: &[u8]) -> (r: Option<ModerationResult>)
    ensures
        match r {
            Some(m) => result_in(seg@) == Some(m@),
            None => result_in(seg@) is None,
        },
{
    let marker = "\"category_scores\": {".as_bytes();
    match (find(seg, "},".as_bytes()), find(seg, marker)) {
        (Some(ce), Some(sm)) => {
            let after = tail_from(seg, match_end(seg, marker, sm));
            match find(after, "}".as_bytes()) {
                None => None,
                Some(se) => Some(
                    ModerationResult {
                        categories: read_flags(slice_subrange(seg, 0, ce)),
                        category_scores: read_scores(slice_subrange(after, 0, se)),
                    },
                ),
            }
        },
        _ => None,
    }
}

/// The per-line results of a response body, in the order in which the body
/// holds them.
pub fn parse_response(body: &[u8]) -> (r: Option<ApiResult>)
    ensures
        match r {
            Some(a) => response_results(body@) == Some(a@),
            None => response_results(body@) is None,
        },
{
    let marker = "\"categories\": {".as_bytes();
    proof {
        lemma_categories_marker_len();
    }
    let start = match find(body, "\"results\": [".as_bytes()) {
        None => { return None; },
        Some(s) => s,
    };
    let inner = tail_from(body, start);
    let mut results: Vec<ModerationResult> = Vec::new();
    let mut rest: &[u8] = match find(inner, marker) {
        None => {
            let empty = ApiResult { results };
            assert(empty@ =~= Seq::empty());
            return Some(empty);
        },
        Some(j) => tail_from(inner, match_end(inner, marker, j)),
    };
    loop
        invariant
            marker@ == categories_marker(),
            marker@.len() == 15,
            response_results(body@) == match results_in(rest@) {
                None => None::<Seq<ResultModel>>,
                Some(tail) => Some(results@.map_values(|r: ModerationResult| r@) + tail),
            },
        decreases rest@.len(),
    {
        let cut = find(rest, marker);
        let seg = take_before(rest, marker);
        let ghost before = results@.map_values(|r: ModerationResult| r@);
        match parse_result(seg) {
            None => { return None; },
            Some(m) => {
                results.push(m);
                assert(results@.map_values(|r: ModerationResult| r@) =~= before + seq![m@]);
            },
        }
        match cut {
            None => {
                return Some(ApiResult { results });
            },
            Some(j) => {
                proof {
                    let tail = results_in(
                        rest@.subrange(j + marker@.len(), rest@.len() as int),
                    );
                    if tail is Some {
                        let m = results@.last()@;
                        assert((before + seq![m]) + tail.unwrap() =~= before + (seq![m]
                            + tail.unwrap()));
                    }
                }
                rest = tail_from(rest, match_end(rest, marker, j));
            },
        }
    }
}

/// Why a response gave no results.
#[derive(Debug, Clone, Copy, PartialEq, Eq)]
pub enum ResponseFault {
    /// No blank line parts headers from body.
    NoSeparator,
    /// The body does not hold results of the expected shape.
    NoResults,
    /// The body holds more or fewer results than the batch has lines.
    CountMismatch,
}

/// What a response means for a batch of `line_count` lines.
pub open spec fn interpreted(response: Seq<u8>, line_count: nat) -> Result<
    Seq<ResultModel>,
    ResponseFault,
> {
    match body_of(response) {
        None => Err(ResponseFault::NoSeparator),
        Some(body) => match response_results(body) {
            None => Err(ResponseFault::NoResults),
            Some(results) => if results.len() == line_count {
                Ok(results)
            } else {
                Err(ResponseFault::CountMismatch)
            },
        },
    }
}

/// Interprets the raw response to a batch of `line_count` lines. Where it
/// gives results, there is one for each line: result `i` belongs to line `i`.
pub fn handle_response(response: &[u8], line_count: usize) -> (r: Result<ApiResult, ResponseFault>)
    ensures
        r matches Ok(a) ==> a.results@.len() == line_count,
        match r {
            Ok(a) => interpreted(response@, line_count as nat) == Ok::<
                Seq<ResultModel>,
                ResponseFault,
            >(a@),
            Err(e) => interpreted(response@, line_count as nat) == Err::<
                Seq<ResultModel>,
                ResponseFault,
            >(e),
        },
{
    match split_body(response) {
        None => Err(ResponseFault::NoSeparator),
        Some(body) => match ApiResult::from_json_slice(body) {
            None => Err(ResponseFault::NoResults),
            Some(parsed) => if parsed.results.len() == line_count {
                Ok(parsed)
            } else {
                Err(ResponseFault::CountMismatch)
            },
        },
    }
}

impl ApiResult {
    /// The results in a response body.
    pub fn from_json_slice(slice: &[u8]) -> (r: Option<ApiResult>)
        ensures
            match r {
                Some(a) => response_results(slice@) == Some(a@),
                None => response_results(slice@) is None,
            },
    {
        parse_response(slice)
    }
}

} // verus!
