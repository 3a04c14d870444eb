//! Framing a batch of lines as one request.
use vstd::prelude::*;
use vstd::string::*;
use crate::text::line_texts;

verus! {

pub const BACKSLASH: u8 = 92;

pub const QUOTE: u8 = 34;

pub const COMMA: u8 = 44;

pub const NEWLINE: u8 = 10;

pub const TAB: u8 = 9;

pub const LETTER_N: u8 = 110;

pub const LETTER_T: u8 = 116;

pub const DIGIT_ZERO: u8 = 48;

/// How a byte of a line stands in a request: a backslash before a backslash
/// and before a double quote, every other byte as it is.
pub open spec fn request_escape(b: u8) -> Seq<u8> {
    if b == BACKSLASH || b == QUOTE {
        seq![BACKSLASH, b]
    } else {
        seq![b]
    }
}

/// How a byte of a line stands in a written record: as in a request, and a
/// newline as `\n`, a tab as `\t`.
pub open spec fn record_escape(b: u8) -> Seq<u8> {
    if b == BACKSLASH || b == QUOTE {
        seq![BACKSLASH, b]
    } else if b == NEWLINE {
        seq![BACKSLASH, LETTER_N]
    } else if b == TAB {
        seq![BACKSLASH, LETTER_T]
    } else {
        seq![b]
    }
}

/// A line with each byte escaped for a request.
pub open spec fn sanitized(line: Seq<u8>) -> Seq<u8>
    decreases line.len(),
{
    if line.len() == 0 {
        Seq::empty()
    } else {
        request_escape(line.first()) + sanitized(line.drop_first())
    }
}

/// A line with each byte escaped for a written record.
pub open spec fn record_escaped(line: Seq<u8>) -> Seq<u8>
    decreases line.len(),
{
    if line.len() == 0 {
        Seq::empty()
    } else {
        record_escape(line.first()) + record_escaped(line.drop_first())
    }
}

/// Reads escaped text back: a backslash gives the byte behind it.
pub open spec fn unescaped(text: Seq<u8>) -> Seq<u8>
    decreases text.len(),
{
    if text.len() == 0 {
        Seq::empty()
    } else if text[0] == BACKSLASH && text.len() >= 2 {
        seq![text[1]] + unescaped(text.subrange(2, text.len() as int))
    } else {
        seq![text[0]] + unescaped(text.drop_first())
    }
}

/// No double quote in `text` stands bare: each has a backslash before it
/// that is not itself the second of a pair.
pub open spec fn quotes_guarded(text: Seq<u8>) -> bool
    decreases text.len(),
{
    if text.len() == 0 {
        true
    } else if text[0] == BACKSLASH {
        text.len() >= 2 && (text[1] == BACKSLASH || text[1] == QUOTE) && quotes_guarded(
            text.subrange(2, text.len() as int),
        )
    } else {
        text[0] != QUOTE && quotes_guarded(text.drop_first())
    }
}

/// A line between double quotes, escaped.
pub open spec fn quoted(line: Seq<u8>) -> Seq<u8> {
    seq![QUOTE] + sanitized(line) + seq![QUOTE]
}

/// The quoted lines of a batch, in order, with a comma between neighbours.
pub open spec fn joined(lines: Seq<Seq<u8>>) -> Seq<u8>
    decreases lines.len(),
{
    if lines.len() == 0 {
        Seq::empty()
    } else if lines.len() == 1 {
        quoted(lines.last())
    } else {
        joined(lines.drop_last()) + seq![COMMA] + quoted(lines.last())
    }
}

/// The decimal digits of `n`.
pub open spec fn decimal(n: nat) -> Seq<u8>
    decreases n,
{
    if n < 10 {
        seq![(DIGIT_ZERO + n) as u8]
    } else {
        decimal(n / 10) + seq![(DIGIT_ZERO + n % 10) as u8]
    }
}

/// The number that a run of decimal digits writes.
pub open spec fn decimal_value(digits: Seq<u8>) -> nat
    decreases digits.len(),
{
    if digits.len() == 0 {
        0
    } else {
        (decimal_value(digits.drop_last()) * 10 + (digits.last() - DIGIT_ZERO)) as nat
    }
}

/// The body of a request for the lines that `chunk` lists.
pub open spec fn request_body(chunk: Seq<u8>) -> Seq<u8> {
    "{\"model\": \"omni-moderation-latest\", \"input\": [".spec_bytes() + chunk
        + "]}".spec_bytes()
}

/// The request line and headers of a request, blank line included, for a
/// body of `length` bytes.
pub open spec fn request_head(api_key: Seq<u8>, length: nat) -> Seq<u8> {
    "POST /v1/moderations HTTP/1.1\r\nHost: api.openai.com\r\nAuthorization: Bearer ".spec_bytes()
        + api_key + "\r\nContent-Type: application/json\r\nContent-Length: ".spec_bytes()
        + decimal(length) + "\r\nConnection: close\r\n\r\n".spec_bytes()
}

/// The whole request: the head, which declares the body's length, then the body.
pub open spec fn framed_request(api_key: Seq<u8>, chunk: Seq<u8>) -> Seq<u8> {
    request_head(api_key, request_body(chunk).len()) + request_body(chunk)
}

/// One written record: the line, escaped, and its two summary scores as
/// the caller has formatted them.
pub open spec fn record_line(line: Seq<u8>, violence: Seq<u8>, threat: Seq<u8>) -> Seq<u8> {
    "{\"text\": \"".spec_bytes() + record_escaped(line)
        + "\", \"scores\": {\"violence\": ".spec_bytes() + violence
        + ", \"threat\": ".spec_bytes() + threat + "}}".spec_bytes()
}

/// The digits that declare a length write that length.
pub proof fn lemma_decimal_reads_back(n: nat)
    ensures
        decimal_value(decimal(n)) == n,
        decimal(n).len() >= 1,
    decreases n,
{
    if n < 10 {
        let d = decimal(n);
        assert(d.drop_last() =~= Seq::<u8>::empty());
        assert(decimal_value(d.drop_last()) == 0);
    } else {
        lemma_decimal_reads_back(n / 10);
        let d = decimal(n);
        assert(d.drop_last() =~= decimal(n / 10));
    }
}

/// Escaping loses nothing and leaves no bare quote: an escaped line reads
/// back as the line, and each double quote and backslash of the line stands
/// behind a backslash of its own.
pub proof fn lemma_sanitized_reads_back(line: Seq<u8>)
    ensures
        unescaped(sanitized(line)) == line,
        quotes_guarded(sanitized(line)),
    decreases line.len(),
{
    if line.len() > 0 {
        let rest = sanitized(line.drop_first());
        let all = sanitized(line);
        lemma_sanitized_reads_back(line.drop_first());
        if line[0] == BACKSLASH || line[0] == QUOTE {
            assert(all.subrange(2, all.len() as int) =~= rest);
        } else {
            assert(all.drop_first() =~= rest);
        }
        assert(seq![line[0]] + line.drop_first() =~= line);
    }
}

/// Appends `s` to `out`.
pub fn append_bytes(out: &mut Vec<u8>, s: &[u8])
    ensures
        final(out)@ == old(out)@ + s@,
{
    let mut i: usize = 0;
    while i < s.len()
        invariant
            i <= s.len(),
            out@ == old(out)@ + s@.subrange(0, i as int),
        decreases s.len() - i,
    {
        out.push(s[i]);
        proof {
            assert(out@ =~= old(out)@ + s@.subrange(0, i + 1));
        }
        i += 1;
    }
    proof {
        assert(s@.subrange(0, s@.len() as int) =~= s@);
    }
}

/// Escapes backslashes and double quotes, and nothing else.
pub fn sanitize_input(input: &[u8]) -> (r: Vec<u8>)
    ensures
        r@ == sanitized(input@),
{
    let mut out: Vec<u8> = Vec::new();
    let mut i: usize = 0;
    proof {
        assert(input@.subrange(0, input@.len() as int) =~= input@);
    }
    while i < input.len()
        invariant
            i <= input.len(),
            sanitized(input@) == out@ + sanitized(input@.subrange(i as int, input@.len() as int)),
        decreases input.len() - i,
    {
        let b: u8 = input[i];
        let ghost before = out@;
        proof {
            let cur = input@.subrange(i as int, input@.len() as int);
            assert(cur.drop_first() =~= input@.subrange(i + 1, input@.len() as int));
        }
        if b == BACKSLASH || b == QUOTE {
            out.push(BACKSLASH);
        }
        out.push(b);
        proof {
            assert(out@ =~= before + request_escape(b));
            assert(out@ + sanitized(input@.subrange(i + 1, input@.len() as int)) =~= before + (
            request_escape(b) + sanitized(input@.subrange(i + 1, input@.len() as int))));
        }
        i += 1;
    }
    out
}

/// Escapes backslashes, double quotes, newlines and tabs.
pub fn escape_json_string(input: &[u8]) -> (r: Vec<u8>)
    ensures
        r@ == record_escaped(input@),
{
    let mut out: Vec<u8> = Vec::new();
    let mut i: usize = 0;
    proof {
        assert(input@.subrange(0, input@.len() as int) =~= input@);
    }
    while i < input.len()
        invariant
            i <= input.len(),
            record_escaped(input@) == out@ + record_escaped(
                input@.subrange(i as int, input@.len() as int),
            ),
        decreases input.len() - i,
    {
        let b: u8 = input[i];
        let ghost before = out@;
        proof {
            let cur = input@.subrange(i as int, input@.len() as int);
            assert(cur.drop_first() =~= input@.subrange(i + 1, input@.len() as int));
        }
        if b == BACKSLASH || b == QUOTE {
            out.push(BACKSLASH);
            out.push(b);
        } else if b == NEWLINE {
            out.push(BACKSLASH);
            out.push(LETTER_N);
        } else if b == TAB {
            out.push(BACKSLASH);
            out.push(LETTER_T);
        } else {
            out.push(b);
        }
        proof {
            assert(out@ =~= before + record_escape(b));
            assert(out@ + record_escaped(input@.subrange(i + 1, input@.len() as int)) =~= before
                + (record_escape(b) + record_escaped(
                input@.subrange(i + 1, input@.len() as int),
            )));
        }
        i += 1;
    }
    out
}

/// Writes the record of one reported line, without a line end. The scores
/// are written as they are given.
pub fn output_record(line: &[u8], violence: &[u8], threat: &[u8]) -> (r: Vec<u8>)
    ensures
        r@ == record_line(line@, violence@, threat@),
{
    let mut out: Vec<u8> = Vec::new();
    let escaped = escape_json_string(line);
    append_bytes(&mut out, "{\"text\": \"".as_bytes());
    append_bytes(&mut out, escaped.as_slice());
    append_bytes(&mut out, "\", \"scores\": {\"violence\": ".as_bytes());
    append_bytes(&mut out, violence);
    append_bytes(&mut out, ", \"threat\": ".as_bytes());
    append_bytes(&mut out, threat);
    append_bytes(&mut out, "}}".as_bytes());
    proof {
        assert(out@ =~= record_line(line@, violence@, threat@));
    }
    out
}

/// Writes a batch as the elements of a JSON array: each line escaped and
/// quoted, in order.
pub fn encode_batch(lines: &[Vec<u8>]) -> (r: Vec<u8>)
    ensures
        r@ == joined(line_texts(lines@)),
{
    let mut out: Vec<u8> = Vec::new();
    let mut i: usize = 0;
    let ghost texts = line_texts(lines@);
    while i < lines.len()
        invariant
            i <= lines.len(),
            texts == line_texts(lines@),
            out@ == joined(texts.subrange(0, i as int)),
        decreases lines.len() - i,
    {
        let ghost before = out@;
        if i > 0 {
            out.push(COMMA);
        }
        out.push(QUOTE);
        let escaped = sanitize_input(lines[i].as_slice());
        append_bytes(&mut out, escaped.as_slice());
        out.push(QUOTE);
        proof {
            let upto = texts.subrange(0, i + 1);
            assert(upto.drop_last() =~= texts.subrange(0, i as int));
            assert(upto.last() == lines@[i as int]@);
            if i > 0 {
                assert(out@ =~= before + seq![COMMA] + quoted(upto.last()));
            } else {
                assert(out@ =~= quoted(upto.last()));
            }
        }
        i += 1;
    }
    proof {
        assert(texts.subrange(0, lines@.len() as int) =~= texts);
    }
    out
}

/// Appends the decimal digits of `n` to `out`.
pub fn push_decimal(out: &mut Vec<u8>, n: usize)
    ensures
        final(out)@ == old(out)@ + decimal(n as nat),
    decreases n,
{
    if n >= 10 {
        push_decimal(out, n / 10);
    }
    let digit: u8 = (n % 10) as u8;
    out.push(DIGIT_ZERO + digit);
    proof {
        assert(final(out)@ =~= old(out)@ + decimal(n as nat));
    }
}

/// Frames a request for the array elements in `input_chunk`: the request
/// line, the headers with the body's exact length, a blank line, the body.
pub fn build_request(api_key: &[u8], input_chunk: &[u8]) -> (r: Vec<u8>)
    ensures
        r@ == framed_request(api_key@, input_chunk@),
{
    let mut body: Vec<u8> = Vec::new();
    append_bytes(&mut body, "{\"model\": \"omni-moderation-latest\", \"input\": [".as_bytes());
    append_bytes(&mut body, input_chunk);
    append_bytes(&mut body, "]}".as_bytes());
    let mut out: Vec<u8> = Vec::new();
    append_bytes(
        &mut out,
        "POST /v1/moderations HTTP/1.1\r\nHost: api.openai.com\r\nAuthorization: Bearer ".as_bytes(),
    );
    append_bytes(&mut out, api_key);
    append_bytes(
        &mut out,
        "\r\nContent-Type: application/json\r\nContent-Length: ".as_bytes(),
    );
    push_decimal(&mut out, body.len());
    append_bytes(&mut out, "\r\nConnection: close\r\n\r\n".as_bytes());
    append_bytes(&mut out, body.as_slice());
    proof {
        assert(body@ =~= request_body(input_chunk@));
        assert(out@ =~= framed_request(api_key@, input_chunk@));
    }
    out
}

} // verus!
