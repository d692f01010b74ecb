//! The wire codec: the error taxonomy, the server response lines, and the
//! client command lines.  One command or response per line; fields are
//! whitespace-separated; the known error messages are fixed strings and
//! every other line still decodes to exactly one response.  Decoding is
//! total and side-effect-free; encoders produce the full line, trailing
//! newline included.

use vstd::prelude::*;

use crate::num::{dec_digits_part, dec_str, dec_value, is_dec_in_range};
use crate::strutil::{
    has_prefix, split_whitespace_tokens, split_ws_spec, starts_with, str_eq, trim_end_spec,
    verb_eq, verb_matches,
};
use vstd::string::StringExecFns;
use vstd::string::StrSliceExecFns;

verus! {

/// What went wrong with a transfer, as one side reports it to the other.
pub enum GetError {
    InvalidCommand,
    MissingArguments,
    FileError(String),
    UnknownCommand,
    ServerBusy,
    Other(String),
}

/// Spec-level shape of a [`GetError`], with the detail text as a sequence.
pub enum ErrView {
    InvalidCommand,
    MissingArguments,
    FileError(Seq<char>),
    UnknownCommand,
    ServerBusy,
    Other(Seq<char>),
}

impl View for GetError {
    type V = ErrView;

    open spec fn view(&self) -> ErrView {
        match self {
            GetError::InvalidCommand => ErrView::InvalidCommand,
            GetError::MissingArguments => ErrView::MissingArguments,
            GetError::FileError(d) => ErrView::FileError(d@),
            GetError::UnknownCommand => ErrView::UnknownCommand,
            GetError::ServerBusy => ErrView::ServerBusy,
            GetError::Other(d) => ErrView::Other(d@),
        }
    }
}

/// The message text of an error, as a human reads it and as the wire
/// carries it after `ERR `.
pub open spec fn err_message(e: ErrView) -> Seq<char> {
    match e {
        ErrView::InvalidCommand => "Invalid command"@,
        ErrView::MissingArguments => "Missing arguments"@,
        ErrView::FileError(d) => "File error: "@ + d,
        ErrView::UnknownCommand => "Unknown command"@,
        ErrView::ServerBusy => "Server is busy"@,
        ErrView::Other(d) => "Other error: "@ + d,
    }
}

impl GetError {
    /// The message text of this error.
    pub fn message(&self) -> (r: String)
        ensures
            r@ == err_message(self@),
    {
        match self {
            GetError::InvalidCommand => String::from_str("Invalid command"),
            GetError::MissingArguments => String::from_str("Missing arguments"),
            GetError::FileError(d) => String::from_str("File error: ").concat(d.as_str()),
            GetError::UnknownCommand => String::from_str("Unknown command"),
            GetError::ServerBusy => String::from_str("Server is busy"),
            GetError::Other(d) => String::from_str("Other error: ").concat(d.as_str()),
        }
    }
}

/// The error a raw error line denotes.  The four known messages map to
/// their variants — `ERR Server is busy` is the busy line the server
/// sends, and the short form `ERR Server busy` is accepted as busy too —
/// any other `ERR `-prefixed line is a file error carrying the rest of the
/// line, and anything else is an `Other` carrying the line.
pub open spec fn parse_error_spec(line: Seq<char>) -> ErrView {
    if line == "ERR Invalid command"@ {
        ErrView::InvalidCommand
    } else if line == "ERR Missing arguments"@ {
        ErrView::MissingArguments
    } else if line == "ERR Unknown command"@ {
        ErrView::UnknownCommand
    } else if line == "ERR Server is busy"@ || line == "ERR Server busy"@ {
        ErrView::ServerBusy
    } else if has_prefix(line, "ERR "@) {
        ErrView::FileError(line.skip(4))
    } else {
        ErrView::Other(line)
    }
}

/// Decode an error line into the taxonomy.
pub fn parse_error(response: &str) -> (r: GetError)
    ensures
        r@ == parse_error_spec(response@),
{
    if str_eq(response, "ERR Invalid command") {
        GetError::InvalidCommand
    } else if str_eq(response, "ERR Missing arguments") {
        GetError::MissingArguments
    } else if str_eq(response, "ERR Unknown command") {
        GetError::UnknownCommand
    } else if str_eq(response, "ERR Server is busy") || str_eq(response, "ERR Server busy") {
        GetError::ServerBusy
    } else if starts_with(response, "ERR ") {
        proof {
            reveal_strlit("ERR ");
        }
        let rest = response.substring_char(4, response.unicode_len());
        proof {
            assert(rest@ =~= response@.skip(4));
        }
        GetError::FileError(String::from_str(rest))
    } else {
        GetError::Other(String::from_str(response))
    }
}

/// One server reply, as decoded by the client.
pub enum ServerResponse {
    Okay,
    Error(GetError),
    Next(usize),
}

/// Spec-level shape of a [`ServerResponse`].
pub enum RespView {
    Okay,
    Error(ErrView),
    Next(int),
}

impl View for ServerResponse {
    type V = RespView;

    open spec fn view(&self) -> RespView {
        match self {
            ServerResponse::Okay => RespView::Okay,
            ServerResponse::Error(e) => RespView::Error(e.view()),
            ServerResponse::Next(sz) => RespView::Next(*sz as int),
        }
    }
}

/// The response a `NEXT`-prefixed line denotes: `NEXT <n>` exactly — two
/// fields, the second a numeral in range — or a format error.
pub open spec fn next_of_line(line: Seq<char>) -> RespView {
    let toks = split_ws_spec(line);
    if toks.len() == 2 && is_dec_in_range(toks[1], usize::MAX as int) {
        RespView::Next(dec_value(dec_digits_part(toks[1])))
    } else {
        RespView::Error(ErrView::Other("Invalid NEXT command format"@))
    }
}

/// Decode the tail of a `NEXT ` line.
fn parse_next_line(line: &str) -> (r: ServerResponse)
    ensures
        r@ == next_of_line(line@),
{
    let toks = split_whitespace_tokens(line);
    if toks.len() == 2 {
        proof {
            assert(toks.deep_view()[1] == toks@[1]@);
        }
        match crate::num::parse_usize(toks[1].as_str()) {
            Some(sz) => ServerResponse::Next(sz),
            None => ServerResponse::Error(
                GetError::Other(String::from_str("Invalid NEXT command format")),
            ),
        }
    } else {
        ServerResponse::Error(GetError::Other(String::from_str("Invalid NEXT command format")))
    }
}

/// The line is a well-formed acknowledgement: the field `OK` alone (the
/// upload acknowledgement) or `OK <n>` with a numeral `n` (the download
/// acceptance).  Anything else that merely opens with the letters `OK` is
/// no acknowledgement.
pub open spec fn is_ok_ack(line: Seq<char>) -> bool {
    let toks = split_ws_spec(line);
    &&& has_prefix(line, "OK"@)
    &&& toks.len() >= 1
    &&& toks[0] == "OK"@
    &&& (toks.len() == 1 || (toks.len() == 2 && is_dec_in_range(toks[1], u64::MAX as int)))
}

/// Decide whether a line is a well-formed acknowledgement.
fn is_ok_ack_line(line: &str) -> (r: bool)
    ensures
        r == is_ok_ack(line@),
{
    if !starts_with(line, "OK") {
        return false;
    }
    let toks = split_whitespace_tokens(line);
    if toks.len() == 0 {
        return false;
    }
    proof {
        assert(toks.deep_view()[0] == toks@[0]@);
    }
    if !str_eq(toks[0].as_str(), "OK") {
        return false;
    }
    if toks.len() == 1 {
        return true;
    }
    if toks.len() != 2 {
        return false;
    }
    proof {
        assert(toks.deep_view()[1] == toks@[1]@);
    }
    crate::num::parse_u64(toks[1].as_str()).is_some()
}

/// The response a raw line denotes, under the looser error grammar of
/// [`ServerResponse::from_response`]: `ERR`-prefixed lines go through the
/// error taxonomy, `OK` alone or `OK <n>` acknowledges, and `NEXT ` lines
/// announce a chunk.
pub open spec fn from_response_spec(line: Seq<char>) -> RespView {
    if has_prefix(line, "ERR"@) {
        RespView::Error(parse_error_spec(line))
    } else if is_ok_ack(line) {
        RespView::Okay
    } else if has_prefix(line, "NEXT "@) {
        next_of_line(line)
    } else {
        RespView::Error(ErrView::Other("Invalid response"@))
    }
}

impl ServerResponse {
    /// Decode a response line under the looser error grammar.
    pub fn from_response(response: &str) -> (r: Self)
        ensures
            r@ == from_response_spec(response@),
    {
        if starts_with(response, "ERR") {
            ServerResponse::Error(parse_error(response))
        } else if is_ok_ack_line(response) {
            ServerResponse::Okay
        } else if starts_with(response, "NEXT ") {
            parse_next_line(response)
        } else {
            ServerResponse::Error(GetError::Other(String::from_str("Invalid response")))
        }
    }
}

/// The response a raw line denotes, under the strict grammar of
/// [`parse_server_response`]: the known error messages are matched after
/// the `ERR ` prefix, any other `ERR ` line keeps its message text, and
/// `OK` alone or `OK <n>` acknowledges.
pub open spec fn parse_server_response_spec(line: Seq<char>) -> RespView {
    if has_prefix(line, "ERR "@) {
        let msg = line.skip(4);
        if msg == "Invalid command"@ {
            RespView::Error(ErrView::InvalidCommand)
        } else if msg == "Missing arguments"@ {
            RespView::Error(ErrView::MissingArguments)
        } else if msg == "Unknown command"@ {
            RespView::Error(ErrView::UnknownCommand)
        } else if msg == "Server is busy"@ {
            RespView::Error(ErrView::ServerBusy)
        } else {
            RespView::Error(ErrView::Other(msg))
        }
    } else if is_ok_ack(line) {
        RespView::Okay
    } else if has_prefix(line, "NEXT "@) {
        next_of_line(line)
    } else {
        RespView::Error(ErrView::Other("Invalid response"@))
    }
}

/// Decode a response line under the strict grammar.
pub fn parse_server_response(line: &str) -> (r: ServerResponse)
    ensures
        r@ == parse_server_response_spec(line@),
{
    if starts_with(line, "ERR ") {
        proof {
            reveal_strlit("ERR ");
        }
        let msg = line.substring_char(4, line.unicode_len());
        proof {
            assert(msg@ =~= line@.skip(4));
        }
        if str_eq(msg, "Invalid command") {
            ServerResponse::Error(GetError::InvalidCommand)
        } else if str_eq(msg, "Missing arguments") {
            ServerResponse::Error(GetError::MissingArguments)
        } else if str_eq(msg, "Unknown command") {
            ServerResponse::Error(GetError::UnknownCommand)
        } else if str_eq(msg, "Server is busy") {
            ServerResponse::Error(GetError::ServerBusy)
        } else {
            ServerResponse::Error(GetError::Other(String::from_str(msg)))
        }
    } else if is_ok_ack_line(line) {
        ServerResponse::Okay
    } else if starts_with(line, "NEXT ") {
        parse_next_line(line)
    } else {
        ServerResponse::Error(GetError::Other(String::from_str("Invalid response")))
    }
}

/// One parsed transfer request: the first line of a connection.
pub enum TransferRequest {
    Get { path: String, offset: u64 },
    Put { path: String, offset: u64, total_size: u64 },
}

/// Spec-level shape of a [`TransferRequest`].
pub enum ReqView {
    Get { path: Seq<char>, offset: int },
    Put { path: Seq<char>, offset: int, total_size: int },
}

impl View for TransferRequest {
    type V = ReqView;

    open spec fn view(&self) -> ReqView {
        match self {
            TransferRequest::Get { path, offset } => ReqView::Get {
                path: path@,
                offset: *offset as int,
            },
            TransferRequest::Put { path, offset, total_size } => ReqView::Put {
                path: path@,
                offset: *offset as int,
                total_size: *total_size as int,
            },
        }
    }
}

/// The value of a numeral field, with anything unparseable read as zero.
pub open spec fn dec_or_zero(s: Seq<char>) -> int {
    if is_dec_in_range(s, u64::MAX as int) {
        dec_value(dec_digits_part(s))
    } else {
        0
    }
}

/// The request a raw command line denotes, or the error it earns: an empty
/// line is an invalid command, a `GET`/`PUT` verb (in any case) with too
/// few fields is missing arguments, any other verb is unknown.  Numeral
/// fields that do not parse are read as zero.
pub open spec fn parse_request_spec(line: Seq<char>) -> Result<ReqView, ErrView> {
    let toks = split_ws_spec(line);
    if toks.len() == 0 {
        Err(ErrView::InvalidCommand)
    } else if verb_matches(toks[0], "GET"@) {
        if toks.len() < 3 {
            Err(ErrView::MissingArguments)
        } else {
            Ok(ReqView::Get { path: toks[1], offset: dec_or_zero(toks[2]) })
        }
    } else if verb_matches(toks[0], "PUT"@) {
        if toks.len() < 4 {
            Err(ErrView::MissingArguments)
        } else {
            Ok(ReqView::Put {
                path: toks[1],
                offset: dec_or_zero(toks[2]),
                total_size: dec_or_zero(toks[3]),
            })
        }
    } else {
        Err(ErrView::UnknownCommand)
    }
}

/// Read a numeral field, with anything unparseable read as zero.
pub fn field_or_zero(tok: &str) -> (r: u64)
    ensures
        r == dec_or_zero(tok@),
{
    match crate::num::parse_u64(tok) {
        Some(v) => v,
        None => 0,
    }
}

/// Decode the first line of a connection into a request.
pub fn parse_request(line: &str) -> (r: Result<TransferRequest, GetError>)
    ensures
        r is Ok <==> parse_request_spec(line@) is Ok,
        r is Ok ==> r->Ok_0@ == parse_request_spec(line@)->Ok_0,
        r is Err ==> r->Err_0@ == parse_request_spec(line@)->Err_0,
{
    let toks = split_whitespace_tokens(line);
    if toks.len() == 0 {
        return Err(GetError::InvalidCommand);
    }
    proof {
        assert(toks.deep_view()[0] == toks@[0]@);
    }
    if verb_eq(toks[0].as_str(), "GET") {
        if toks.len() < 3 {
            return Err(GetError::MissingArguments);
        }
        proof {
            assert(toks.deep_view()[1] == toks@[1]@);
            assert(toks.deep_view()[2] == toks@[2]@);
        }
        let offset = field_or_zero(toks[2].as_str());
        Ok(TransferRequest::Get { path: toks[1].clone(), offset })
    } else if verb_eq(toks[0].as_str(), "PUT") {
        if toks.len() < 4 {
            return Err(GetError::MissingArguments);
        }
        proof {
            assert(toks.deep_view()[1] == toks@[1]@);
            assert(toks.deep_view()[2] == toks@[2]@);
            assert(toks.deep_view()[3] == toks@[3]@);
        }
        let offset = field_or_zero(toks[2].as_str());
        let total_size = field_or_zero(toks[3].as_str());
        Ok(TransferRequest::Put { path: toks[1].clone(), offset, total_size })
    } else {
        Err(GetError::UnknownCommand)
    }
}

/// Encode a download request line: `GET <path> <offset>`, newline-ended.
pub fn encode_get_request(path: &str, offset: u64) -> (r: String)
    ensures
        r@ == "GET "@ + path@ + " "@ + dec_str(offset as nat) + "\n"@,
{
    let r = String::from_str("GET ").concat(path).concat(" ").concat(
        crate::num::u64_to_dec(offset).as_str(),
    ).concat("\n");
    proof {
        assert(r@ =~= "GET "@ + path@ + " "@ + dec_str(offset as nat) + "\n"@);
    }
    r
}

/// Encode an upload request line: `PUT <path> <offset> <totalSize>`,
/// newline-ended.
pub fn encode_put_request(path: &str, offset: u64, total_size: u64) -> (r: String)
    ensures
        r@ == "PUT "@ + path@ + " "@ + dec_str(offset as nat) + " "@ + dec_str(
            total_size as nat,
        ) + "\n"@,
{
    let r = String::from_str("PUT ").concat(path).concat(" ").concat(
        crate::num::u64_to_dec(offset).as_str(),
    ).concat(" ").concat(crate::num::u64_to_dec(total_size).as_str()).concat("\n");
    proof {
        assert(r@ =~= "PUT "@ + path@ + " "@ + dec_str(offset as nat) + " "@ + dec_str(
            total_size as nat,
        ) + "\n"@);
    }
    r
}

/// Encode the bare upload acknowledgement line: `OK`, newline-ended.
pub fn encode_ok() -> (r: String)
    ensures
        r@ == "OK\n"@,
{
    String::from_str("OK\n")
}

/// Encode a download acceptance line: `OK <remaining>`, newline-ended.
pub fn encode_ok_remaining(remaining: u64) -> (r: String)
    ensures
        r@ == "OK "@ + dec_str(remaining as nat) + "\n"@,
{
    let r = String::from_str("OK ").concat(crate::num::u64_to_dec(remaining).as_str()).concat(
        "\n",
    );
    proof {
        assert(r@ =~= "OK "@ + dec_str(remaining as nat) + "\n"@);
    }
    r
}

/// Encode a chunk announcement line: `NEXT <n>`, newline-ended.
pub fn encode_next(chunk: u64) -> (r: String)
    ensures
        r@ == "NEXT "@ + dec_str(chunk as nat) + "\n"@,
{
    let r = String::from_str("NEXT ").concat(crate::num::u64_to_dec(chunk).as_str()).concat("\n");
    proof {
        assert(r@ =~= "NEXT "@ + dec_str(chunk as nat) + "\n"@);
    }
    r
}

/// Encode an error line: `ERR <message>`, newline-ended.
pub fn error_line(e: &GetError) -> (r: String)
    ensures
        r@ == "ERR "@ + err_message(e@) + "\n"@,
{
    let r = String::from_str("ERR ").concat(e.message().as_str()).concat("\n");
    proof {
        assert(r@ =~= "ERR "@ + err_message(e@) + "\n"@);
    }
    r
}

/// Digit characters are never whitespace.
proof fn lemma_digits_not_ws(d: Seq<char>)
    requires
        crate::num::all_digits(d),
    ensures
        forall|i: int| 0 <= i < d.len() ==> !crate::strutil::is_ws(#[trigger] d[i]),
{
    assert forall|i: int| 0 <= i < d.len() implies !crate::strutil::is_ws(d[i]) by {
        assert(crate::num::is_digit(d[i]));
    }
}

/// The fields of one encoded line `<verb> <numeral>\n`, already trimmed:
/// the verb and the numeral.
proof fn lemma_split_verb_numeral(body: Seq<char>, verb: Seq<char>, d: Seq<char>)
    requires
        body == verb + (seq![' '] + d),
        verb.len() > 0,
        forall|i: int| 0 <= i < verb.len() ==> !crate::strutil::is_ws(#[trigger] verb[i]),
        d.len() > 0,
        crate::num::all_digits(d),
    ensures
        split_ws_spec(body) == seq![verb, d],
{
    let rest1 = seq![' '] + d;
    assert(crate::strutil::is_ws(rest1[0]));
    crate::strutil::lemma_split_ws_leading_token(body, verb, rest1);
    assert(rest1.skip(1) =~= d);
    crate::strutil::lemma_split_ws_head_ws(rest1);
    lemma_digits_not_ws(d);
    assert(d =~= d + Seq::<char>::empty());
    crate::strutil::lemma_split_ws_leading_token(d, d, Seq::empty());
    assert(split_ws_spec(Seq::<char>::empty()) == Seq::<Seq<char>>::empty());
    assert(seq![verb] + (seq![d] + Seq::<Seq<char>>::empty()) =~= seq![verb, d]);
}

/// An encoded chunk announcement decodes back to the same chunk size: the
/// server's `NEXT <n>` line, trimmed as the client trims it, reads as
/// `Next(n)`.
pub proof fn lemma_next_round_trip(n: u64)
    requires
        n <= usize::MAX as u64,
    ensures
        parse_server_response_spec(trim_end_spec("NEXT "@ + dec_str(n as nat) + "\n"@))
            == RespView::Next(n as int),
{
    reveal_strlit("NEXT ");
    reveal_strlit("\n");
    reveal_strlit("ERR ");
    reveal_strlit("OK");
    let d = dec_str(n as nat);
    crate::num::lemma_dec_str_value(n as nat);
    crate::num::lemma_dec_round_trip(n);
    let body = "NEXT "@ + d;
    let line = body + "\n"@;
    assert(line =~= body.push('\n'));
    crate::strutil::lemma_trim_end_ws_char(body, '\n');
    assert(body[body.len() - 1] == d[d.len() - 1]);
    assert(crate::num::is_digit(d[d.len() - 1]));
    crate::strutil::lemma_trim_end_no_ws(body);
    assert(trim_end_spec(line) == body);
    assert(body[0] == 'N');
    assert(!has_prefix(body, "ERR "@)) by {
        if has_prefix(body, "ERR "@) {
            assert(body.take(4)[0] == body[0]);
        }
    }
    assert(!has_prefix(body, "OK"@)) by {
        if has_prefix(body, "OK"@) {
            assert(body.take(2)[0] == body[0]);
        }
    }
    assert(has_prefix(body, "NEXT "@)) by {
        assert(body.take(5) =~= "NEXT "@);
    }
    let verb = "NEXT "@.take(4);
    assert(body =~= verb + (seq![' '] + d));
    assert forall|i: int| 0 <= i < verb.len() implies !crate::strutil::is_ws(
        #[trigger] verb[i],
    ) by {
        assert(verb[i] == "NEXT "@[i]);
    }
    lemma_split_verb_numeral(body, verb, d);
    assert(is_dec_in_range(d, usize::MAX as int)) by {
        assert(d[0] != '+');
        assert(dec_digits_part(d) == d);
    }
    assert(next_of_line(body) == RespView::Next(n as int));
}

/// The download header decodes back to the remainder it announces: the
/// server's `OK <remaining>` line, trimmed as the client trims it, reads
/// as an acknowledgement whose second field is exactly `remaining`.
pub proof fn lemma_ok_header_round_trip(remaining: u64)
    ensures
        ({
            let t = trim_end_spec("OK "@ + dec_str(remaining as nat) + "\n"@);
            &&& parse_server_response_spec(t) == RespView::Okay
            &&& split_ws_spec(t).len() == 2
            &&& dec_or_zero(split_ws_spec(t)[1]) == remaining
        }),
{
    reveal_strlit("OK ");
    reveal_strlit("\n");
    reveal_strlit("ERR ");
    reveal_strlit("OK");
    let d = dec_str(remaining as nat);
    crate::num::lemma_dec_str_value(remaining as nat);
    crate::num::lemma_dec_round_trip(remaining);
    let body = "OK "@ + d;
    let line = body + "\n"@;
    assert(line =~= body.push('\n'));
    crate::strutil::lemma_trim_end_ws_char(body, '\n');
    assert(body[body.len() - 1] == d[d.len() - 1]);
    assert(crate::num::is_digit(d[d.len() - 1]));
    crate::strutil::lemma_trim_end_no_ws(body);
    assert(trim_end_spec(line) == body);
    assert(body[0] == 'O');
    assert(!has_prefix(body, "ERR "@)) by {
        if has_prefix(body, "ERR "@) {
            assert(body.take(4)[0] == body[0]);
        }
    }
    assert(has_prefix(body, "OK"@)) by {
        assert(body.take(2) =~= "OK"@);
    }
    let verb = "OK "@.take(2);
    assert(body =~= verb + (seq![' '] + d));
    assert forall|i: int| 0 <= i < verb.len() implies !crate::strutil::is_ws(
        #[trigger] verb[i],
    ) by {
        assert(verb[i] == "OK "@[i]);
    }
    lemma_split_verb_numeral(body, verb, d);
    assert(dec_digits_part(d) == d) by {
        assert(d[0] != '+');
    }
    assert(is_ok_ack(body)) by {
        assert(verb =~= "OK"@);
        assert(is_dec_in_range(d, u64::MAX as int));
    }
}

/// An encoded GET command parses back to the same request, for any path
/// the wire can carry (non-empty, no whitespace).
pub proof fn lemma_get_request_round_trip(path: Seq<char>, offset: u64)
    requires
        path.len() > 0,
        forall|i: int| 0 <= i < path.len() ==> !crate::strutil::is_ws(#[trigger] path[i]),
    ensures
        parse_request_spec("GET "@ + path + " "@ + dec_str(offset as nat) + "\n"@)
            == Ok::<ReqView, ErrView>(ReqView::Get { path, offset: offset as int }),
{
    reveal_strlit("GET ");
    reveal_strlit("GET");
    reveal_strlit(" ");
    reveal_strlit("\n");
    let d = dec_str(offset as nat);
    crate::num::lemma_dec_str_value(offset as nat);
    crate::num::lemma_dec_round_trip(offset);
    let s = "GET "@ + path + " "@ + d + "\n"@;
    let verb = "GET "@.take(3);
    let rest1 = seq![' '] + (path + (seq![' '] + (d + seq!['\n'])));
    assert(s =~= verb + rest1);
    assert forall|i: int| 0 <= i < verb.len() implies !crate::strutil::is_ws(
        #[trigger] verb[i],
    ) by {
        assert(verb[i] == "GET "@[i]);
    }
    crate::strutil::lemma_split_ws_leading_token(verb + rest1, verb, rest1);
    crate::strutil::lemma_split_ws_head_ws(rest1);
    let tail1 = path + (seq![' '] + (d + seq!['\n']));
    assert(rest1.skip(1) =~= tail1);
    let rest2 = seq![' '] + (d + seq!['\n']);
    crate::strutil::lemma_split_ws_leading_token(tail1, path, rest2);
    crate::strutil::lemma_split_ws_head_ws(rest2);
    let tail2 = d + seq!['\n'];
    assert(rest2.skip(1) =~= tail2);
    lemma_digits_not_ws(d);
    let rest3 = seq!['\n'];
    crate::strutil::lemma_split_ws_leading_token(tail2, d, rest3);
    crate::strutil::lemma_split_ws_head_ws(rest3);
    assert(rest3.skip(1) =~= Seq::<char>::empty());
    assert(split_ws_spec(Seq::<char>::empty()) == Seq::<Seq<char>>::empty());
    let toks = split_ws_spec(s);
    assert(toks == split_ws_spec(verb + rest1));
    assert(toks =~= seq![verb, path, d]);
    assert(verb_matches(toks[0], "GET"@)) by {
        assert(verb[0] == 'G' && verb[1] == 'E' && verb[2] == 'T');
        assert("GET"@[0] == 'G' && "GET"@[1] == 'E' && "GET"@[2] == 'T');
        assert forall|i: int| 0 <= i < verb.len() implies crate::strutil::upper_val(verb[i])
            == #[trigger] "GET"@[i] as int by {
            if i == 0 {
            } else if i == 1 {
            } else {
            }
        }
    }
    assert(dec_or_zero(toks[2]) == offset) by {
        assert(d[0] != '+');
        assert(dec_digits_part(d) == d);
    }
}

/// An encoded PUT command parses back to the same request, for any path
/// the wire can carry (non-empty, no whitespace).
pub proof fn lemma_put_request_round_trip(path: Seq<char>, offset: u64, total_size: u64)
    requires
        path.len() > 0,
        forall|i: int| 0 <= i < path.len() ==> !crate::strutil::is_ws(#[trigger] path[i]),
    ensures
        parse_request_spec(
            "PUT "@ + path + " "@ + dec_str(offset as nat) + " "@ + dec_str(total_size as nat)
                + "\n"@,
        ) == Ok::<ReqView, ErrView>(
            ReqView::Put { path, offset: offset as int, total_size: total_size as int },
        ),
{
    {
        reveal_strlit("PUT ");
        reveal_strlit("PUT");
        reveal_strlit("GET");
        reveal_strlit(" ");
        reveal_strlit("\n");
        let d1 = dec_str(offset as nat);
        let d2 = dec_str(total_size as nat);
        crate::num::lemma_dec_str_value(offset as nat);
        crate::num::lemma_dec_round_trip(offset);
        crate::num::lemma_dec_str_value(total_size as nat);
        crate::num::lemma_dec_round_trip(total_size);
        lemma_digits_not_ws(d1);
        lemma_digits_not_ws(d2);
        let s = "PUT "@ + path + " "@ + d1 + " "@ + d2 + "\n"@;
        let verb = "PUT "@.take(3);
        let rest3 = seq![' '] + (d2 + seq!['\n']);
        let tail2 = d1 + rest3;
        let rest2 = seq![' '] + tail2;
        let tail1 = path + rest2;
        let rest1 = seq![' '] + tail1;
        assert(s =~= verb + rest1);
        assert forall|i: int| 0 <= i < verb.len() implies !crate::strutil::is_ws(
            #[trigger] verb[i],
        ) by {
            assert(verb[i] == "PUT "@[i]);
        }
        crate::strutil::lemma_split_ws_leading_token(verb + rest1, verb, rest1);
        crate::strutil::lemma_split_ws_head_ws(rest1);
        assert(rest1.skip(1) =~= tail1);
        crate::strutil::lemma_split_ws_leading_token(tail1, path, rest2);
        crate::strutil::lemma_split_ws_head_ws(rest2);
        assert(rest2.skip(1) =~= tail2);
        crate::strutil::lemma_split_ws_leading_token(tail2, d1, rest3);
        crate::strutil::lemma_split_ws_head_ws(rest3);
        let tail3 = d2 + seq!['\n'];
        assert(rest3.skip(1) =~= tail3);
        let rest4 = seq!['\n'];
        crate::strutil::lemma_split_ws_leading_token(tail3, d2, rest4);
        crate::strutil::lemma_split_ws_head_ws(rest4);
        assert(rest4.skip(1) =~= Seq::<char>::empty());
        assert(split_ws_spec(Seq::<char>::empty()) == Seq::<Seq<char>>::empty());
        let toks = split_ws_spec(s);
        assert(toks == split_ws_spec(verb + rest1));
        assert(toks =~= seq![verb, path, d1, d2]);
        assert(!verb_matches(toks[0], "GET"@)) by {
            assert(verb[0] == 'P');
            assert("GET"@[0] == 'G');
            assert(crate::strutil::upper_val(verb[0]) != "GET"@[0] as int);
        }
        assert(verb_matches(toks[0], "PUT"@)) by {
            assert(verb[0] == 'P' && verb[1] == 'U' && verb[2] == 'T');
            assert("PUT"@[0] == 'P' && "PUT"@[1] == 'U' && "PUT"@[2] == 'T');
            assert forall|i: int| 0 <= i < verb.len() implies crate::strutil::upper_val(verb[i])
                == #[trigger] "PUT"@[i] as int by {
                if i == 0 {
                } else if i == 1 {
                } else {
                }
            }
        }
        assert(dec_or_zero(toks[2]) == offset) by {
            assert(d1[0] != '+');
            assert(dec_digits_part(d1) == d1);
        }
        assert(dec_or_zero(toks[3]) == total_size) by {
            assert(d2[0] != '+');
            assert(dec_digits_part(d2) == d2);
        }
    }
}

} // verus!
