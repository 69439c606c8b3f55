//! Whole messages: a frame whose body is the UTF-8 text of a JSON value.
use vstd::prelude::*;
use vstd::utf8::{decode_utf8, encode_utf8, is_ascii_chars, valid_utf8};
use crate::decimal::{all_digits, lemma_decimal_of, signed_decimal, signed_decimal_bytes};
use crate::frame::{
    frame_bytes, frame_of, lemma_frame_extend, lemma_frame_within, lemma_frame_round_trip, read_frame, write_frame,
    FrameError,
};
use crate::json::{encode_json, parse_json, parsed_json, rendered_json, utf8_text, Json};

verus! {

/// Why no message could be read.
#[derive(Debug, Clone, Copy, PartialEq, Eq, Structural)]
pub enum MessageError {
    /// The frame around the body could not be read.
    Frame(FrameError),
    /// The body is not UTF-8.
    NotUtf8,
    /// The body is not JSON.
    NotJson,
}

/// The first message of `s`, and how many bytes it takes up.
pub open spec fn message_of(s: Seq<u8>) -> Result<(Json, int), MessageError> {
    match frame_of(s) {
        Err(e) => Err(MessageError::Frame(e)),
        Ok((start, n)) => {
            let body = s.subrange(start, start + n);
            if !valid_utf8(body) {
                Err(MessageError::NotUtf8)
            } else {
                match parsed_json(decode_utf8(body)) {
                    Some(j) => Ok((j, start + n)),
                    None => Err(MessageError::NotJson),
                }
            }
        },
    }
}

/// Reads the first message of `buf`: its JSON value, and how many bytes of
/// `buf` it takes up.
pub fn read_message(buf: &[u8]) -> (r: Result<(Json, usize), MessageError>)
    ensures
        match r {
            Ok((j, used)) => message_of(buf@) == Ok::<(Json, int), MessageError>((j, used as int)),
            Err(e) => message_of(buf@) == Err::<(Json, int), MessageError>(e),
        },
{
    match read_frame(buf) {
        Err(e) => Err(MessageError::Frame(e)),
        Ok((start, n)) => {
            let len = buf.len();
            assert(start + n <= len);
            let body = vstd::slice::slice_subrange(buf, start, start + n);
            match utf8_text(body) {
                None => Err(MessageError::NotUtf8),
                Some(text) => match parse_json(text) {
                    Some(j) => Ok((j, start + n)),
                    None => Err(MessageError::NotJson),
                },
            }
        },
    }
}

/// Reading back a frame that carries the UTF-8 text of a JSON value, whatever
/// follows it, gives what serde_json reads from that text.
pub proof fn lemma_message_round_trip(text: Seq<char>, rest: Seq<u8>)
    requires
        encode_utf8(text).len() <= usize::MAX,
    ensures
        message_of(frame_bytes(encode_utf8(text)) + rest) == match parsed_json(text) {
            Some(j) => Ok::<(Json, int), MessageError>(
                (j, frame_bytes(encode_utf8(text)).len() as int),
            ),
            None => Err(MessageError::NotJson),
        },
{
    let body = encode_utf8(text);
    lemma_frame_round_trip(body, rest);
    vstd::utf8::encode_utf8_valid_utf8(text);
    vstd::utf8::encode_utf8_decode_utf8(text);
}

/// `j` is the JSON-RPC request object `{"jsonrpc": "2.0", "id": id,
/// "method": method, "params": params}`, its members in that order.
pub open spec fn is_request(j: Json, id: i64, method: Seq<char>, params: Json) -> bool {
    match j {
        Json::Object(o) => {
            &&& o@.len() == 4
            &&& o@[0].0@ == "jsonrpc"@
            &&& o@[0].1 matches Json::Str(v) && v@ == "2.0"@
            &&& o@[1].0@ == "id"@
            &&& o@[1].1 matches Json::Number(t) && encode_utf8(t@) == signed_decimal(id)
            &&& o@[2].0@ == "method"@
            &&& o@[2].1 matches Json::Str(m) && m@ == method
            &&& o@[3].0@ == "params"@
            &&& o@[3].1 == params
        },
        _ => false,
    }
}

/// `r` is the framed text of `j`, or `None` where serde_json cannot write
/// `j`.
pub open spec fn frames_json(r: Option<Vec<u8>>, j: Json) -> bool {
    match r {
        Some(b) => rendered_json(j) is Some && b@ == frame_bytes(encode_utf8(rendered_json(j)->0)),
        None => rendered_json(j) is None,
    }
}

/// The JSON number that writes `n`.
fn number_of(n: i64) -> (r: Json)
    ensures
        r matches Json::Number(t) && encode_utf8(t@) == signed_decimal(n),
{
    let b = signed_decimal_bytes(n);
    let ghost c = Seq::new(b@.len(), |i: int| b@[i] as char);
    proof {
        if n < 0 {
            lemma_decimal_of((-(n as int)) as nat);
        } else {
            lemma_decimal_of(n as nat);
        }
        let d = if n < 0 {
            crate::decimal::decimal_of((-(n as int)) as nat)
        } else {
            crate::decimal::decimal_of(n as nat)
        };
        assert(all_digits(d));
        assert forall|i: int| 0 <= i < b@.len() implies b@[i] < 128 by {
            if n < 0 {
                if i > 0 {
                    assert(b@[i] == d[i - 1]);
                }
            } else {
                assert(b@[i] == d[i]);
            }
        }
        assert(is_ascii_chars(c));
        vstd::utf8::is_ascii_chars_encode_utf8(c);
        assert(encode_utf8(c) =~= b@);
        vstd::utf8::encode_utf8_valid_utf8(c);
        vstd::utf8::encode_utf8_decode_utf8(c);
    }
    match utf8_text(b.as_slice()) {
        Some(t) => Json::Number(t.to_owned()),
        None => Json::Null,
    }
}

/// Builds the framed request `{"jsonrpc": "2.0", "id": id, "method":
/// method, "params": params}`: the bytes to send, or `None` where serde_json
/// cannot write the value.
pub fn make_request(id: i64, method: &str, params: Json) -> (r: Option<Vec<u8>>)
    ensures
        exists|j: Json| #[trigger] is_request(j, id, method@, params) && frames_json(r, j),
{
    let o = vec![
        ("jsonrpc".to_owned(), Json::Str("2.0".to_owned())),
        ("id".to_owned(), number_of(id)),
        ("method".to_owned(), Json::Str(method.to_owned())),
        ("params".to_owned(), params),
    ];
    let j = Json::Object(o);
    assert(is_request(j, id, method@, params));
    match encode_json(&j) {
        Some(body) => {
            proof {
                vstd::utf8::decode_utf8_encode_utf8(body@);
            }
            Some(write_frame(body.as_slice()))
        },
        None => None,
    }
}

/// What was written for a value reads back, whatever bytes follow it, as
/// what serde_json reads from the text it wrote for that value.
pub proof fn lemma_written_reads_back(r: Option<Vec<u8>>, j: Json, rest: Seq<u8>)
    requires
        frames_json(r, j),
        r is Some,
        r->0@.len() <= usize::MAX,
    ensures
        ({
            let b = r->0@;
            message_of(b + rest) == match parsed_json(rendered_json(j)->0) {
                Some(v) => Ok::<(Json, int), MessageError>((v, b.len() as int)),
                None => Err(MessageError::NotJson),
            }
        }),
{
    let text = rendered_json(j)->0;
    let b = r->0@;
    assert(frame_bytes(encode_utf8(text)).len() == b.len());
    lemma_message_round_trip(text, rest);
}

/// More bytes after the ones at hand change the message read from them only
/// where its frame was `Truncated`.
pub proof fn lemma_message_extend(s: Seq<u8>, t: Seq<u8>)
    requires
        message_of(s) != Err::<(Json, int), MessageError>(MessageError::Frame(FrameError::Truncated)),
    ensures
        message_of(s + t) == message_of(s),
{
    lemma_frame_extend(s, t);
    lemma_frame_within(s);
    if let Ok((start, n)) = frame_of(s) {
        assert((s + t).subrange(start, start + n) =~= s.subrange(start, start + n));
    }
}

} // verus!
