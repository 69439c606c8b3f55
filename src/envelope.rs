//! The envelope classifier: which of the four JSON-RPC shapes a message has.
use vstd::prelude::*;
use vstd::utf8::encode_utf8;
use crate::decimal::{i64_text, parse_i64, signed_decimal, signed_decimal_bytes};
use crate::json::Json;

verus! {

/// The id that links a response to the request it answers.
#[derive(Debug, PartialEq, Eq)]
pub enum CorrelationId {
    Num(i64),
    Str(String),
    Null,
}

/// One decoded message.
#[derive(Debug, PartialEq)]
pub enum Envelope {
    Request { id: CorrelationId, method: String, params: Option<Json> },
    Notification { method: String, params: Option<Json> },
    SuccessResponse { id: CorrelationId, result: Json },
    ErrorResponse { id: CorrelationId, error: Json },
}

/// Why a message has none of the four shapes.
#[derive(Debug, Clone, Copy, PartialEq, Eq, Structural)]
pub enum ClassifyError {
    /// The message is not a JSON object.
    NotObject,
    /// It has neither `method` nor an `id` with `result` or `error`.
    NoShape,
    /// It has no `method`, and both `result` and `error`.
    Ambiguous,
    /// Its `method` is not a string.
    BadMethod,
    /// Its `id` is not an integer, a string or null.
    BadId,
}

/// The member of `o` named `k`; where the name repeats, the last one.
pub open spec fn field(o: Seq<(String, Json)>, k: Seq<char>) -> Option<Json>
    decreases o.len(),
{
    if o.len() == 0 {
        None
    } else if o.last().0@ == k {
        Some(o.last().1)
    } else {
        field(o.drop_last(), k)
    }
}

/// The id that a JSON value writes, if it is one.
pub open spec fn id_of(j: Json) -> Option<CorrelationId> {
    match j {
        Json::Null => Some(CorrelationId::Null),
        Json::Str(s) => Some(CorrelationId::Str(s)),
        Json::Number(t) => match i64_text(encode_utf8(t@)) {
            Some(n) => Some(CorrelationId::Num(n)),
            None => None,
        },
        _ => None,
    }
}

/// The shape of a message: a `method` makes it a request when it has an
/// `id` and a notification when not; without `method`, an `id` with
/// `result` makes a success response and one with `error` an error
/// response.
pub open spec fn envelope_of(j: Json) -> Result<Envelope, ClassifyError> {
    match j {
        Json::Object(o) => {
            let method = field(o@, "method"@);
            let id = field(o@, "id"@);
            let params = field(o@, "params"@);
            let result = field(o@, "result"@);
            let error = field(o@, "error"@);
            match method {
                Some(Json::Str(m)) => match id {
                    Some(i) => match id_of(i) {
                        Some(c) => Ok(Envelope::Request { id: c, method: m, params }),
                        None => Err(ClassifyError::BadId),
                    },
                    None => Ok(Envelope::Notification { method: m, params }),
                },
                Some(_) => Err(ClassifyError::BadMethod),
                None => match id {
                    Some(i) => match id_of(i) {
                        Some(c) => match (result, error) {
                            (Some(r), None) => Ok(Envelope::SuccessResponse { id: c, result: r }),
                            (None, Some(e)) => Ok(Envelope::ErrorResponse { id: c, error: e }),
                            (Some(_), Some(_)) => Err(ClassifyError::Ambiguous),
                            (None, None) => Err(ClassifyError::NoShape),
                        },
                        None => Err(ClassifyError::BadId),
                    },
                    None => Err(ClassifyError::NoShape),
                },
            }
        },
        _ => Err(ClassifyError::NotObject),
    }
}

/// The id answers the request with id `n`: the same integer, or a string
/// that writes it in decimal.
pub open spec fn id_matches(id: CorrelationId, n: i64) -> bool {
    match id {
        CorrelationId::Num(m) => m == n,
        CorrelationId::Str(s) => encode_utf8(s@) == signed_decimal(n),
        CorrelationId::Null => false,
    }
}

fn id_from(j: Json) -> (r: Option<CorrelationId>)
    ensures
        r == id_of(j),
{
    match j {
        Json::Null => Some(CorrelationId::Null),
        Json::Str(s) => Some(CorrelationId::Str(s)),
        Json::Number(t) => match parse_i64(t.as_str().as_bytes()) {
            Some(n) => Some(CorrelationId::Num(n)),
            None => None,
        },
        _ => None,
    }
}

fn bytes_equal(a: &[u8], b: &[u8]) -> (r: bool)
    ensures
        r == (a@ == b@),
{
    if a.len() != b.len() {
        return false;
    }
    let mut i: usize = 0;
    while i < a.len()
        invariant
            a@.len() == b@.len(),
            i <= a@.len(),
            forall|j: int| 0 <= j < i ==> a@[j] == b@[j],
        decreases a@.len() - i,
    {
        if a[i] != b[i] {
            return false;
        }
        i = i + 1;
    }
    assert(a@ =~= b@);
    true
}

/// Tells whether `id` answers the request with id `n`.
pub fn id_answers(id: &CorrelationId, n: i64) -> (r: bool)
    ensures
        r == id_matches(*id, n),
{
    match id {
        CorrelationId::Num(m) => *m == n,
        CorrelationId::Str(s) => {
            let d = signed_decimal_bytes(n);
            bytes_equal(s.as_str().as_bytes(), d.as_slice())
        },
        CorrelationId::Null => false,
    }
}

/// Takes the members of an object apart, keeping the last of each name
/// that classification reads.
fn take_fields(o: Vec<(String, Json)>) -> (r: (
    Option<Json>,
    Option<Json>,
    Option<Json>,
    Option<Json>,
    Option<Json>,
))
    ensures
        r.0 == field(o@, "method"@),
        r.1 == field(o@, "id"@),
        r.2 == field(o@, "params"@),
        r.3 == field(o@, "result"@),
        r.4 == field(o@, "error"@),
{
    let k_method = "method".to_owned();
    let k_id = "id".to_owned();
    let k_params = "params".to_owned();
    let k_result = "result".to_owned();
    let k_error = "error".to_owned();
    let ghost all = o@;
    let mut rest = o;
    let mut method: Option<Json> = None;
    let mut id: Option<Json> = None;
    let mut params: Option<Json> = None;
    let mut result: Option<Json> = None;
    let mut error: Option<Json> = None;
    while rest.len() > 0
        invariant
            k_method@ == "method"@,
            k_id@ == "id"@,
            k_params@ == "params"@,
            k_result@ == "result"@,
            k_error@ == "error"@,
            field(all, "method"@) == (if method is Some {
                method
            } else {
                field(rest@, "method"@)
            }),
            field(all, "id"@) == (if id is Some {
                id
            } else {
                field(rest@, "id"@)
            }),
            field(all, "params"@) == (if params is Some {
                params
            } else {
                field(rest@, "params"@)
            }),
            field(all, "result"@) == (if result is Some {
                result
            } else {
                field(rest@, "result"@)
            }),
            field(all, "error"@) == (if error is Some {
                error
            } else {
                field(rest@, "error"@)
            }),
        decreases rest@.len(),
    {
        proof {
            reveal_strlit("method");
            reveal_strlit("id");
            reveal_strlit("params");
            reveal_strlit("result");
            reveal_strlit("error");
            assert("method"@[0] == 'm' && "id"@[0] == 'i' && "params"@[0] == 'p');
            assert("result"@[0] == 'r' && "error"@[0] == 'e');
        }
        let ghost before = rest@;
        let (k, v) = rest.pop().unwrap();
        assert(before.drop_last() =~= rest@);
        if method.is_none() && k == k_method {
            method = Some(v);
        } else if id.is_none() && k == k_id {
            id = Some(v);
        } else if params.is_none() && k == k_params {
            params = Some(v);
        } else if result.is_none() && k == k_result {
            result = Some(v);
        } else if error.is_none() && k == k_error {
            error = Some(v);
        }
    }
    (method, id, params, result, error)
}

/// Classifies a decoded message as one of the four shapes, or says why it
/// has none.
pub fn classify(j: Json) -> (r: Result<Envelope, ClassifyError>)
    ensures
        r == envelope_of(j),
{
    match j {
        Json::Object(o) => {
            let (method, id, params, result, error) = take_fields(o);
            match method {
                Some(Json::Str(m)) => match id {
                    Some(i) => match id_from(i) {
                        Some(c) => Ok(Envelope::Request { id: c, method: m, params }),
                        None => Err(ClassifyError::BadId),
                    },
                    None => Ok(Envelope::Notification { method: m, params }),
                },
                Some(_) => Err(ClassifyError::BadMethod),
                None => match id {
                    Some(i) => match id_from(i) {
                        Some(c) => match (result, error) {
                            (Some(r), None) => Ok(Envelope::SuccessResponse { id: c, result: r }),
                            (None, Some(e)) => Ok(Envelope::ErrorResponse { id: c, error: e }),
                            (Some(_), Some(_)) => Err(ClassifyError::Ambiguous),
                            (None, None) => Err(ClassifyError::NoShape),
                        },
                        None => Err(ClassifyError::BadId),
                    },
                    None => Err(ClassifyError::NoShape),
                },
            }
        },
        _ => Err(ClassifyError::NotObject),
    }
}

/// Takes two differently named members out of an object, the last of each
/// name.
pub(crate) fn take_two(o: Vec<(String, Json)>, k1: &str, k2: &str) -> (r: (Option<Json>, Option<Json>))
    requires
        k1@ != k2@,
    ensures
        r.0 == field(o@, k1@),
        r.1 == field(o@, k2@),
{
    let key1 = k1.to_owned();
    let key2 = k2.to_owned();
    let ghost all = o@;
    let mut rest = o;
    let mut first: Option<Json> = None;
    let mut second: Option<Json> = None;
    while rest.len() > 0
        invariant
            key1@ == k1@,
            key2@ == k2@,
            k1@ != k2@,
            field(all, k1@) == (if first is Some {
                first
            } else {
                field(rest@, k1@)
            }),
            field(all, k2@) == (if second is Some {
                second
            } else {
                field(rest@, k2@)
            }),
        decreases rest@.len(),
    {
        let ghost before = rest@;
        let (k, v) = rest.pop().unwrap();
        assert(before.drop_last() =~= rest@);
        if k == key1 {
            if first.is_none() {
                first = Some(v);
            }
        } else if k == key2 {
            if second.is_none() {
                second = Some(v);
            }
        }
    }
    (first, second)
}

/// Tells whether `s` holds the text `lit`.
pub(crate) fn text_is(s: &String, lit: &str) -> (r: bool)
    ensures
        r == (s@ == lit@),
{
    let t = lit.to_owned();
    *s == t
}

/// Every object gets a shape or an error: with a string `method`, a
/// request when it has an `id` and a notification when it has none; with no
/// `method`, an `id` and `result` alone make a success response and an `id`
/// and `error` alone an error response; an object with neither `method` nor
/// an `id` with one of `result` and `error` fails, as does every value that is
/// not an object.
pub proof fn lemma_classifier_totality(o: Vec<(String, Json)>)
    ensures
        ({
            let j = Json::Object(o);
            let method = field(o@, "method"@);
            let id = field(o@, "id"@);
            let result = field(o@, "result"@);
            let error = field(o@, "error"@);
            &&& (method matches Some(Json::Str(_)) && id is None) ==> (envelope_of(j) matches Ok(
                Envelope::Notification { .. },
            ))
            &&& (method matches Some(Json::Str(_)) && (id matches Some(i) && id_of(i) is Some)) ==> (
            envelope_of(j) matches Ok(Envelope::Request { .. }))
            &&& (method is None && (id matches Some(i) && id_of(i) is Some) && result is Some
                && error is None) ==> (envelope_of(j) matches Ok(Envelope::SuccessResponse { .. }))
            &&& (method is None && (id matches Some(i) && id_of(i) is Some) && error is Some
                && result is None) ==> (envelope_of(j) matches Ok(Envelope::ErrorResponse { .. }))
            &&& (method is None && (id is None || (result is None && error is None)))
                ==> envelope_of(j) is Err
        }),
        forall|x: Json| !(x is Object) ==> #[trigger] envelope_of(x) is Err,
{
}

} // verus!
