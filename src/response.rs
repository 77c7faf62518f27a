use vstd::prelude::*;
use vstd::string::StrSliceExecFns;

use crate::json::{JsonModel, JsonValue, fields_view, get_field, json_parse, lookup, read_json};
use crate::codec::lemma_object_view;
use crate::rows::{all_digits, decimal_value, parse_decimal};

verus! {

/// One header of a received response.
#[derive(Clone, Debug)]
pub struct ResponseHeader {
    pub key: String,
    pub value: String,
}

/// A received response as it is recorded.
#[derive(Clone, Debug)]
pub struct DBResponse {
    pub id: String,
    pub status_code: u16,
    pub name: Option<String>,
    pub headers: Vec<ResponseHeader>,
    pub body: Option<String>,
}

/// The answer of a token request.
#[derive(Clone, Debug)]
pub struct OAuthResponse {
    pub access_token: String,
    pub expires_in: i32,
    pub token_type: String,
}

/// The integer that a JSON integer text stands for: digits, with an
/// optional leading minus.
pub open spec fn integer_of_text(s: Seq<char>) -> Option<int> {
    if s.len() > 0 && s[0] == '-' {
        let d = s.drop_first();
        if d.len() > 0 && all_digits(d) {
            Some(-decimal_value(d))
        } else {
            None
        }
    } else if s.len() > 0 && all_digits(s) {
        Some(decimal_value(s))
    } else {
        None
    }
}

/// The `i32` a number text stands for, where it is an integer in range.
pub open spec fn i32_of_text(s: Seq<char>) -> Option<i32> {
    match integer_of_text(s) {
        Some(v) => if i32::MIN <= v <= i32::MAX {
            Some(v as i32)
        } else {
            None
        },
        None => None,
    }
}

/// Reads an integer text that fits in an `i32`.
pub fn parse_i32(s: &str) -> (r: Option<i32>)
    ensures
        r == i32_of_text(s@),
{
    let n = s.unicode_len();
    if n == 0 {
        return None;
    }
    let negative = s.get_char(0) == '-';
    let digits = if negative {
        s.substring_char(1, n)
    } else {
        s
    };
    proof {
        if negative {
            assert(digits@ =~= s@.drop_first());
        }
    }
    let v = match parse_decimal(digits) {
        Some(v) => v,
        None => {
            assert(usize::MAX >= 4294967295usize);
            return None;
        },
    };
    if negative {
        if v <= 2147483648usize {
            let r = if v == 2147483648usize {
                i32::MIN
            } else {
                -(v as i32)
            };
            Some(r)
        } else {
            None
        }
    } else {
        if v <= 2147483647usize {
            Some(v as i32)
        } else {
            None
        }
    }
}

/// Reads the answer of a token request.
pub open spec fn dec_oauth(j: JsonModel) -> Option<(Seq<char>, i32, Seq<char>)> {
    match j {
        JsonModel::Object(f) => match (
            lookup(f, "access_token"@),
            lookup(f, "expires_in"@),
            lookup(f, "token_type"@),
        ) {
            (
                Some(JsonModel::Str(token)),
                Some(JsonModel::Number(n)),
                Some(JsonModel::Str(kind)),
            ) => match i32_of_text(n) {
                Some(e) => Some((token, e, kind)),
                None => None,
            },
            _ => None,
        },
        _ => None,
    }
}

impl OAuthResponse {
    /// Reads a token answer: `access_token` and `token_type` are strings,
    /// `expires_in` an integer that fits in an `i32`; other members are ignored.
    pub fn from_json(j: &JsonValue) -> (r: Option<OAuthResponse>)
        ensures
            match r {
                Some(x) => dec_oauth(j@) == Some((x.access_token@, x.expires_in, x.token_type@)),
                None => dec_oauth(j@) is None,
            },
    {
        let f = match j {
            JsonValue::Object(f) => f,
            _ => {
                return None;
            },
        };
        proof {
            lemma_object_view(*f);
        }
        let access_token = match get_field(f, "access_token") {
            Some(JsonValue::Str(t)) => t.clone(),
            _ => {
                return None;
            },
        };
        let expires_in = match get_field(f, "expires_in") {
            Some(JsonValue::Number(n)) => match parse_i32(n.as_str()) {
                Some(e) => e,
                None => {
                    return None;
                },
            },
            _ => {
                return None;
            },
        };
        let token_type = match get_field(f, "token_type") {
            Some(JsonValue::Str(t)) => t.clone(),
            _ => {
                return None;
            },
        };
        Some(OAuthResponse { access_token, expires_in, token_type })
    }
}

/// The payload of a response, by its declared content type.
#[derive(Debug)]
pub enum ResponseData {
    JSON(JsonValue),
    TEXT(String),
    XML(String),
    UNKNOWN(String),
}

/// A response as it is shown: the status line and the classified payload.
#[derive(Debug)]
pub struct Response {
    pub status: String,
    pub data: ResponseData,
}

pub open spec fn starts_with(s: Seq<char>, p: Seq<char>) -> bool {
    p.len() <= s.len() && s.subrange(0, p.len() as int) == p
}

/// How a payload is read, by a literal prefix of its content type.
pub ghost enum PayloadKind {
    Json,
    Text,
    Xml,
    Unknown,
}

pub open spec fn payload_kind(content_type: Seq<char>) -> PayloadKind {
    if starts_with(content_type, "application/json"@) {
        PayloadKind::Json
    } else if starts_with(content_type, "text/plain"@) || starts_with(content_type, "text/html"@) {
        PayloadKind::Text
    } else if starts_with(content_type, "application/xml"@) || starts_with(
        content_type,
        "text/xml"@,
    ) {
        PayloadKind::Xml
    } else {
        PayloadKind::Unknown
    }
}

/// The payload that a body of a given content type is read as: JSON where it
/// parses, the raw text for text and XML, and an empty `UNKNOWN` otherwise.
pub open spec fn payload_ok(content_type: Seq<char>, body: Seq<char>, data: ResponseData) -> bool {
    match payload_kind(content_type) {
        PayloadKind::Json => match json_parse(body) {
            Some(v) => data is JSON && data->JSON_0@ == v,
            None => data is UNKNOWN && data->UNKNOWN_0@ == Seq::<char>::empty(),
        },
        PayloadKind::Text => data is TEXT && data->TEXT_0@ == body,
        PayloadKind::Xml => data is XML && data->XML_0@ == body,
        PayloadKind::Unknown => data is UNKNOWN && data->UNKNOWN_0@ == Seq::<char>::empty(),
    }
}

/// Whether `s` begins with `p`.
pub fn has_prefix(s: &str, p: &str) -> (r: bool)
    ensures
        r == starts_with(s@, p@),
{
    let n = s.unicode_len();
    let m = p.unicode_len();
    if m > n {
        return false;
    }
    let head = String::from_str(s.substring_char(0, m));
    head == String::from_str(p)
}

/// Classifies a response by its content type. It never fails: a type it does
/// not know, or a JSON body that does not parse, gives an empty `UNKNOWN`.
pub fn build_response(res_type: &str, res_status: String, res_text: String) -> (r: Response)
    ensures
        r.status@ == res_status@,
        payload_ok(res_type@, res_text@, r.data),
{
    let data = if has_prefix(res_type, "application/json") {
        match read_json(res_text.as_str()) {
            Some(v) => ResponseData::JSON(v),
            None => ResponseData::UNKNOWN(String::new()),
        }
    } else if has_prefix(res_type, "text/plain") || has_prefix(res_type, "text/html") {
        ResponseData::TEXT(res_text)
    } else if has_prefix(res_type, "application/xml") || has_prefix(res_type, "text/xml") {
        ResponseData::XML(res_text)
    } else {
        ResponseData::UNKNOWN(String::new())
    };
    Response { status: res_status, data }
}

} // verus!
