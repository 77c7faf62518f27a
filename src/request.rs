use vstd::prelude::*;
use vstd::string::StringExecFns;

use crate::environment::EnvironmentFile;
use crate::headers::pairs_view;
use crate::ids::{base64_encode, base64_of};
use crate::json::JsonValue;
use crate::method::HttpMethod;

verus! {

/// One header of a sent request.
#[derive(Clone, Debug)]
pub struct RequestHeader {
    pub key: String,
    pub value: String,
}

/// The headers of a request, in order.
#[derive(Clone, Debug)]
pub struct RequestHeaders(pub Vec<RequestHeader>);

pub open spec fn header_list_view(v: Seq<RequestHeader>) -> Seq<(Seq<char>, Seq<char>)> {
    v.map_values(|h: RequestHeader| (h.key@, h.value@))
}

impl RequestHeaders {
    /// Builds the list from key and value pairs, in order.
    pub fn from_iter(pairs: Vec<(String, String)>) -> (r: RequestHeaders)
        ensures
            header_list_view(r.0@) == pairs_view(pairs@),
    {
        let ghost s = pairs_view(pairs@);
        let mut rest = pairs;
        let mut out: Vec<RequestHeader> = Vec::new();
        let ghost mut k: int = 0;
        assert(pairs_view(rest@) =~= s.skip(0));
        while rest.len() > 0
            invariant
                0 <= k <= s.len(),
                pairs_view(rest@) == s.skip(k),
                header_list_view(out@) == s.take(k),
            decreases rest.len(),
        {
            let ghost before_rest = rest@;
            let (key, value) = rest.remove(0);
            assert(pairs_view(before_rest).len() == before_rest.len());
            assert(s.skip(k)[0] == s[k]);
            assert(pairs_view(before_rest)[0] == (key@, value@));
            let ghost before = out@;
            out.push(RequestHeader { key, value });
            assert(header_list_view(out@) =~= header_list_view(before).push(s[k]));
            assert(s.take(k + 1) =~= s.take(k).push(s[k]));
            assert forall|j: int| 0 <= j < rest@.len() implies pairs_view(rest@)[j] == s.skip(k + 1)[j] by {
                assert(rest@[j] == before_rest[j + 1]);
                assert(pairs_view(before_rest)[j + 1] == s.skip(k)[j + 1]);
            }
            assert(pairs_view(rest@) =~= s.skip(k + 1));
            proof {
                k = k + 1;
            }
        }
        assert(s.take(k) =~= s);
        RequestHeaders(out)
    }

    /// A cursor over the headers, at the first one.
    pub fn into_iter(&self) -> (r: RequestHeadersIterator<'_>)
        ensures
            r.headers == &self.0,
            r.index == 0,
    {
        RequestHeadersIterator { headers: &self.0, index: 0 }
    }
}

/// A cursor over a header list.
#[derive(Clone, Debug)]
pub struct RequestHeadersIterator<'a> {
    pub headers: &'a Vec<RequestHeader>,
    pub index: usize,
}

impl<'a> RequestHeadersIterator<'a> {
    /// The header under the cursor, moving past it; `None` once all are read.
    pub fn next(&mut self) -> (r: Option<&'a RequestHeader>)
        ensures
            final(self).headers == old(self).headers,
            old(self).index < old(self).headers.len() ==> r == Some(
                &old(self).headers@[old(self).index as int],
            ) && final(self).index == old(self).index + 1,
            old(self).index >= old(self).headers.len() ==> r is None && final(self).index
                == old(self).index,
    {
        if self.index < self.headers.len() {
            let result = &self.headers[self.index];
            self.index = self.index + 1;
            Some(result)
        } else {
            None
        }
    }
}

/// The body of a request to send: JSON, or form-encoded text.
#[derive(Debug)]
pub enum RequestBody {
    JSON(JsonValue),
    FORM(String),
}

/// A request to send over HTTP, from an editing tab.
#[derive(Debug)]
pub struct HttpRequest {
    pub tab_id: String,
    pub id: String,
    pub name: Option<String>,
    pub method: HttpMethod,
    pub url: String,
    pub headers: Option<Vec<(String, String)>>,
    pub body: Option<RequestBody>,
    pub environment: EnvironmentFile,
}

/// The form fields of a token request.
#[derive(Clone, Debug)]
pub struct OAuthRequestBody {
    pub grant_type: String,
    pub scope: String,
    pub audience: String,
}

/// A request for an OAuth2 access token.
#[derive(Clone, Debug)]
pub struct OAuth2Request {
    pub access_token_url: String,
    pub refresh_url: String,
    pub client_id: String,
    pub client_secret: String,
    pub request: OAuthRequestBody,
}

/// A request of either kind.
#[derive(Debug)]
pub enum PostieRequest {
    HTTP(HttpRequest),
    OAUTH(OAuth2Request),
}

/// A sent request as it is recorded.
#[derive(Clone, Debug)]
pub struct DBRequest {
    pub id: String,
    pub method: String,
    pub url: String,
    pub name: Option<String>,
    pub headers: Vec<RequestHeader>,
    pub body: Option<String>,
}

/// The value of the `Authorization` header of a token request: `Basic`
/// and the base64 of `client_id:client_secret`.
pub open spec fn basic_auth(client_id: Seq<char>, client_secret: Seq<char>) -> Seq<char> {
    "Basic "@ + base64_of(client_id + ":"@ + client_secret)
}

impl OAuth2Request {
    /// The `Authorization` header value for this token request.
    pub fn basic_auth_value(&self) -> (r: String)
        ensures
            r@ == basic_auth(self.client_id@, self.client_secret@),
    {
        let creds = self.client_id.clone().concat(":").concat(self.client_secret.as_str());
        let encoded = base64_encode(creds.as_str());
        String::from_str("Basic ").concat(encoded.as_str())
    }

    /// The form fields sent to the token address.
    pub fn form_fields(&self) -> (r: Vec<(String, String)>)
        ensures
            pairs_view(r@) == seq![
                ("grant_type"@, self.request.grant_type@),
                ("scope"@, self.request.scope@),
                ("audience"@, self.request.audience@),
            ],
    {
        let mut r: Vec<(String, String)> = Vec::new();
        r.push((String::from_str("grant_type"), self.request.grant_type.clone()));
        r.push((String::from_str("scope"), self.request.scope.clone()));
        r.push((String::from_str("audience"), self.request.audience.clone()));
        assert(pairs_view(r@) =~= seq![
            ("grant_type"@, self.request.grant_type@),
            ("scope"@, self.request.scope@),
            ("audience"@, self.request.audience@),
        ]);
        r
    }
}

} // verus!
