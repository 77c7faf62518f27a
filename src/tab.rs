use vstd::prelude::*;

use crate::ids::new_id;
use crate::method::HttpMethod;
use crate::request::RequestHeaders;

verus! {

/// One open editing session: the request being edited and its last response.
#[derive(Clone, Debug)]
pub struct Tab {
    pub id: String,
    pub method: HttpMethod,
    pub url: String,
    pub req_body: String,
    pub req_headers: RequestHeaders,
    pub res_status: Option<String>,
    pub res_body: String,
    pub res_headers: RequestHeaders,
}

impl Default for Tab {
    /// A blank `GET` tab with a fresh identifier.
    fn default() -> (r: Tab)
        ensures
            r.id@.len() == 36,
            r.method == HttpMethod::GET,
            r.url@ == Seq::<char>::empty(),
            r.req_body@ == Seq::<char>::empty(),
            r.req_headers.0@.len() == 0,
            r.res_status is None,
            r.res_body@ == Seq::<char>::empty(),
            r.res_headers.0@.len() == 0,
    {
        Tab {
            id: new_id(),
            url: String::new(),
            req_body: String::new(),
            req_headers: RequestHeaders(Vec::new()),
            method: HttpMethod::GET,
            res_status: None,
            res_body: String::new(),
            res_headers: RequestHeaders(Vec::new()),
        }
    }
}

/// One entry of the request log: which request got which response, when it
/// was sent and how long the answer took in milliseconds.
#[derive(Clone, Debug)]
pub struct RequestHistoryItem {
    pub id: String,
    pub request_id: String,
    pub response_id: String,
    pub sent_at: String,
    pub response_time: usize,
}

} // verus!
