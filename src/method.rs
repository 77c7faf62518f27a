use vstd::prelude::*;

verus! {

/// The request methods the client can send.
#[derive(Clone, Copy, Debug, PartialEq, Eq, Structural)]
pub enum HttpMethod {
    GET,
    POST,
    PUT,
    PATCH,
    DELETE,
    OPTIONS,
    HEAD,
}

/// Error returned when a string names no known method.
#[derive(Clone, Copy, Debug, PartialEq, Eq, Structural)]
pub struct HttpMethodParseError;

impl HttpMethod {
    /// The canonical upper-case name of the method.
    pub open spec fn spec_name(self) -> Seq<char> {
        match self {
            HttpMethod::GET => "GET"@,
            HttpMethod::POST => "POST"@,
            HttpMethod::PUT => "PUT"@,
            HttpMethod::PATCH => "PATCH"@,
            HttpMethod::DELETE => "DELETE"@,
            HttpMethod::OPTIONS => "OPTIONS"@,
            HttpMethod::HEAD => "HEAD"@,
        }
    }

    /// The upper-case name, as written on the wire.
    pub fn name(&self) -> (r: String)
        ensures
            r@ == self.spec_name(),
    {
        match self {
            HttpMethod::GET => String::from_str("GET"),
            HttpMethod::POST => String::from_str("POST"),
            HttpMethod::PUT => String::from_str("PUT"),
            HttpMethod::PATCH => String::from_str("PATCH"),
            HttpMethod::DELETE => String::from_str("DELETE"),
            HttpMethod::OPTIONS => String::from_str("OPTIONS"),
            HttpMethod::HEAD => String::from_str("HEAD"),
        }
    }
}

/// The method a name stands for, if any; names are matched exactly.
pub open spec fn method_named(s: Seq<char>) -> Option<HttpMethod> {
    if s == "GET"@ {
        Some(HttpMethod::GET)
    } else if s == "POST"@ {
        Some(HttpMethod::POST)
    } else if s == "PUT"@ {
        Some(HttpMethod::PUT)
    } else if s == "PATCH"@ {
        Some(HttpMethod::PATCH)
    } else if s == "DELETE"@ {
        Some(HttpMethod::DELETE)
    } else if s == "OPTIONS"@ {
        Some(HttpMethod::OPTIONS)
    } else if s == "HEAD"@ {
        Some(HttpMethod::HEAD)
    } else {
        None
    }
}

impl HttpMethod {
    /// Parses an upper-case method name; any other text is an error.
    pub fn from_str(s: &str) -> (r: Result<HttpMethod, HttpMethodParseError>)
        ensures
            match r {
                Ok(m) => method_named(s@) == Some(m),
                Err(_) => method_named(s@) is None,
            },
    {
        let t = String::from_str(s);
        if t == String::from_str("GET") {
            Ok(HttpMethod::GET)
        } else if t == String::from_str("POST") {
            Ok(HttpMethod::POST)
        } else if t == String::from_str("PUT") {
            Ok(HttpMethod::PUT)
        } else if t == String::from_str("PATCH") {
            Ok(HttpMethod::PATCH)
        } else if t == String::from_str("DELETE") {
            Ok(HttpMethod::DELETE)
        } else if t == String::from_str("OPTIONS") {
            Ok(HttpMethod::OPTIONS)
        } else if t == String::from_str("HEAD") {
            Ok(HttpMethod::HEAD)
        } else {
            Err(HttpMethodParseError)
        }
    }

    /// The name of the method, as `Display` would write it.
    pub fn to_string(&self) -> (r: String)
        ensures
            r@ == self.spec_name(),
    {
        self.name()
    }
}

/// Writing a method's name and parsing it gives the method back.
pub proof fn lemma_method_round_trip(m: HttpMethod)
    ensures
        method_named(m.spec_name()) == Some(m),
{
    reveal_strlit("GET");
    reveal_strlit("POST");
    reveal_strlit("PUT");
    reveal_strlit("PATCH");
    reveal_strlit("DELETE");
    reveal_strlit("OPTIONS");
    reveal_strlit("HEAD");
    assert("GET"@[0] != "POST"@[0]);
    assert("GET"@[0] != "PUT"@[0]);
    assert("GET"@[0] != "PATCH"@[0]);
    assert("GET"@[0] != "DELETE"@[0]);
    assert("GET"@[0] != "OPTIONS"@[0]);
    assert("GET"@[0] != "HEAD"@[0]);
    assert("POST"@[1] != "PUT"@[1]);
    assert("POST"@[1] != "PATCH"@[1]);
    assert("POST"@[0] != "DELETE"@[0]);
    assert("POST"@[0] != "OPTIONS"@[0]);
    assert("POST"@[0] != "HEAD"@[0]);
    assert("PUT"@[1] != "PATCH"@[1]);
    assert("PUT"@[0] != "DELETE"@[0]);
    assert("PUT"@[0] != "OPTIONS"@[0]);
    assert("PUT"@[0] != "HEAD"@[0]);
    assert("PATCH"@[0] != "DELETE"@[0]);
    assert("PATCH"@[0] != "OPTIONS"@[0]);
    assert("PATCH"@[0] != "HEAD"@[0]);
    assert("DELETE"@[0] != "OPTIONS"@[0]);
    assert("DELETE"@[0] != "HEAD"@[0]);
    assert("OPTIONS"@[0] != "HEAD"@[0]);
}

} // verus!
