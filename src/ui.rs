use vstd::prelude::*;

verus! {

/// Which list the side panel shows.
#[derive(Clone, Copy, Debug, PartialEq, Eq, Structural)]
pub enum ActiveWindow {
    COLLECTIONS,
    ENVIRONMENT,
    HISTORY,
}

/// What an import reads.
#[derive(Clone, Copy, Debug, PartialEq, Eq, Structural)]
pub enum ImportMode {
    COLLECTION,
    ENVIRONMENT,
}

/// What the "new" dialog creates.
#[derive(Clone, Copy, Debug, PartialEq, Eq, Structural)]
pub enum NewWindowMode {
    COLLECTION,
    ENVIRONMENT,
    FOLDER,
}

/// Which part of a request the editor shows.
#[derive(Clone, Copy, Debug, PartialEq, Eq, Structural)]
pub enum RequestWindowMode {
    AUTHORIZATION,
    PARAMS,
    HEADERS,
    BODY,
    ENVIRONMENT,
}

/// The address of the tab that the editor should show.
#[derive(Clone, Debug)]
pub struct TabPayload {
    pub url: String,
}

/// How a request is authorised.
#[derive(Clone, Copy, Debug, PartialEq, Eq, Structural)]
pub enum AuthMode {
    APIKEY,
    BEARER,
    OAUTH2,
    NONE,
}

impl AuthMode {
    pub open spec fn spec_name(self) -> Seq<char> {
        match self {
            AuthMode::APIKEY => "APIKEY"@,
            AuthMode::BEARER => "BEARER"@,
            AuthMode::OAUTH2 => "OAUTH2"@,
            AuthMode::NONE => "NONE"@,
        }
    }

    /// The name of the mode, as it is shown.
    pub fn to_string(&self) -> (r: String)
        ensures
            r@ == self.spec_name(),
    {
        match self {
            AuthMode::APIKEY => String::from_str("APIKEY"),
            AuthMode::BEARER => String::from_str("BEARER"),
            AuthMode::OAUTH2 => String::from_str("OAUTH2"),
            AuthMode::NONE => String::from_str("NONE"),
        }
    }
}

} // verus!
