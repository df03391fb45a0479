//! URI parsing for the sinks, behind a trusted declaration of the http
//! crate: one call turns an address string into its plain parts.

use vstd::prelude::*;

verus! {

/// The parts of a parsed URI that the sinks read.
pub struct UriParts {
    pub scheme: Option<String>,
    pub host: Option<String>,
    pub port: Option<u16>,
    pub path_and_query: Option<String>,
}

/// The mathematical shape of the parts.
pub struct UriPartsView {
    pub scheme: Option<Seq<char>>,
    pub host: Option<Seq<char>>,
    pub port: Option<u16>,
    pub path_and_query: Option<Seq<char>>,
}

impl View for UriParts {
    type V = UriPartsView;

    open spec fn view(&self) -> UriPartsView {
        UriPartsView {
            scheme: match &self.scheme {
                Some(s) => Some(s@),
                None => None,
            },
            host: match &self.host {
                Some(s) => Some(s@),
                None => None,
            },
            port: self.port,
            path_and_query: match &self.path_and_query {
                Some(s) => Some(s@),
                None => None,
            },
        }
    }
}

/// The parts `http::Uri` reads out of an address string, or nothing
/// where the string is not a URI; a function of the string alone.
pub uninterp spec fn uri_parts_of(s: Seq<char>) -> Option<UriPartsView>;

/// Relies on `str::parse::<http::Uri>` and the accessors `scheme_str`,
/// `host`, `port_u16` and `path_and_query`: whether the address parses,
/// and the parts it parses into.
#[verifier::external_body]
pub fn parse_uri_parts(s: &str) -> (r: Option<UriParts>)
    ensures
        match r {
            Some(p) => uri_parts_of(s@) == Some(p@),
            None => uri_parts_of(s@) is None,
        },
{
    match s.parse::<http::Uri>() {
        Ok(u) => Some(
            UriParts {
                scheme: u.scheme_str().map(|x| x.to_string()),
                host: u.host().map(|x| x.to_string()),
                port: u.port_u16(),
                path_and_query: u.path_and_query().map(|p| p.as_str().to_string()),
            },
        ),
        Err(_) => None,
    }
}

} // verus!
