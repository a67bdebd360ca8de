//! The registry protocol: what is asked of the registry, and what an answer
//! amounts to.

use crate::npm::NpmResolvedPackage;
use vstd::prelude::*;

verus! {

/// Why no metadata came back for a package.
#[derive(Debug, PartialEq, Eq, Clone, Copy, Structural)]
pub enum Error {
    /// The registry could not be reached, or its answer could not be read.
    HttpError,
    /// The answer is not the metadata of a package.
    ParseError,
}

impl Error {
    pub fn to_string(&self) -> (res: String)
        ensures
            *self == Error::HttpError ==> res@ == "HttpError"@,
            *self == Error::ParseError ==> res@ == "ParseError"@,
    {
        match self {
            Error::HttpError => String::from_str("HttpError"),
            Error::ParseError => String::from_str("ParseError"),
        }
    }
}

/// The registry's host, with the slash that package names follow.
pub const NPM_REGISTRY_URL: &'static str = "registry.npmjs.org/";

/// The media types asked for: the abbreviated metadata meant for installers
/// first, plain JSON second.
pub const INSTALL_FETCH_HEADER: &'static str =
    "application/vnd.npm.install-v1+json; q=1.0, application/json; q=0.8, */*";

/// The address of a package's metadata: `https://<registry>/<name>`.
pub open spec fn package_url(name: Seq<char>) -> Seq<char> {
    "https://"@ + NPM_REGISTRY_URL@ + name
}

/// A request for the metadata of one package: a GET of `url` with `accept`
/// as its `Accept` header.
#[derive(Debug, PartialEq, Eq)]
pub struct MetadataRequest {
    pub url: String,
    pub accept: String,
}

/// The request for the metadata of the package `name`.
pub fn metadata_request(name: &String) -> (res: MetadataRequest)
    ensures
        res.url@ == package_url(name@),
        res.accept@ == INSTALL_FETCH_HEADER@,
{
    let mut url = String::from_str("https://");
    url.append(NPM_REGISTRY_URL);
    url.append(name.as_str());
    MetadataRequest { url, accept: String::from_str(INSTALL_FETCH_HEADER) }
}

/// How a request for metadata ended.
#[derive(Debug)]
pub enum MetadataResponse {
    /// The request could not be sent, or no answer came.
    Unreachable,
    /// An answer came, and its body could not be read as text.
    Unreadable,
    /// The body is not the metadata of a package.
    Malformed,
    /// The body, read as the metadata of a package.
    Metadata(NpmResolvedPackage),
}

/// What a request for metadata brought: the metadata, or the kind of
/// failure. Either failure ends the resolution of the package in this round.
pub fn get_npm_package(response: MetadataResponse) -> (res: Result<NpmResolvedPackage, Error>)
    ensures
        match response {
            MetadataResponse::Unreachable => res matches Err(Error::HttpError),
            MetadataResponse::Unreadable => res matches Err(Error::HttpError),
            MetadataResponse::Malformed => res matches Err(Error::ParseError),
            MetadataResponse::Metadata(package) => res matches Ok(found) && found == package,
        },
{
    match response {
        MetadataResponse::Unreachable => Err(Error::HttpError),
        MetadataResponse::Unreadable => Err(Error::HttpError),
        MetadataResponse::Malformed => Err(Error::ParseError),
        MetadataResponse::Metadata(package) => Ok(package),
    }
}

} // verus!
