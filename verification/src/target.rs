//! What is fetched and where it goes.

use crate::error::TransferError;
use vstd::prelude::*;

verus! {

/// `hyper::Uri`, taken as it is: nothing is known of what a value holds.
#[verifier::external_type_specification]
#[verifier::external_body]
pub struct ExUri(hyper::Uri);

/// `hyper::http::uri::InvalidUri`, the refusal of a text as a URI.
#[verifier::external_type_specification]
#[verifier::external_body]
pub struct ExInvalidUri(hyper::http::uri::InvalidUri);

/// Whether `hyper::Uri`'s parser takes `text` for a URI.
pub uninterp spec fn uri_accepted(text: Seq<char>) -> bool;

/// The source of a transfer and the file that it fills.
#[derive(Debug)]
pub struct TransferTarget {
    /// The resource to fetch.
    pub uri: hyper::Uri,
    /// The path of the output file.
    pub output_path: String,
}

/// Calls `<hyper::Uri as FromStr>::from_str`, which reads `text` as a URI
/// and depends on nothing but the text. Trusted: that it returns `Ok`
/// exactly on the texts that `uri_accepted` names. Nothing is claimed of
/// the value inside.
#[verifier::external_body]
fn parse_uri(text: &str) -> (r: Result<hyper::Uri, hyper::http::uri::InvalidUri>)
    ensures
        r is Ok <==> uri_accepted(text@),
{
    text.parse::<hyper::Uri>()
}

impl TransferTarget {
    /// Makes a target of what the URI parser returned: a parsed URI is
    /// kept, a refusal becomes `RequestError`.
    pub fn from_parsed(
        parsed: Result<hyper::Uri, hyper::http::uri::InvalidUri>,
        output_path: String,
    ) -> (r: Result<TransferTarget, TransferError>)
        ensures
            match parsed {
                Ok(uri) => r == Ok::<TransferTarget, TransferError>(
                    TransferTarget { uri, output_path },
                ),
                Err(_) => r == Err::<TransferTarget, TransferError>(TransferError::RequestError),
            },
    {
        match parsed {
            Ok(uri) => Ok(TransferTarget { uri, output_path }),
            Err(_) => Err(TransferError::RequestError),
        }
    }

    /// Reads `uri` and makes a target of it and `output_path`; a text that
    /// is no URI gives `RequestError`.
    pub fn resolve(uri: &str, output_path: String) -> (r: Result<TransferTarget, TransferError>)
        ensures
            r is Ok <==> uri_accepted(uri@),
            r is Ok ==> r->Ok_0.output_path == output_path,
            r is Err ==> r->Err_0 == TransferError::RequestError,
    {
        TransferTarget::from_parsed(parse_uri(uri), output_path)
    }
}

} // verus!
