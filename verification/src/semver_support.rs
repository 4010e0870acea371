//! Trusted boundary to the semver crate: the declaration of its constraint
//! type and the one call this crate makes into it.
use vstd::prelude::*;

verus! {

#[verifier::external_type_specification]
#[verifier::external_body]
pub struct ExSemverReq(semver::VersionReq);

/// The outcome of `semver::VersionReq::parse` on a range expression: `None`
/// where semver's grammar accepts the text, `Some` of the parser's diagnostic
/// message where it does not. The outcome depends on the text alone.
pub uninterp spec fn semver_req_diag(s: Seq<char>) -> Option<Seq<char>>;

/// A range expression is valid exactly where semver's parser accepts it.
pub open spec fn semver_req_valid(s: Seq<char>) -> bool {
    semver_req_diag(s) is None
}

/// Relies on semver::VersionReq::parse: a pure parser of a range expression.
/// Success and the diagnostic on failure are functions of the text alone.
#[verifier::external_body]
pub(crate) fn semver_parse(text: &str) -> (r: Result<semver::VersionReq, String>)
    ensures
        r is Ok <==> semver_req_valid(text@),
        r matches Err(d) ==> semver_req_diag(text@) == Some(d@),
{
    match semver::VersionReq::parse(text) {
        Ok(req) => Ok(req),
        Err(e) => Err(format!("{}", e)),
    }
}

} // verus!
