//! Semantic-version range constraints.
//!
//! A pack file may select its version through a range expression such as
//! `>=1.2, <2`. The expression is validated eagerly at document-load time by
//! semver's parser; after a successful load the model holds the validated
//! constraint together with its source text, and the text is the value's
//! mathematical view. The constraint is otherwise an opaque predicate: this
//! crate never evaluates it against a concrete version.
use vstd::prelude::*;
use vstd::string::*;
use crate::AthenaError;
use crate::ErrorView;
use crate::semver_support::semver_parse;
use crate::semver_support::semver_req_diag;
use crate::semver_support::semver_req_valid;

verus! {

/// A validated semantic-version range constraint.
///
/// The view of a `VersionConstraint` is the text it was parsed from; two constraints
/// are equal exactly when their source texts are.
#[derive(Debug)]
pub struct VersionConstraint {
    text: String,
    req: semver::VersionReq,
}

impl View for VersionConstraint {
    type V = Seq<char>;

    closed spec fn view(&self) -> Seq<char> {
        self.text@
    }
}

impl VersionConstraint {
    /// Well-formedness: the held text is a range expression that semver's
    /// parser accepts; every constructed `VersionConstraint` satisfies it.
    pub open spec fn wf(&self) -> bool {
        semver_req_valid(self@)
    }

    /// The validated source text of the range expression.
    pub fn as_text(&self) -> (r: &str)
        ensures
            r@ == self@,
    {
        self.text.as_str()
    }

    /// Parse a semantic-version range expression, eagerly and purely: the
    /// result is `Ok` exactly where semver's grammar accepts the text, and
    /// otherwise a `ConstraintSyntax` error naming the offending text and the
    /// parser's diagnostic. The error's `line` is 0: no document position
    /// applies here.
    pub fn parse(text: &str) -> (r: Result<VersionConstraint, AthenaError>)
        ensures
            r is Ok <==> semver_req_valid(text@),
            r matches Ok(v) ==> v@ == text@ && v.wf(),
            r matches Err(e) ==> e@ == (ErrorView::ConstraintSyntax {
                line: 0,
                text: text@,
                detail: semver_req_diag(text@)->Some_0,
            }) && semver_req_diag(text@) is Some,
    {
        parse_req_at(0, text)
    }
}

/// Parse a range expression found at 1-based document line `line`; as
/// [`VersionConstraint::parse`], with the error carrying that position.
pub(crate) fn parse_req_at(line: usize, text: &str) -> (r: Result<VersionConstraint, AthenaError>)
    ensures
        r is Ok <==> semver_req_valid(text@),
        r matches Ok(v) ==> v@ == text@ && v.wf(),
        r matches Err(e) ==> e@ == (ErrorView::ConstraintSyntax {
            line: line as int,
            text: text@,
            detail: semver_req_diag(text@)->Some_0,
        }) && semver_req_diag(text@) is Some,
{
    match semver_parse(text) {
        Ok(req) => Ok(VersionConstraint { text: String::from_str(text), req }),
        Err(detail) => Err(
            AthenaError::ConstraintSyntax { line, text: String::from_str(text), detail },
        ),
    }
}

impl PartialEq for VersionConstraint {
    /// Constraints compare by their validated source text.
    fn eq(&self, other: &Self) -> (r: bool) {
        crate::text::str_eq_x(self.text.as_str(), other.text.as_str())
    }
}

impl vstd::std_specs::cmp::PartialEqSpecImpl for VersionConstraint {
    open spec fn obeys_eq_spec() -> bool {
        true
    }

    open spec fn eq_spec(&self, other: &Self) -> bool {
        self@ == other@
    }
}

} // verus!
