//! Deciding whether a name plausibly belongs to an application.
//!
//! A name belongs to the application when the normal form of one of the
//! identity's four names occurs in the normal form of the name. The test is a
//! plain substring test: permissive on purpose, since a false match can be
//! reviewed and a silent miss cannot. An empty field matches nothing.

use vstd::prelude::*;
use crate::app_info::{AppInfo, AppInfoView};
use crate::helpers::{contains_ignore_case, normal_form, normalize_lowercase};
use crate::text::{chars_of, contains_chars, is_substring};

verus! {

/// `name` matches one field of an identity.
pub open spec fn field_matches(name: Seq<char>, field: Seq<char>) -> bool {
    field.len() > 0 && contains_ignore_case(name, field)
}

/// `name` matches the identity: it matches the display name, the bundle
/// identifier, the executable name or the organization.
pub open spec fn matches_spec(name: Seq<char>, identity: AppInfoView) -> bool {
    ||| field_matches(name, identity.name)
    ||| field_matches(name, identity.bundle_id)
    ||| field_matches(name, identity.bundle_name)
    ||| field_matches(name, identity.organization)
}

/// The normal form of a field, kept only where the field can match.
pub open spec fn needle_of(field: Seq<char>) -> Option<Seq<char>> {
    if field.len() > 0 {
        Some(normal_form(field))
    } else {
        None
    }
}

/// The characters of an optional needle.
pub open spec fn needle_view(needle: Option<Vec<char>>) -> Option<Seq<char>> {
    match needle {
        Some(chars) => Some(chars@),
        None => None,
    }
}

/// An identity prepared for matching: the normal form of each field is
/// derived once, when the matcher is built.
pub struct IdentityMatcher {
    name: Option<Vec<char>>,
    bundle_id: Option<Vec<char>>,
    bundle_name: Option<Vec<char>>,
    organization: Option<Vec<char>>,
    identity: Ghost<AppInfoView>,
}

fn needle(field: &str) -> (r: Option<Vec<char>>)
    ensures
        needle_view(r) == needle_of(field@),
{
    if field.is_empty() {
        None
    } else {
        Some(chars_of(normalize_lowercase(field).as_str()))
    }
}

fn needle_occurs(needle: &Option<Vec<char>>, hay: &Vec<char>) -> (r: bool)
    ensures
        r == match needle_view(*needle) {
            Some(chars) => is_substring(chars, hay@),
            None => false,
        },
{
    match needle {
        Some(chars) => contains_chars(hay, chars),
        None => false,
    }
}

impl IdentityMatcher {
    #[verifier::type_invariant]
    spec fn prepared(self) -> bool {
        &&& needle_view(self.name) == needle_of(self.identity@.name)
        &&& needle_view(self.bundle_id) == needle_of(self.identity@.bundle_id)
        &&& needle_view(self.bundle_name) == needle_of(self.identity@.bundle_name)
        &&& needle_view(self.organization) == needle_of(self.identity@.organization)
    }

    /// The identity that this matcher was built from.
    pub closed spec fn identity(&self) -> AppInfoView {
        self.identity@
    }

    /// Prepares an identity for matching.
    pub fn new(identity: &AppInfo) -> (r: IdentityMatcher)
        ensures
            r.identity() == identity@,
    {
        IdentityMatcher {
            name: needle(identity.name.as_str()),
            bundle_id: needle(identity.bundle_id.as_str()),
            bundle_name: needle(identity.bundle_name.as_str()),
            organization: needle(identity.organization.as_str()),
            identity: Ghost(identity@),
        }
    }

    /// Whether `entry_name` belongs to the application.
    pub fn matches(&self, entry_name: &str) -> (r: bool)
        ensures
            r == matches_spec(entry_name@, self.identity()),
    {
        proof {
            use_type_invariant(self);
        }
        let hay = chars_of(normalize_lowercase(entry_name).as_str());
        needle_occurs(&self.name, &hay) || needle_occurs(&self.bundle_id, &hay) || needle_occurs(
            &self.bundle_name,
            &hay,
        ) || needle_occurs(&self.organization, &hay)
    }
}

/// Whether `entry_name` belongs to the application that `identity` describes.
pub fn matches(entry_name: &str, identity: &AppInfo) -> (r: bool)
    ensures
        r == matches_spec(entry_name@, identity@),
{
    IdentityMatcher::new(identity).matches(entry_name)
}

/// Matching sees a name only through its normal form: two names with the same
/// normal form, such as two spellings that differ in case or in the way an
/// accent is encoded, match the same identities.
pub proof fn lemma_matches_insensitive_to_name(a: Seq<char>, b: Seq<char>, identity: AppInfoView)
    requires
        normal_form(a) == normal_form(b),
    ensures
        matches_spec(a, identity) == matches_spec(b, identity),
{
}

/// Matching sees an established identity only through the normal forms of its
/// fields: two identities whose fields agree in normal form match the same
/// names.
pub proof fn lemma_matches_insensitive_to_identity(
    name: Seq<char>,
    a: AppInfoView,
    b: AppInfoView,
)
    requires
        a.is_established(),
        b.is_established(),
        normal_form(a.name) == normal_form(b.name),
        normal_form(a.bundle_id) == normal_form(b.bundle_id),
        normal_form(a.bundle_name) == normal_form(b.bundle_name),
        normal_form(a.organization) == normal_form(b.organization),
    ensures
        matches_spec(name, a) == matches_spec(name, b),
{
}

/// An identity whose fields are all empty matches no name.
pub proof fn lemma_empty_identity_matches_nothing(name: Seq<char>)
    ensures
        !matches_spec(name, AppInfoView::empty()),
{
}

} // verus!
