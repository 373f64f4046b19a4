//! The identity of the application under inspection.

use vstd::prelude::*;
use vstd::string::StrSliceExecFns;
use crate::paths::{file_stem, file_stem_of};
use crate::text::chars_of;

verus! {

/// A property list as `plist` holds it once decoded.
#[verifier::external_type_specification]
#[verifier::external_body]
pub struct ExPlistValue(plist::Value);

/// The error that `plist` reports for bytes it cannot decode.
#[verifier::external_type_specification]
#[verifier::external_body]
pub struct ExPlistError(plist::Error);

/// The string entries of a property list whose root is a dictionary, by key.
/// A property list with another root has none.
pub uninterp spec fn plist_strings(value: plist::Value) -> Map<Seq<char>, Seq<char>>;

/// The string entries that the bytes of a property list decode to, or `None`
/// where `plist` rejects the bytes.
pub uninterp spec fn plist_decoded(bytes: Seq<u8>) -> Option<Map<Seq<char>, Seq<char>>>;

/// Calls `plist::Value::from_reader` on the bytes, which decodes a property
/// list of any encoding. Decoding depends on the bytes alone: the contract
/// names its outcome `plist_decoded` and ties a decoded value to it.
#[verifier::external_body]
fn decode_plist(bytes: &[u8]) -> (r: Result<plist::Value, plist::Error>)
    ensures
        match r {
            Ok(value) => plist_decoded(bytes@) == Some(plist_strings(value)),
            Err(_) => plist_decoded(bytes@) is None,
        },
{
    plist::Value::from_reader(std::io::Cursor::new(bytes))
}

/// Looks `key` up in the root dictionary with `plist::Value::as_dictionary`
/// and `plist::Dictionary::get`, and reads the entry with
/// `plist::Value::as_string`. The result is the string entry under `key`,
/// when the root is a dictionary that holds one.
#[verifier::external_body]
fn plist_string(value: &plist::Value, key: &str) -> (r: Option<String>)
    ensures
        match r {
            Some(s) => plist_strings(*value).contains_key(key@) && plist_strings(*value)[key@]
                == s@,
            None => !plist_strings(*value).contains_key(key@),
        },
{
    value.as_dictionary().and_then(|d| d.get(key)).and_then(|v| v.as_string()).map(
        |s| s.to_owned(),
    )
}

/// Why an application's identity could not be established.
#[derive(Clone, Copy, Debug, PartialEq, Eq, Structural)]
pub enum IdentityError {
    /// The metadata file is not a property list.
    MetadataUnreadable,
    /// The metadata names no bundle identifier.
    MissingBundleIdentifier,
    /// The metadata names no executable.
    MissingExecutable,
    /// The application's path ends in no name.
    MissingName,
    /// One of the identity's fields would be empty.
    EmptyField,
}

/// What is known of an application: where it is installed and the names by
/// which its files are recognised.
#[derive(Debug)]
pub struct AppInfo {
    pub path: String,
    pub name: String,
    pub bundle_id: String,
    pub bundle_name: String,
    pub organization: String,
}

/// The mathematical content of an [`AppInfo`].
pub struct AppInfoView {
    pub path: Seq<char>,
    pub name: Seq<char>,
    pub bundle_id: Seq<char>,
    pub bundle_name: Seq<char>,
    pub organization: Seq<char>,
}

impl View for AppInfo {
    type V = AppInfoView;

    open spec fn view(&self) -> AppInfoView {
        AppInfoView {
            path: self.path@,
            name: self.name@,
            bundle_id: self.bundle_id@,
            bundle_name: self.bundle_name@,
            organization: self.organization@,
        }
    }
}

impl AppInfoView {
    /// The identity that names nothing.
    pub open spec fn empty() -> AppInfoView {
        AppInfoView {
            path: Seq::empty(),
            name: Seq::empty(),
            bundle_id: Seq::empty(),
            bundle_name: Seq::empty(),
            organization: Seq::empty(),
        }
    }

    /// Every field is filled in, as after a successful construction.
    pub open spec fn is_established(self) -> bool {
        &&& self.path.len() > 0
        &&& self.name.len() > 0
        &&& self.bundle_id.len() > 0
        &&& self.bundle_name.len() > 0
        &&& self.organization.len() > 0
    }
}

/// Index of the first `.` of `s` at or after `from`, or the length of `s`.
pub open spec fn segment_end(s: Seq<char>, from: int) -> int
    decreases s.len() - from,
{
    if from < 0 || from >= s.len() {
        s.len() as int
    } else if s[from] == '.' {
        from
    } else {
        segment_end(s, from + 1)
    }
}

/// The organization that a bundle identifier names: its second segment when
/// split at `.`, empty when it has a single segment.
pub open spec fn organization_of(bundle_id: Seq<char>) -> Seq<char> {
    let first = segment_end(bundle_id, 0);
    if first >= bundle_id.len() {
        Seq::empty()
    } else {
        bundle_id.subrange(first + 1, segment_end(bundle_id, first + 1))
    }
}

/// The identity that an installation path and the two metadata entries
/// establish, or the reason why they establish none.
pub open spec fn identity_from(
    path: Seq<char>,
    bundle_id: Option<Seq<char>>,
    executable: Option<Seq<char>>,
) -> Result<AppInfoView, IdentityError> {
    if bundle_id is None {
        Err(IdentityError::MissingBundleIdentifier)
    } else if file_stem_of(path) is None {
        Err(IdentityError::MissingName)
    } else if executable is None {
        Err(IdentityError::MissingExecutable)
    } else {
        let info = AppInfoView {
            path: path,
            name: file_stem_of(path)->0,
            bundle_id: bundle_id->0,
            bundle_name: executable->0,
            organization: organization_of(bundle_id->0),
        };
        if info.is_established() {
            Ok(info)
        } else {
            Err(IdentityError::EmptyField)
        }
    }
}

/// The string entry of a decoded property list under `key`.
pub open spec fn entry_of(entries: Map<Seq<char>, Seq<char>>, key: Seq<char>) -> Option<
    Seq<char>,
> {
    if entries.contains_key(key) {
        Some(entries[key])
    } else {
        None
    }
}

/// The identity that an installation path and the bytes of the metadata file
/// establish.
pub open spec fn identity_from_plist(path: Seq<char>, bytes: Seq<u8>) -> Result<
    AppInfoView,
    IdentityError,
> {
    match plist_decoded(bytes) {
        None => Err(IdentityError::MetadataUnreadable),
        Some(entries) => identity_from(
            path,
            entry_of(entries, "CFBundleIdentifier"@),
            entry_of(entries, "CFBundleExecutable"@),
        ),
    }
}

/// Index of the first `.` at or after `from`, or the length.
fn find_segment_end(s: &Vec<char>, from: usize) -> (r: usize)
    requires
        from <= s.len(),
    ensures
        r == segment_end(s@, from as int),
        from <= r <= s.len(),
{
    let mut i: usize = from;
    while i < s.len() && s[i] != '.'
        invariant
            from <= i <= s.len(),
            segment_end(s@, i as int) == segment_end(s@, from as int),
        decreases s.len() - i,
    {
        i += 1;
    }
    i
}

/// The organization named by a bundle identifier.
pub fn organization(bundle_id: &str) -> (r: String)
    ensures
        r@ == organization_of(bundle_id@),
{
    let chars = chars_of(bundle_id);
    let first = find_segment_end(&chars, 0);
    if first >= chars.len() {
        String::new()
    } else {
        let second = find_segment_end(&chars, first + 1);
        bundle_id.substring_char(first + 1, second).to_owned()
    }
}

impl AppInfo {
    /// Every field is filled in.
    pub open spec fn is_established(&self) -> bool {
        self@.is_established()
    }

    /// Builds the identity from the installation path and the two entries of
    /// the application's metadata: the bundle identifier and the executable
    /// name. The display name is the stem of the path's final component, the
    /// organization the second segment of the bundle identifier.
    pub fn from_metadata(
        app_path: &str,
        bundle_id: Option<String>,
        executable: Option<String>,
    ) -> (r: Result<AppInfo, IdentityError>)
        ensures
            match r {
                Ok(info) => identity_from(
                    app_path@,
                    crate::app_info::text_of(bundle_id),
                    crate::app_info::text_of(executable),
                ) == Ok::<AppInfoView, IdentityError>(info@),
                Err(e) => identity_from(
                    app_path@,
                    crate::app_info::text_of(bundle_id),
                    crate::app_info::text_of(executable),
                ) == Err::<AppInfoView, IdentityError>(e),
            },
            r is Ok ==> r->Ok_0.is_established(),
    {
        let bundle_id = match bundle_id {
            Some(id) => id,
            None => {
                return Err(IdentityError::MissingBundleIdentifier);
            },
        };
        let name = match file_stem(app_path) {
            Some(name) => name,
            None => {
                return Err(IdentityError::MissingName);
            },
        };
        let bundle_name = match executable {
            Some(executable) => executable,
            None => {
                return Err(IdentityError::MissingExecutable);
            },
        };
        let organization = organization(bundle_id.as_str());
        if app_path.is_empty() || name.as_str().is_empty() || bundle_id.as_str().is_empty()
            || bundle_name.as_str().is_empty() || organization.as_str().is_empty() {
            return Err(IdentityError::EmptyField);
        }
        Ok(AppInfo { path: app_path.to_owned(), name, bundle_id, bundle_name, organization })
    }

    /// Builds the identity from the installation path and the bytes of the
    /// application's metadata file, a property list.
    pub fn from_plist(app_path: &str, plist: &[u8]) -> (r: Result<AppInfo, IdentityError>)
        ensures
            match r {
                Ok(info) => identity_from_plist(app_path@, plist@) == Ok::<
                    AppInfoView,
                    IdentityError,
                >(info@),
                Err(e) => identity_from_plist(app_path@, plist@) == Err::<
                    AppInfoView,
                    IdentityError,
                >(e),
            },
            r is Ok ==> r->Ok_0.is_established(),
    {
        match decode_plist(plist) {
            Err(_) => Err(IdentityError::MetadataUnreadable),
            Ok(value) => {
                let bundle_id = plist_string(&value, "CFBundleIdentifier");
                let executable = plist_string(&value, "CFBundleExecutable");
                AppInfo::from_metadata(app_path, bundle_id, executable)
            },
        }
    }

    /// A copy of this identity.
    pub fn duplicate(&self) -> (r: AppInfo)
        ensures
            r@ == self@,
    {
        AppInfo {
            path: self.path.clone(),
            name: self.name.clone(),
            bundle_id: self.bundle_id.clone(),
            bundle_name: self.bundle_name.clone(),
            organization: self.organization.clone(),
        }
    }
}

/// The text of an optional string.
pub open spec fn text_of(s: Option<String>) -> Option<Seq<char>> {
    match s {
        Some(s) => Some(s@),
        None => None,
    }
}

impl Clone for AppInfo {
    fn clone(&self) -> (r: AppInfo)
        ensures
            r@ == self@,
    {
        self.duplicate()
    }
}

impl Default for AppInfo {
    /// The identity that names nothing, as before a session starts.
    fn default() -> (r: AppInfo)
        ensures
            r@ == AppInfoView::empty(),
    {
        AppInfo {
            path: String::new(),
            name: String::new(),
            bundle_id: String::new(),
            bundle_name: String::new(),
            organization: String::new(),
        }
    }
}

} // verus!
