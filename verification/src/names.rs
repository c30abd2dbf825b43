use vstd::prelude::*;

verus! {

/// The display name for a database lookup result: the found name as it is,
/// or the literal "Unknown" placeholder when the id did not resolve.
pub open spec fn resolve_name_spec(found: Option<Seq<char>>) -> Seq<char> {
    match found {
        Option::Some(n) => n,
        Option::None => "Unknown"@,
    }
}

/// Relies on users::get_user_by_uid: looks the id up in the system user
/// database. What comes back depends on the machine the process runs on,
/// so nothing is promised of the result.
#[verifier::external_body]
pub(crate) fn lookup_user_name(uid: u32) -> Option<String> {
    users::get_user_by_uid(uid).map(|u| u.name().to_string_lossy().into_owned())
}

/// Relies on users::get_group_by_gid: looks the id up in the system group
/// database. What comes back depends on the machine the process runs on,
/// so nothing is promised of the result.
#[verifier::external_body]
pub(crate) fn lookup_group_name(gid: u32) -> Option<String> {
    users::get_group_by_gid(gid).map(|g| g.name().to_string_lossy().into_owned())
}

/// Turns a lookup result into the name to show: the resolved name when the
/// database had one, the "Unknown" placeholder otherwise.
pub fn resolve_name(found: Option<String>) -> (r: String)
    ensures
        r@ == resolve_name_spec(found.deep_view()),
{
    match found {
        Option::Some(n) => n,
        Option::None => String::from_str("Unknown"),
    }
}

} // verus!
