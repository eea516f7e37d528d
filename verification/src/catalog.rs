//! Catalog decisions: categories are shared reference data keyed by `(name, profit)`.
use vstd::prelude::*;

use crate::dto::CreateCategoryRequest;
use crate::error::{bad_request, ClientError, ErrorKind};
use crate::text::{is_blank, same_text, trim, trimmed};

verus! {

/// Trimmed and non-empty.
///
/// A blank name reaches the database as a valid-looking row that nothing can refer to, so
/// it is refused here rather than round-tripped.
pub fn validated_name(name: &str) -> (r: Result<String, ClientError>)
    ensures
        is_blank(name@) ==> (r matches Err(e) && e@ == (
            ErrorKind::BadRequest,
            "Category name is required"@,
        )),
        !is_blank(name@) ==> (r matches Ok(n) && n@ == trim(name@)),
{
    let t = trimmed(name);
    if t.as_str().unicode_len() == 0 {
        return Err(bad_request("Category name is required"));
    }
    Ok(t)
}

/// What creating the category `name` sends: the trimmed name, or the refusal of a blank one.
pub fn plan_create(name: &str, profit: bool) -> (r: Result<CreateCategoryRequest, ClientError>)
    ensures
        is_blank(name@) ==> (r matches Err(e) && e@ == (
            ErrorKind::BadRequest,
            "Category name is required"@,
        )),
        !is_blank(name@) ==> (r matches Ok(q) && q.name@ == trim(name@) && q.profit == profit),
{
    let name = validated_name(name)?;
    Ok(CreateCategoryRequest { name, profit })
}

/// What renaming the category `name` to `new_name` sends: the trimmed new name.
///
/// A blank new name is refused, and so is one that is already the category's name: the
/// server would accept it and change nothing, and saying so is more useful than a silent
/// success.
pub fn plan_rename(name: &str, new_name: &str) -> (r: Result<String, ClientError>)
    ensures
        is_blank(new_name@) ==> (r matches Err(e) && e@ == (
            ErrorKind::BadRequest,
            "Category name is required"@,
        )),
        !is_blank(new_name@) && trim(new_name@) == name@ ==> (r matches Err(e) && e@ == (
            ErrorKind::BadRequest,
            "The new name is the same as the old one"@,
        )),
        !is_blank(new_name@) && trim(new_name@) != name@ ==> (r matches Ok(n) && n@ == trim(
            new_name@,
        )),
{
    let new_name = validated_name(new_name)?;
    if same_text(new_name.as_str(), name) {
        return Err(bad_request("The new name is the same as the old one"));
    }
    Ok(new_name)
}

} // verus!
