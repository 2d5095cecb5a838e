use vstd::prelude::*;

verus! {

/// The fields of a user that an update may change; an absent field is left
/// as it is.
#[derive(Clone, Debug, Default)]
pub struct UserUpdate {
    pub name: Option<String>,
}

/// Equality filters on a user's fields, and a page of the ordered results.
/// A `limit` or `offset` that is zero or negative means no bound.
#[derive(Clone, Debug, Default)]
pub struct UserFilter {
    pub id: Option<i64>,
    pub name: Option<String>,
    pub email: Option<String>,
    pub limit: i64,
    pub offset: i64,
}

impl UserFilter {
    /// A filter on the id alone, with no page bounds.
    pub fn by_id(id: i64) -> (r: UserFilter)
        ensures
            r.id == Some(id),
            r.name.is_none(),
            r.email.is_none(),
            r.limit == 0,
            r.offset == 0,
    {
        UserFilter { id: Some(id), name: None, email: None, limit: 0, offset: 0 }
    }

    /// A filter on the email alone, with no page bounds.
    pub fn by_email(email: String) -> (r: UserFilter)
        ensures
            r.id.is_none(),
            r.name.is_none(),
            r.email == Some(email),
            r.limit == 0,
            r.offset == 0,
    {
        UserFilter { id: None, name: None, email: Some(email), limit: 0, offset: 0 }
    }
}

} // verus!
