//! Users: newest first, searched by name and e-mail.

use vstd::prelude::*;
use crate::calendar::{parse_date, ymd_parsed, Date};
use crate::credential::{hash_password, password_accepted};
use crate::ids::new_user_id;
use crate::models::{opt_view, or_empty, text_or_empty, UserDB};
use crate::paging::{window_spec, PageError, PageRule};
use crate::repository::{build_query, query_result, search_spec, ListQuery, Order};

verus! {

/// Rows per page when the request names no limit.
pub const DEFAULT_LIMIT: u32 = 20;

pub struct UserRequest {
    pub name: String,
    pub email: String,
    pub password: String,
    pub phone: String,
    pub birth: String,
    pub linkedin: Option<String>,
    pub github: Option<String>,
    pub role_id: i32,
}

#[derive(Debug, Clone, Copy, PartialEq, Eq, Structural)]
pub enum UserError {
    /// `birth` is not a `YYYY-MM-DD` date.
    InvalidDate,
    /// The password could not be hashed.
    PasswordHash,
}

impl UserRequest {
    /// The row to store at time `now`: a fresh random id, the birth date
    /// read from `YYYY-MM-DD`, and the password stored as a salted hash.
    pub fn to_user_db(&self, now: i64) -> (r: Result<UserDB, UserError>)
        ensures
            ymd_parsed(self.birth@) is None ==> r == Err::<UserDB, UserError>(UserError::InvalidDate),
            ymd_parsed(self.birth@) matches Some((y, m, d)) ==> match r {
                Ok(u) => {
                    &&& u.birth == Some(Date { year: y, month: m, day: d })
                    &&& password_accepted(self.password@, u.password@)
                    &&& u.name@ == self.name@
                    &&& u.email@ == self.email@
                    &&& opt_view(u.phone) == Some(self.phone@)
                    &&& opt_view(u.linkedin) == Some(or_empty(opt_view(self.linkedin)))
                    &&& opt_view(u.github) == Some(or_empty(opt_view(self.github)))
                    &&& u.role_id == self.role_id
                    &&& u.created_at == now
                    &&& u.updated_at == now
                    &&& u.deleted_at is None
                },
                Err(e) => e == UserError::PasswordHash,
            },
    {
        let birth = match parse_date(self.birth.as_str()) {
            Some(d) => d,
            None => return Err(UserError::InvalidDate),
        };
        let password = match hash_password(self.password.as_str()) {
            Ok(h) => h,
            Err(_) => return Err(UserError::PasswordHash),
        };
        Ok(
            UserDB {
                id: new_user_id(),
                name: self.name.clone(),
                email: self.email.clone(),
                password,
                phone: Some(self.phone.clone()),
                birth: Some(birth),
                linkedin: text_or_empty(&self.linkedin),
                github: text_or_empty(&self.github),
                role_id: self.role_id,
                created_at: now,
                updated_at: now,
                deleted_at: None,
            },
        )
    }
}

pub struct PaginationParams {
    pub page: Option<i32>,
    pub limit: Option<i32>,
    pub search: Option<String>,
}

impl PaginationParams {
    /// The listing query: search over name and e-mail, newest first.
    pub fn to_query(&self) -> (r: Result<ListQuery, PageError>)
        ensures
            query_result(
                r,
                window_spec(self.page, self.limit, PageRule { default_limit: DEFAULT_LIMIT, zero_means_all: false }),
                search_spec(opt_view(self.search)),
                None,
                Order::IdDesc,
            ),
    {
        build_query(
            self.page,
            self.limit,
            PageRule { default_limit: DEFAULT_LIMIT, zero_means_all: false },
            &self.search,
            None,
            Order::IdDesc,
        )
    }
}

} // verus!
