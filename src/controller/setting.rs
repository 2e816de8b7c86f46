//! Site settings: named parameters, newest first, no search.

use vstd::prelude::*;
use crate::models::{opt_view, or_empty, text_or_empty, SettingDB};
use crate::paging::{window_spec, PageError, PageRule};
use crate::repository::{build_query, query_result, ListQuery, Order};

verus! {

/// Rows per page when the request names no limit.
pub const DEFAULT_LIMIT: u32 = 20;

pub struct SettingRequest {
    pub param: String,
    pub value: String,
    pub note: Option<String>,
}

impl SettingRequest {
    /// The row to store at time `now`; the database assigns its id.
    pub fn to_setting_db(&self, now: i64) -> (r: Result<SettingDB, String>)
        ensures
            r matches Ok(s) && s.param@ == self.param@ && s.value@ == self.value@ && opt_view(s.note)
                == Some(or_empty(opt_view(self.note))) && s.created_at == now && s.updated_at == now
                && s.deleted_at is None,
    {
        Ok(
            SettingDB {
                id: 0,
                param: self.param.clone(),
                value: self.value.clone(),
                note: text_or_empty(&self.note),
                created_at: now,
                updated_at: now,
                deleted_at: None,
            },
        )
    }
}

pub struct PaginationParams {
    pub page: Option<i32>,
    pub limit: Option<i32>,
}

impl PaginationParams {
    /// The listing query: newest first.
    pub fn to_query(&self) -> (r: Result<ListQuery, PageError>)
        ensures
            query_result(
                r,
                window_spec(self.page, self.limit, PageRule { default_limit: DEFAULT_LIMIT, zero_means_all: false }),
                None,
                None,
                Order::IdDesc,
            ),
    {
        build_query(
            self.page,
            self.limit,
            PageRule { default_limit: DEFAULT_LIMIT, zero_means_all: false },
            &None,
            None,
            Order::IdDesc,
        )
    }
}

} // verus!
