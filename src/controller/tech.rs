//! Technologies used by projects: newest first, searched by title.

use vstd::prelude::*;
use crate::models::{copy_text, opt_view, TechDB};
use crate::paging::{window_spec, PageError, PageRule};
use crate::repository::{build_query, query_result, search_spec, ListQuery, Order};

verus! {

/// Rows per page when the request names no limit.
pub const DEFAULT_LIMIT: u32 = 20;

pub struct TechRequest {
    pub title: String,
    pub icon: Option<String>,
}

impl TechRequest {
    /// The row to store at time `now`; the database assigns its id.
    pub fn to_tech_db(&self, now: i64) -> (r: Result<TechDB, String>)
        ensures
            r matches Ok(t) && t.title@ == self.title@ && opt_view(t.icon) == opt_view(self.icon)
                && t.created_at == now && t.updated_at == now && t.deleted_at is None,
    {
        Ok(
            TechDB {
                id: 0,
                title: self.title.clone(),
                icon: copy_text(&self.icon),
                created_at: now,
                updated_at: now,
                deleted_at: None,
            },
        )
    }
}

pub struct PaginationParams {
    pub page: Option<i32>,
    pub limit: Option<i32>,
    pub search: Option<String>,
}

impl PaginationParams {
    /// The listing query: search over the title, newest first.
    pub fn to_query(&self) -> (r: Result<ListQuery, PageError>)
        ensures
            query_result(
                r,
                window_spec(self.page, self.limit, PageRule { default_limit: DEFAULT_LIMIT, zero_means_all: false }),
                search_spec(opt_view(self.search)),
                None,
                Order::IdDesc,
            ),
    {
        build_query(
            self.page,
            self.limit,
            PageRule { default_limit: DEFAULT_LIMIT, zero_means_all: false },
            &self.search,
            None,
            Order::IdDesc,
        )
    }
}

} // verus!
