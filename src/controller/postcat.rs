//! Post categories: newest first; a limit of 0 lists them all.

use vstd::prelude::*;
use crate::models::{opt_view, or_empty, text_or_empty, PostCatDB};
use crate::paging::{window_spec, PageError, PageRule};
use crate::repository::{build_query, query_result, search_spec, ListQuery, Order};

verus! {

pub struct PostCatRequest {
    pub name: String,
    pub slug: String,
    pub description: Option<String>,
    pub published: bool,
}

impl PostCatRequest {
    /// The row to store at time `now`; the database assigns its id.
    pub fn to_pcat_db(&self, now: i64) -> (r: Result<PostCatDB, String>)
        ensures
            r matches Ok(c) && c.name@ == self.name@ && c.slug@ == self.slug@ && opt_view(c.description)
                == Some(or_empty(opt_view(self.description))) && c.published == self.published
                && c.created_at == now && c.updated_at == now && c.deleted_at is None,
    {
        Ok(
            PostCatDB {
                id: 0,
                name: self.name.clone(),
                slug: self.slug.clone(),
                description: text_or_empty(&self.description),
                published: self.published,
                created_at: now,
                updated_at: now,
                deleted_at: None,
            },
        )
    }
}

pub struct PaginationParams {
    pub page: Option<i32>,
    pub limit: Option<i32>,
    pub search: Option<String>,
}

impl PaginationParams {
    /// The listing query: search over name and description, newest first,
    /// every category unless a limit is given.
    pub fn to_query(&self) -> (r: Result<ListQuery, PageError>)
        ensures
            query_result(
                r,
                window_spec(self.page, self.limit, PageRule { default_limit: 0, zero_means_all: true }),
                search_spec(opt_view(self.search)),
                None,
                Order::IdDesc,
            ),
    {
        build_query(
            self.page,
            self.limit,
            PageRule { default_limit: 0, zero_means_all: true },
            &self.search,
            None,
            Order::IdDesc,
        )
    }
}

} // verus!
