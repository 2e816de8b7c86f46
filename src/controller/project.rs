//! Projects and the technologies linked to them.

use vstd::prelude::*;
use crate::models::{opt_view, or_empty, text_or_empty, ProjectDB};
use crate::paging::{window_spec, PageError, PageRule};
use crate::repository::{build_query, query_result, ListQuery, Order};

verus! {

/// Rows per page when the request names no limit.
pub const DEFAULT_LIMIT: u32 = 20;

pub struct ProjectRequest {
    pub title: String,
    pub content: String,
    pub source: Option<String>,
    pub url: Option<String>,
    pub demo: Option<String>,
    pub relevant: bool,
    pub published: bool,
    pub tech_ids: Vec<i32>,
}

impl ProjectRequest {
    /// The project row to store at time `now`; the database assigns its id.
    pub fn to_project_db(&self, now: i64) -> (r: ProjectDB)
        ensures
            r.title@ == self.title@,
            r.content@ == self.content@,
            opt_view(r.source) == Some(or_empty(opt_view(self.source))),
            opt_view(r.url) == Some(or_empty(opt_view(self.url))),
            opt_view(r.demo) == Some(or_empty(opt_view(self.demo))),
            r.relevant == self.relevant,
            r.published == self.published,
            r.created_at == now,
            r.updated_at == now,
            r.deleted_at is None,
    {
        ProjectDB {
            id: 0,
            title: self.title.clone(),
            content: self.content.clone(),
            source: text_or_empty(&self.source),
            url: text_or_empty(&self.url),
            demo: text_or_empty(&self.demo),
            relevant: self.relevant,
            published: self.published,
            created_at: now,
            updated_at: now,
            deleted_at: None,
        }
    }

    /// The (project, technology) link rows for project `project_id`, one
    /// per requested technology, in request order.
    pub fn tech_links(&self, project_id: i32) -> (r: Vec<(i32, i32)>)
        ensures
            r@ == self.tech_ids@.map_values(|t: i32| (project_id, t)),
    {
        let mut out: Vec<(i32, i32)> = Vec::new();
        let mut i: usize = 0;
        while i < self.tech_ids.len()
            invariant
                i <= self.tech_ids.len(),
                out@ == self.tech_ids@.subrange(0, i as int).map_values(|t: i32| (project_id, t)),
            decreases self.tech_ids.len() - i,
        {
            out.push((project_id, self.tech_ids[i]));
            i = i + 1;
            assert(out@ =~= self.tech_ids@.subrange(0, i as int).map_values(|t: i32| (project_id, t)));
        }
        assert(self.tech_ids@.subrange(0, self.tech_ids.len() as int) =~= self.tech_ids@);
        out
    }
}

pub struct PaginationParams {
    pub page: Option<i32>,
    pub limit: Option<i32>,
    pub rlv: Option<bool>,
}

impl PaginationParams {
    /// The listing query: projects whose relevance equals `rlv` (relevant
    /// ones when absent), newest first.
    pub fn to_query(&self) -> (r: Result<ListQuery, PageError>)
        ensures
            query_result(
                r,
                window_spec(self.page, self.limit, PageRule { default_limit: DEFAULT_LIMIT, zero_means_all: false }),
                None,
                Some(
                    match self.rlv {
                        Some(b) => b,
                        None => true,
                    },
                ),
                Order::IdDesc,
            ),
    {
        let relevant = match self.rlv {
            Some(b) => b,
            None => true,
        };
        build_query(
            self.page,
            self.limit,
            PageRule { default_limit: DEFAULT_LIMIT, zero_means_all: false },
            &None,
            Some(relevant),
            Order::IdDesc,
        )
    }
}

} // verus!
