//! Hobbies: listed by their manual order, newest order first.

use vstd::prelude::*;
use crate::models::{opt_view, or_empty, text_or_empty, HobbyDB};
use crate::paging::{window_spec, PageError, PageRule};
use crate::repository::{build_query, query_result, search_spec, ListQuery, Order};

verus! {

/// Rows per page when the request names no limit.
pub const DEFAULT_LIMIT: u32 = 20;

pub struct HobbyRequest {
    pub title: String,
    pub content: String,
    pub image: Option<String>,
    pub item_order: i32,
    pub active: bool,
    pub published: bool,
    pub order: i32,
}

impl HobbyRequest {
    /// The row to store at time `now`; the database assigns its id.
    pub fn to_hobby_db(&self, now: i64) -> (r: Result<HobbyDB, String>)
        ensures
            r matches Ok(h) && h.title@ == self.title@ && h.content@ == self.content@ && opt_view(h.image)
                == Some(or_empty(opt_view(self.image))) && h.item_order == self.item_order && h.active
                == self.active && h.published == self.published && h.order == self.order && h.created_at
                == now && h.updated_at == now && h.deleted_at is None,
    {
        Ok(
            HobbyDB {
                id: 0,
                title: self.title.clone(),
                content: self.content.clone(),
                image: text_or_empty(&self.image),
                item_order: self.item_order,
                active: self.active,
                published: self.published,
                order: self.order,
                created_at: now,
                updated_at: now,
                deleted_at: None,
            },
        )
    }
}

pub struct PaginationParams {
    pub page: Option<i32>,
    pub limit: Option<i32>,
    pub search: Option<String>,
}

impl PaginationParams {
    /// The listing query: search over title and content, only published
    /// hobbies when `published_only`, highest order first.
    pub fn to_query(&self, published_only: bool) -> (r: Result<ListQuery, PageError>)
        ensures
            query_result(
                r,
                window_spec(self.page, self.limit, PageRule { default_limit: DEFAULT_LIMIT, zero_means_all: false }),
                search_spec(opt_view(self.search)),
                if published_only {
                    Some(true)
                } else {
                    None
                },
                Order::RankDesc,
            ),
    {
        let flag = if published_only {
            Some(true)
        } else {
            None
        };
        build_query(
            self.page,
            self.limit,
            PageRule { default_limit: DEFAULT_LIMIT, zero_means_all: false },
            &self.search,
            flag,
            Order::RankDesc,
        )
    }
}

/// The order given to a new hobby: one past the largest stored order, or 1
/// when there is none; `None` when the largest order cannot grow.
pub fn next_order(max_order: Option<i32>) -> (r: Option<i32>)
    ensures
        r == match max_order {
            None => Some(1i32),
            Some(m) => if m < i32::MAX {
                Some((m + 1) as i32)
            } else {
                None
            },
        },
{
    match max_order {
        None => Some(1),
        Some(m) => if m < i32::MAX {
            Some(m + 1)
        } else {
            None
        },
    }
}

} // verus!
