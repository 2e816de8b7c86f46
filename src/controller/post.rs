//! Blog posts: newest first, optionally only those of one category.

use vstd::prelude::*;
use crate::ids::{parse_uuid, uuid_value};
use crate::models::{opt_view, or_empty, text_or_empty, PostDB};
use crate::paging::{page_window, window_spec, PageError, PageRule, Window};
use crate::repository::search_spec;

verus! {

/// Rows per page when the request names no limit.
pub const DEFAULT_LIMIT: u32 = 20;

pub struct PostRequest {
    pub title: String,
    pub subtitle: Option<String>,
    pub slug: String,
    pub content: String,
    pub category_id: i32,
    pub tags: Option<String>,
    pub author_id: String,
    pub published: bool,
}

#[derive(Debug, Clone, Copy, PartialEq, Eq, Structural)]
pub enum PostError {
    /// `author_id` is not a UUID.
    InvalidAuthorId,
}

impl PostRequest {
    /// The row to store at time `now`; the database assigns its id. The
    /// author id must be a UUID.
    pub fn to_post_db(&self, now: i64) -> (r: Result<PostDB, PostError>)
        ensures
            uuid_value(self.author_id@) is None ==> r == Err::<PostDB, PostError>(PostError::InvalidAuthorId),
            uuid_value(self.author_id@) matches Some(a) ==> (r matches Ok(p) && p.author_id == a
                && p.title@ == self.title@ && opt_view(p.subtitle) == Some(or_empty(opt_view(self.subtitle)))
                && p.slug@ == self.slug@ && p.content@ == self.content@ && p.category_id == self.category_id
                && opt_view(p.tags) == Some(or_empty(opt_view(self.tags))) && p.published == self.published
                && p.created_at == now && p.updated_at == now && p.deleted_at is None),
    {
        let author_id = match parse_uuid(self.author_id.as_str()) {
            Some(a) => a,
            None => return Err(PostError::InvalidAuthorId),
        };
        Ok(
            PostDB {
                id: 0,
                title: self.title.clone(),
                subtitle: text_or_empty(&self.subtitle),
                slug: self.slug.clone(),
                content: self.content.clone(),
                tags: text_or_empty(&self.tags),
                author_id,
                created_at: now,
                updated_at: now,
                deleted_at: None,
                published: self.published,
                category_id: self.category_id,
            },
        )
    }
}

pub struct PaginationParams {
    pub page: Option<i32>,
    pub limit: Option<i32>,
    pub cat: Option<String>,
}

/// A post listing: newest first, leaving out deleted posts and posts whose
/// category or author is deleted, and keeping only the category with slug
/// `category` when one is named.
pub struct PostQuery {
    pub window: Window,
    pub category: Option<String>,
}

impl PaginationParams {
    /// The listing query; an empty category names none.
    pub fn to_query(&self) -> (r: Result<PostQuery, PageError>)
        ensures
            match window_spec(self.page, self.limit, PageRule { default_limit: DEFAULT_LIMIT, zero_means_all: false }) {
                Err(e) => r is Err && r->Err_0 == e,
                Ok(w) => (r matches Ok(q) && q.window == w && opt_view(q.category) == search_spec(opt_view(self.cat))),
            },
    {
        let window = match page_window(
            self.page,
            self.limit,
            PageRule { default_limit: DEFAULT_LIMIT, zero_means_all: false },
        ) {
            Ok(w) => w,
            Err(e) => return Err(e),
        };
        let category = match &self.cat {
            Some(c) => if c.as_str().is_empty() {
                None
            } else {
                Some(c.clone())
            },
            None => None,
        };
        Ok(PostQuery { window, category })
    }
}

} // verus!
