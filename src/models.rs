//! The stored rows of each resource, with times as unix seconds and user
//! ids as 128-bit UUID values.

use vstd::prelude::*;
use crate::calendar::Date;

verus! {

pub struct UserDB {
    pub id: u128,
    pub name: String,
    pub email: String,
    pub password: String,
    pub phone: Option<String>,
    pub birth: Option<Date>,
    pub linkedin: Option<String>,
    pub github: Option<String>,
    pub role_id: i32,
    pub created_at: i64,
    pub updated_at: i64,
    pub deleted_at: Option<i64>,
}

pub struct PostDB {
    pub id: i32,
    pub title: String,
    pub subtitle: Option<String>,
    pub slug: String,
    pub content: String,
    pub tags: Option<String>,
    pub author_id: u128,
    pub created_at: i64,
    pub updated_at: i64,
    pub deleted_at: Option<i64>,
    pub published: bool,
    pub category_id: i32,
}

pub struct PostCatDB {
    pub id: i32,
    pub name: String,
    pub slug: String,
    pub description: Option<String>,
    pub published: bool,
    pub created_at: i64,
    pub updated_at: i64,
    pub deleted_at: Option<i64>,
}

pub struct ProjectDB {
    pub id: i32,
    pub title: String,
    pub content: String,
    pub source: Option<String>,
    pub url: Option<String>,
    pub demo: Option<String>,
    pub relevant: bool,
    pub published: bool,
    pub created_at: i64,
    pub updated_at: i64,
    pub deleted_at: Option<i64>,
}

pub struct TechDB {
    pub id: i32,
    pub title: String,
    pub icon: Option<String>,
    pub created_at: i64,
    pub updated_at: i64,
    pub deleted_at: Option<i64>,
}

pub struct RoleDB {
    pub id: i32,
    pub name: String,
    pub level: String,
    pub can_modify_user: bool,
    pub can_edit: bool,
    pub can_view: bool,
    pub is_guest: bool,
    pub created_at: i64,
    pub updated_at: i64,
    pub deleted_at: Option<i64>,
}

pub struct HobbyDB {
    pub id: i32,
    pub title: String,
    pub content: String,
    pub image: Option<String>,
    pub item_order: i32,
    pub active: bool,
    pub published: bool,
    pub order: i32,
    pub created_at: i64,
    pub updated_at: i64,
    pub deleted_at: Option<i64>,
}

pub struct SettingDB {
    pub id: i32,
    pub param: String,
    pub value: String,
    pub note: Option<String>,
    pub created_at: i64,
    pub updated_at: i64,
    pub deleted_at: Option<i64>,
}

pub struct ContactDB {
    pub id: i32,
    pub subject: String,
    pub name: String,
    pub email: String,
    pub content: String,
    pub created_at: i64,
    pub ip_address: Option<String>,
}

/// The text of an optional field.
pub open spec fn opt_view(o: Option<String>) -> Option<Seq<char>> {
    match o {
        Some(s) => Some(s@),
        None => None,
    }
}

/// An absent optional text is stored as the empty text.
pub open spec fn or_empty(o: Option<Seq<char>>) -> Seq<char> {
    match o {
        Some(s) => s,
        None => Seq::empty(),
    }
}

/// Copies an optional text, storing an absent one as empty.
pub fn text_or_empty(o: &Option<String>) -> (r: Option<String>)
    ensures
        r matches Some(s) && s@ == or_empty(opt_view(*o)),
{
    match o {
        Some(s) => Some(s.clone()),
        None => Some(String::new()),
    }
}

/// Copies an optional text.
pub fn copy_text(o: &Option<String>) -> (r: Option<String>)
    ensures
        opt_view(r) == opt_view(*o),
{
    match o {
        Some(s) => Some(s.clone()),
        None => None,
    }
}

/// The text of each column.
pub open spec fn texts_view(v: Seq<String>) -> Seq<Seq<char>> {
    v.map_values(|c: String| c@)
}

impl HobbyDB {
    /// The columns a hobby search looks at: title and content.
    pub fn search_columns(&self) -> (r: Vec<String>)
        ensures
            texts_view(r@) == seq![self.title@, self.content@],
    {
        let r = vec![self.title.clone(), self.content.clone()];
        assert(texts_view(r@) =~= seq![self.title@, self.content@]);
        r
    }
}

impl PostCatDB {
    /// The columns a category search looks at: name and description (a
    /// missing description reads as empty).
    pub fn search_columns(&self) -> (r: Vec<String>)
        ensures
            texts_view(r@) == seq![self.name@, or_empty(opt_view(self.description))],
    {
        let description = match &self.description {
            Some(d) => d.clone(),
            None => String::new(),
        };
        let r = vec![self.name.clone(), description];
        assert(texts_view(r@) =~= seq![self.name@, or_empty(opt_view(self.description))]);
        r
    }
}

impl TechDB {
    /// The columns a technology search looks at: the title.
    pub fn search_columns(&self) -> (r: Vec<String>)
        ensures
            texts_view(r@) == seq![self.title@],
    {
        let r = vec![self.title.clone()];
        assert(texts_view(r@) =~= seq![self.title@]);
        r
    }
}

impl UserDB {
    /// The columns a user search looks at: name and e-mail.
    pub fn search_columns(&self) -> (r: Vec<String>)
        ensures
            texts_view(r@) == seq![self.name@, self.email@],
    {
        let r = vec![self.name.clone(), self.email.clone()];
        assert(texts_view(r@) =~= seq![self.name@, self.email@]);
        r
    }
}

} // verus!
