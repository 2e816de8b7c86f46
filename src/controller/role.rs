//! Roles and their permission flags.

use vstd::prelude::*;
use crate::models::RoleDB;

verus! {

pub struct RoleRequest {
    pub name: String,
    pub level: String,
    pub can_modify_user: bool,
    pub can_edit: bool,
    pub can_view: bool,
    pub is_guest: bool,
}

impl RoleRequest {
    /// The row to store at time `now`; the database assigns its id.
    pub fn to_role_db(&self, now: i64) -> (r: Result<RoleDB, String>)
        ensures
            r matches Ok(o) && o.name@ == self.name@ && o.level@ == self.level@ && o.can_modify_user
                == self.can_modify_user && o.can_edit == self.can_edit && o.can_view == self.can_view
                && o.is_guest == self.is_guest && o.created_at == now && o.updated_at == now
                && o.deleted_at is None,
    {
        Ok(
            RoleDB {
                id: 0,
                name: self.name.clone(),
                level: self.level.clone(),
                can_modify_user: self.can_modify_user,
                can_edit: self.can_edit,
                can_view: self.can_view,
                is_guest: self.is_guest,
                created_at: now,
                updated_at: now,
                deleted_at: None,
            },
        )
    }
}

} // verus!
