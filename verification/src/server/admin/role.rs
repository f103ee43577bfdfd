//! Roles, and the SQL text of the queries that list and change them.
use vstd::prelude::*;
use crate::text::{concat, debug_str, debug_text, u64_to_string, decimal};

verus! {

broadcast use vstd::string::group_string_axioms;

/// A role. Times are microseconds since the Unix epoch.
pub struct Role {
    pub id: u64,
    pub created_at: i64,
    pub updated_at: i64,
    pub name: String,
}

/// A request to add a role.
pub struct PostRequest {
    pub name: String,
}

/// A request to list roles, by name if given.
pub struct GetRequest {
    pub name: Option<String>,
}

/// A request to rename a role.
#[derive(Default)]
pub struct PutRequest {
    pub name: Option<String>,
}

/// The SQL that lists roles: all, or those with the name (quoted as `{:?}`
/// writes it).
pub open spec fn select_roles_text(name: Option<String>) -> Seq<char> {
    "select * from role where 1 = 1"@ + match name {
        Some(n) => " and name = "@ + debug_text(n@),
        None => Seq::empty(),
    }
}

/// The SQL that renames a role where a name is given.
pub open spec fn update_role_text(name: Option<String>, id: u64) -> Seq<char> {
    "update role set id = id"@ + match name {
        Some(n) => ", name = "@ + debug_text(n@),
        None => Seq::empty(),
    } + " where id = "@ + decimal(id as nat)
}

impl GetRequest {
    /// The SQL that lists the roles asked for (`select_roles_text`).
    pub fn sql(&self) -> (s: String)
        ensures
            s@ == select_roles_text(self.name),
    {
        let mut sql = "select * from role where 1 = 1".to_string();
        if let Some(name) = &self.name {
            let part = concat(" and name = ", debug_str(name.as_str()).as_str());
            sql = concat(sql.as_str(), part.as_str());
        }
        sql
    }
}

impl PutRequest {
    /// The SQL that renames role `id` (`update_role_text`).
    pub fn sql(&self, id: u64) -> (s: String)
        ensures
            s@ == update_role_text(self.name, id),
    {
        let mut sql = "update role set id = id".to_string();
        if let Some(name) = &self.name {
            let part = concat(", name = ", debug_str(name.as_str()).as_str());
            sql = concat(sql.as_str(), part.as_str());
        }
        let tail = concat(" where id = ", u64_to_string(id).as_str());
        sql = concat(sql.as_str(), tail.as_str());
        assert(sql@ =~= update_role_text(self.name, id));
        sql
    }
}

} // verus!
