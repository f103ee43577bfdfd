//! Administrators, and the SQL text of the queries that list and change them.
use vstd::prelude::*;
use crate::text::{concat, debug_str, debug_text, u64_to_string, decimal};
use super::role::Role;

verus! {

broadcast use vstd::string::group_string_axioms;

/// The UTC date and time of a moment, as chrono's `NaiveDateTime` shows it.
pub uninterp spec fn utc_text(micros: i64) -> Seq<char>;

/// The UTC date and time of a moment given in microseconds since the Unix
/// epoch (`chrono::DateTime::from_timestamp_micros(..).naive_utc().to_string()`;
/// empty for a moment chrono cannot hold).
#[verifier::external_body]
fn utc_datetime_text(micros: i64) -> (s: String)
    ensures
        s@ == utc_text(micros),
{
    match chrono::DateTime::from_timestamp_micros(micros) {
        Some(d) => d.naive_utc().to_string(),
        None => String::new(),
    }
}

/// An administrator. Times are microseconds since the Unix epoch.
pub struct Admin {
    pub id: u64,
    pub role_id: u64,
    pub created_at: i64,
    pub updated_at: i64,
    pub username: String,
    pub password: String,
}

/// A request to list administrators by any of these.
#[derive(Default)]
pub struct GetAdminRequest {
    pub admin_id: Option<u64>,
    pub role_id: Option<u64>,
    pub began_at: Option<i64>,
    pub ended_at: Option<i64>,
    pub username: Option<String>,
}

/// An administrator with their role, if it was found.
pub struct GetAdminResponse {
    pub admin: Admin,
    pub role: Option<Role>,
}

/// A request to add an administrator.
pub struct PostAdminRequest {
    pub role_id: u64,
    pub username: String,
    pub password: String,
}

/// A request to change an administrator.
pub struct PutAdminRequest {
    pub role_id: Option<u64>,
    pub username: Option<String>,
    pub password: Option<String>,
}

/// The SQL that lists the administrators asked for: each given filter
/// appended in the order id, role, created after, created before, name;
/// times as their UTC text and names quoted as `{:?}` writes them.
pub open spec fn select_admins_text(req: GetAdminRequest) -> Seq<char> {
    "select * from admin where 1=1"@
        + match req.admin_id { Some(v) => " and id = "@ + decimal(v as nat), None => Seq::empty() }
        + match req.role_id { Some(v) => " and role_id = "@ + decimal(v as nat), None => Seq::empty() }
        + match req.began_at { Some(t) => " and created_at >= "@ + debug_text(utc_text(t)), None => Seq::empty() }
        + match req.ended_at { Some(t) => " and created_at <= "@ + debug_text(utc_text(t)), None => Seq::empty() }
        + match req.username { Some(n) => " and username = "@ + debug_text(n@), None => Seq::empty() }
}

/// The SQL that changes administrator `id`: each given field set, in the
/// order role, name, password.
pub open spec fn update_admin_text(req: PutAdminRequest, id: u64) -> Seq<char> {
    "update admin set id = id"@
        + match req.role_id { Some(v) => ", role_id = "@ + decimal(v as nat), None => Seq::empty() }
        + match req.username { Some(n) => ", username = "@ + debug_text(n@), None => Seq::empty() }
        + match req.password { Some(p) => ", password = "@ + debug_text(p@), None => Seq::empty() }
        + " where id = "@ + decimal(id as nat)
}

impl GetAdminRequest {
    /// The SQL that lists the administrators asked for (`select_admins_text`).
    pub fn sql(&self) -> (s: String)
        ensures
            s@ == select_admins_text(*self),
    {
        let mut sql = "select * from admin where 1=1".to_string();
        let ghost s0 = sql@;
        if let Some(admin_id) = self.admin_id {
            let part = concat(" and id = ", u64_to_string(admin_id).as_str());
            sql = concat(sql.as_str(), part.as_str());
        }
        if let Some(role_id) = self.role_id {
            let part = concat(" and role_id = ", u64_to_string(role_id).as_str());
            sql = concat(sql.as_str(), part.as_str());
        }
        if let Some(began_at) = self.began_at {
            let t = utc_datetime_text(began_at);
            let part = concat(" and created_at >= ", debug_str(t.as_str()).as_str());
            sql = concat(sql.as_str(), part.as_str());
        }
        if let Some(ended_at) = self.ended_at {
            let t = utc_datetime_text(ended_at);
            let part = concat(" and created_at <= ", debug_str(t.as_str()).as_str());
            sql = concat(sql.as_str(), part.as_str());
        }
        if let Some(username) = &self.username {
            let part = concat(" and username = ", debug_str(username.as_str()).as_str());
            sql = concat(sql.as_str(), part.as_str());
        }
        assert(sql@ =~= select_admins_text(*self));
        sql
    }
}

impl PutAdminRequest {
    /// The SQL that changes administrator `id` (`update_admin_text`).
    pub fn sql(&self, id: u64) -> (s: String)
        ensures
            s@ == update_admin_text(*self, id),
    {
        let mut sql = "update admin set id = id".to_string();
        if let Some(role_id) = self.role_id {
            let part = concat(", role_id = ", u64_to_string(role_id).as_str());
            sql = concat(sql.as_str(), part.as_str());
        }
        if let Some(username) = &self.username {
            let part = concat(", username = ", debug_str(username.as_str()).as_str());
            sql = concat(sql.as_str(), part.as_str());
        }
        if let Some(password) = &self.password {
            let part = concat(", password = ", debug_str(password.as_str()).as_str());
            sql = concat(sql.as_str(), part.as_str());
        }
        let tail = concat(" where id = ", u64_to_string(id).as_str());
        sql = concat(sql.as_str(), tail.as_str());
        assert(sql@ =~= update_admin_text(*self, id));
        sql
    }
}

} // verus!
