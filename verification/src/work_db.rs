//! Tasks as the work database reports them.
use vstd::prelude::*;

verus! {

/// A task retrieved from the work database. Times are seconds since the Unix epoch (UTC).
#[derive(Debug)]
pub struct Task {
    pub id: String,
    pub title: String,
    pub description: Option<String>,
    pub status: String,
    pub priority: u32,
    pub issue_type: String,
    pub owner: Option<String>,
    pub created_at: i64,
    pub updated_at: Option<i64>,
    pub defer_until: Option<i64>,
}

/// The text of an optional string.
pub open spec fn opt_view(o: Option<String>) -> Option<Seq<char>> {
    match o {
        Some(s) => Some(s@),
        None => None,
    }
}

/// Clones an optional string.
pub fn clone_opt(o: &Option<String>) -> (r: Option<String>)
    ensures
        r == *o,
{
    match o {
        Some(s) => Some(s.clone()),
        None => None,
    }
}

impl Clone for Task {
    fn clone(&self) -> (r: Self)
        ensures
            r == *self,
    {
        Task {
            id: self.id.clone(),
            title: self.title.clone(),
            description: clone_opt(&self.description),
            status: self.status.clone(),
            priority: self.priority,
            issue_type: self.issue_type.clone(),
            owner: clone_opt(&self.owner),
            created_at: self.created_at,
            updated_at: self.updated_at,
            defer_until: self.defer_until,
        }
    }
}

} // verus!
