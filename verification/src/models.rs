//! The records of the project database: projects and their URLs.
use vstd::prelude::*;

verus! {

/// A project: one domain under audit.
pub struct Project {
    pub id: String,
    pub domain: String,
    pub status: String,
    pub created_at: String,
    pub updated_at: String,
}

/// A URL of a project, with its indexation status and, once audited, the
/// outcome of its check. `None` stands for a missing (NULL) value.
pub struct UrlEntry {
    pub id: String,
    pub project_id: String,
    pub url: String,
    pub source: String,
    pub indexed_status: String,
    pub http_status: Option<i32>,
    pub response_time_ms: Option<i64>,
    pub title: Option<String>,
    pub redirect_chain: Option<String>,
    pub error: Option<String>,
    pub checked_at: Option<String>,
}

pub fn clone_opt_string(o: &Option<String>) -> (r: Option<String>)
    ensures
        r == *o,
{
    match o {
        Some(s) => Some(s.clone()),
        None => None,
    }
}

impl Clone for UrlEntry {
    fn clone(&self) -> (r: Self)
        ensures
            r == *self,
    {
        UrlEntry {
            id: self.id.clone(),
            project_id: self.project_id.clone(),
            url: self.url.clone(),
            source: self.source.clone(),
            indexed_status: self.indexed_status.clone(),
            http_status: self.http_status,
            response_time_ms: self.response_time_ms,
            title: clone_opt_string(&self.title),
            redirect_chain: clone_opt_string(&self.redirect_chain),
            error: clone_opt_string(&self.error),
            checked_at: clone_opt_string(&self.checked_at),
        }
    }
}

impl Clone for Project {
    fn clone(&self) -> (r: Self)
        ensures
            r == *self,
    {
        Project {
            id: self.id.clone(),
            domain: self.domain.clone(),
            status: self.status.clone(),
            created_at: self.created_at.clone(),
            updated_at: self.updated_at.clone(),
        }
    }
}

} // verus!
