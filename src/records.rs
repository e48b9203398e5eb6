use vstd::prelude::*;

use crate::messages::{started_msg, started_text};
use crate::status::Status;

verus! {

/// A project as stored: where its source lives and how to build and run it.
pub struct Project {
    pub id: Option<i32>,
    pub name: String,
    pub git_repo: String,
    pub install_cmd: Option<String>,
    pub build_cmd: Option<String>,
    pub run_cmd: Option<String>,
    pub env: Option<String>,
    pub healthcheck_endpoint: Option<String>,
    pub healthcheck_timeout: Option<i32>,
}

/// One attempt to build and run a project, with its status code and its log.
pub struct Deployment {
    pub id: Option<i32>,
    pub project_id: i32,
    pub commit_hash: String,
    pub status: i32,
    pub logs: String,
    pub created_at: String,
}

/// A project as listed: its id and name.
pub struct MiniProj {
    pub id: i32,
    pub name: String,
}

/// A deployment as listed, without its log.
pub struct MiniDep {
    pub id: i32,
    pub project_id: i32,
    pub commit_hash: String,
    pub status: i32,
    pub created_at: String,
}

/// What the node reports about itself.
pub struct Info {
    pub name: String,
    pub version: String,
    pub rust_version: String,
    pub os: String,
    pub arch: String,
}

/// The text view of an optional string.
pub open spec fn opt_view(o: Option<String>) -> Option<Seq<char>> {
    match o {
        Some(s) => Some(s@),
        None => None,
    }
}

pub fn clone_opt(o: &Option<String>) -> (r: Option<String>)
    ensures
        opt_view(r) == opt_view(*o),
{
    match o {
        Some(s) => Some(s.clone()),
        None => None,
    }
}

impl Deployment {
    /// The record of a newly requested deployment of `project_id`, before the
    /// store has given it an id: pending, with no commit and a seeded log.
    pub fn requested(project_id: i32) -> (r: Deployment)
        ensures
            r.id == Some(0i32),
            r.project_id == project_id,
            r.commit_hash@.len() == 0,
            r.status == Status::Pending.spec_code(),
            r.logs@ == started_text(),
            r.created_at@.len() == 0,
    {
        Deployment {
            id: Some(0),
            project_id,
            commit_hash: String::new(),
            status: Status::Pending.code(),
            logs: started_msg(),
            created_at: String::new(),
        }
    }

    /// Appends to the log, which never loses what it held.
    pub fn append_log(&mut self, text: &str)
        ensures
            final(self).logs@ == old(self).logs@ + text@,
            final(self).id == old(self).id,
            final(self).project_id == old(self).project_id,
            final(self).status == old(self).status,
            final(self).commit_hash == old(self).commit_hash,
            final(self).created_at == old(self).created_at,
    {
        self.logs.append(text);
    }
}

impl Info {
    pub fn new(name: String, version: String, rust_version: String, os: String, arch: String) -> (r: Info)
        ensures
            r.name == name,
            r.version == version,
            r.rust_version == rust_version,
            r.os == os,
            r.arch == arch,
    {
        Info { name, version, rust_version, os, arch }
    }
}

} // verus!
