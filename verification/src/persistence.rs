//! The legacy single-session record, kept so that it can be read and
//! carried over into a named session.

use vstd::prelude::*;
use vstd::string::*;
use crate::clock::current_time;

verus! {

/// Name of the file that holds the single-session record.
pub const SESSION_FILE: &'static str = ".th-chat";

/// A session record without a name.
#[derive(Debug, PartialEq, Eq)]
pub struct SessionData {
    pub conversation_id: String,
    pub store_id: String,
    pub created_at: u64,
    pub last_accessed: u64,
}

pub ghost struct SessionDataView {
    pub conversation_id: Seq<char>,
    pub store_id: Seq<char>,
    pub created_at: u64,
    pub last_accessed: u64,
}

impl DeepView for SessionData {
    type V = SessionDataView;

    open spec fn deep_view(&self) -> SessionDataView {
        SessionDataView {
            conversation_id: self.conversation_id@,
            store_id: self.store_id@,
            created_at: self.created_at,
            last_accessed: self.last_accessed,
        }
    }
}

impl Clone for SessionData {
    fn clone(&self) -> (r: Self)
        ensures
            r.deep_view() == self.deep_view(),
    {
        SessionData {
            conversation_id: self.conversation_id.clone(),
            store_id: self.store_id.clone(),
            created_at: self.created_at,
            last_accessed: self.last_accessed,
        }
    }
}

impl SessionDataView {
    /// A record created and last accessed at `now`.
    pub open spec fn fresh(conversation_id: Seq<char>, store_id: Seq<char>, now: u64) -> Self {
        SessionDataView { conversation_id, store_id, created_at: now, last_accessed: now }
    }

    /// The record as accessed at `now`.
    pub open spec fn touched(self, now: u64) -> Self {
        SessionDataView { last_accessed: now, ..self }
    }
}

impl SessionData {
    /// A record created and last accessed at the given time.
    pub fn new_at(conversation_id: String, store_id: String, now: u64) -> (r: Self)
        ensures
            r.deep_view() == SessionDataView::fresh(conversation_id@, store_id@, now),
    {
        SessionData { conversation_id, store_id, created_at: now, last_accessed: now }
    }

    /// A record created now, by the system clock.
    pub fn new(conversation_id: String, store_id: String) -> (r: Self)
        ensures
            exists|now: u64|
                r.deep_view() == SessionDataView::fresh(conversation_id@, store_id@, now),
    {
        let now = current_time();
        SessionData::new_at(conversation_id, store_id, now)
    }

    /// Marks the record as accessed at the given time.
    pub fn update_access_time_at(&mut self, now: u64)
        ensures
            final(self).deep_view() == old(self).deep_view().touched(now),
    {
        self.last_accessed = now;
    }

    /// Marks the record as accessed now, by the system clock.
    pub fn update_access_time(&mut self)
        ensures
            exists|now: u64| final(self).deep_view() == old(self).deep_view().touched(now),
    {
        let now = current_time();
        self.update_access_time_at(now);
    }
}

/// Where the single-session file of `working_dir` lies: the file name alone
/// when no directory is given, else the directory, a slash, and the name.
pub open spec fn session_file_path_spec(working_dir: Option<Seq<char>>) -> Seq<char> {
    match working_dir {
        Some(dir) => dir + "/"@ + SESSION_FILE@,
        None => SESSION_FILE@,
    }
}

pub fn get_session_file_path(working_dir: Option<&str>) -> (r: String)
    ensures
        r@ == session_file_path_spec(
            match working_dir {
                Some(dir) => Some(dir@),
                None => None,
            },
        ),
{
    match working_dir {
        Some(dir) => {
            let mut path = dir.to_owned();
            path.append("/");
            path.append(SESSION_FILE);
            path
        },
        None => SESSION_FILE.to_owned(),
    }
}

} // verus!
