//! Named sessions: records that bind a name to a remote conversation, and
//! the store that keeps them.
//!
//! The store works on an image of the sessions directory held in memory.
//! Every change it makes to that image is also written to a journal of file
//! actions; whoever owns the disk replays the journal, so that the directory
//! and the image stay the same.

use vstd::prelude::*;
use vstd::string::*;
use crate::clock::current_time;
use crate::text::{clone_opt_string, str_eq};

verus! {

/// A persisted session: a name bound to a remote conversation.
#[derive(Debug, PartialEq, Eq)]
pub struct SessionData {
    pub name: String,
    pub conversation_id: String,
    pub store_id: String,
    pub created_at: u64,
    pub last_accessed: u64,
    pub description: Option<String>,
    pub config_preset: Option<String>,
    pub message_count: u32,
}

pub ghost struct SessionDataView {
    pub name: Seq<char>,
    pub conversation_id: Seq<char>,
    pub store_id: Seq<char>,
    pub created_at: u64,
    pub last_accessed: u64,
    pub description: Option<Seq<char>>,
    pub config_preset: Option<Seq<char>>,
    pub message_count: u32,
}

impl DeepView for SessionData {
    type V = SessionDataView;

    open spec fn deep_view(&self) -> SessionDataView {
        SessionDataView {
            name: self.name@,
            conversation_id: self.conversation_id@,
            store_id: self.store_id@,
            created_at: self.created_at,
            last_accessed: self.last_accessed,
            description: self.description.deep_view(),
            config_preset: self.config_preset.deep_view(),
            message_count: self.message_count,
        }
    }
}

impl Clone for SessionData {
    fn clone(&self) -> (r: Self)
        ensures
            r.deep_view() == self.deep_view(),
    {
        SessionData {
            name: self.name.clone(),
            conversation_id: self.conversation_id.clone(),
            store_id: self.store_id.clone(),
            created_at: self.created_at,
            last_accessed: self.last_accessed,
            description: clone_opt_string(&self.description),
            config_preset: clone_opt_string(&self.config_preset),
            message_count: self.message_count,
        }
    }
}

impl SessionDataView {
    /// A fresh record created at `now`: no description, no preset, no
    /// messages, and accessed when it was created.
    pub open spec fn fresh(
        name: Seq<char>,
        conversation_id: Seq<char>,
        store_id: Seq<char>,
        now: u64,
    ) -> SessionDataView {
        SessionDataView {
            name,
            conversation_id,
            store_id,
            created_at: now,
            last_accessed: now,
            description: None,
            config_preset: None,
            message_count: 0,
        }
    }

    /// The record as accessed at `now`.
    pub open spec fn touched(self, now: u64) -> SessionDataView {
        SessionDataView { last_accessed: now, ..self }
    }

    /// The record after one more message, accessed at `now`.
    pub open spec fn counted(self, now: u64) -> SessionDataView {
        SessionDataView {
            message_count: (self.message_count + 1) as u32,
            last_accessed: now,
            ..self
        }
    }

    /// The record under another name.
    pub open spec fn renamed(self, name: Seq<char>) -> SessionDataView {
        SessionDataView { name, ..self }
    }
}

impl SessionData {
    /// A fresh record created at the given time.
    pub fn new_at(name: String, conversation_id: String, store_id: String, now: u64) -> (r: Self)
        ensures
            r.deep_view() == SessionDataView::fresh(name@, conversation_id@, store_id@, now),
    {
        SessionData {
            name,
            conversation_id,
            store_id,
            created_at: now,
            last_accessed: now,
            description: None,
            config_preset: None,
            message_count: 0,
        }
    }

    /// A fresh record created now, by the system clock.
    pub fn new(name: String, conversation_id: String, store_id: String) -> (r: Self)
        ensures
            exists|now: u64|
                r.deep_view() == SessionDataView::fresh(name@, conversation_id@, store_id@, now),
    {
        let now = current_time();
        SessionData::new_at(name, conversation_id, store_id, now)
    }

    pub fn with_description(self, description: String) -> (r: Self)
        ensures
            r.deep_view() == (SessionDataView {
                description: Some(description@),
                ..self.deep_view()
            }),
    {
        let mut session = self;
        session.description = Some(description);
        session
    }

    pub fn with_preset(self, preset: String) -> (r: Self)
        ensures
            r.deep_view() == (SessionDataView {
                config_preset: Some(preset@),
                ..self.deep_view()
            }),
    {
        let mut session = self;
        session.config_preset = Some(preset);
        session
    }

    /// Marks the record as accessed at the given time.
    pub fn update_access_time_at(&mut self, now: u64)
        ensures
            final(self).deep_view() == old(self).deep_view().touched(now),
    {
        self.last_accessed = now;
    }

    /// Marks the record as accessed now, by the system clock.
    pub fn update_access_time(&mut self)
        ensures
            exists|now: u64| final(self).deep_view() == old(self).deep_view().touched(now),
    {
        let now = current_time();
        self.update_access_time_at(now);
    }

    /// Counts one more message and marks the record as accessed at the given
    /// time.
    pub fn increment_message_count_at(&mut self, now: u64)
        requires
            old(self).message_count < u32::MAX,
        ensures
            final(self).deep_view() == old(self).deep_view().counted(now),
    {
        self.message_count = self.message_count + 1;
        self.last_accessed = now;
    }

    /// Counts one more message and marks the record as accessed now, by the
    /// system clock.
    pub fn increment_message_count(&mut self)
        requires
            old(self).message_count < u32::MAX,
        ensures
            exists|now: u64| final(self).deep_view() == old(self).deep_view().counted(now),
    {
        let now = current_time();
        self.increment_message_count_at(now);
    }
}

/// After how many counted messages a session is saved again.
pub const SAVE_INTERVAL: u32 = 5;

impl SessionData {
    /// Takes note of a message that the actor pushed, as of the given time:
    /// the record counts it and is marked as accessed. Returns whether the
    /// record is due to be saved, which it is at every fifth message.
    pub fn note_incoming_message_at(&mut self, now: u64) -> (save: bool)
        requires
            old(self).message_count < u32::MAX,
        ensures
            final(self).deep_view() == old(self).deep_view().counted(now),
            save == (final(self).message_count % SAVE_INTERVAL == 0),
    {
        self.increment_message_count_at(now);
        self.message_count % SAVE_INTERVAL == 0
    }

    /// Takes note of a message that the actor pushed, by the system clock.
    pub fn note_incoming_message(&mut self) -> (save: bool)
        requires
            old(self).message_count < u32::MAX,
        ensures
            exists|now: u64| final(self).deep_view() == old(self).deep_view().counted(now),
            save == (final(self).message_count % SAVE_INTERVAL == 0),
    {
        let now = current_time();
        self.note_incoming_message_at(now)
    }

    /// Binds the record to the conversation that the actor reports, as of
    /// the given time: the ids it was created with may have been
    /// placeholders.
    pub fn bind_conversation_at(&mut self, conversation_id: String, store_id: String, now: u64)
        ensures
            final(self).deep_view() == (SessionDataView {
                conversation_id: conversation_id@,
                store_id: store_id@,
                last_accessed: now,
                ..old(self).deep_view()
            }),
    {
        self.conversation_id = conversation_id;
        self.store_id = store_id;
        self.last_accessed = now;
    }

    /// The record as the legacy single-session record, which
    /// is what an actor is started from.
    pub fn to_persistence_session_data(&self) -> (r: crate::persistence::SessionData)
        ensures
            r.deep_view() == (crate::persistence::SessionDataView {
                conversation_id: self.conversation_id@,
                store_id: self.store_id@,
                created_at: self.created_at,
                last_accessed: self.last_accessed,
            }),
    {
        crate::persistence::SessionData {
            conversation_id: self.conversation_id.clone(),
            store_id: self.store_id.clone(),
            created_at: self.created_at,
            last_accessed: self.last_accessed,
        }
    }
}

/// Hours in a day.
pub const HOURS_PER_DAY: u64 = 24;

/// Seconds in an hour.
pub const SECONDS_PER_HOUR: u64 = 3600;

/// What a listing shows of a session.
#[derive(Debug, PartialEq, Eq)]
pub struct SessionInfo {
    pub name: String,
    pub description: Option<String>,
    pub created_at: u64,
    pub last_accessed: u64,
    pub message_count: u32,
    pub config_preset: Option<String>,
    pub file_path: String,
}

pub ghost struct SessionInfoView {
    pub name: Seq<char>,
    pub description: Option<Seq<char>>,
    pub created_at: u64,
    pub last_accessed: u64,
    pub message_count: u32,
    pub config_preset: Option<Seq<char>>,
    pub file_path: Seq<char>,
}

impl DeepView for SessionInfo {
    type V = SessionInfoView;

    open spec fn deep_view(&self) -> SessionInfoView {
        SessionInfoView {
            name: self.name@,
            description: self.description.deep_view(),
            created_at: self.created_at,
            last_accessed: self.last_accessed,
            message_count: self.message_count,
            config_preset: self.config_preset.deep_view(),
            file_path: self.file_path@,
        }
    }
}

impl SessionInfoView {
    /// What a listing shows of `session`, stored at `file_path`.
    pub open spec fn of(session: SessionDataView, file_path: Seq<char>) -> SessionInfoView {
        SessionInfoView {
            name: session.name,
            description: session.description,
            created_at: session.created_at,
            last_accessed: session.last_accessed,
            message_count: session.message_count,
            config_preset: session.config_preset,
            file_path,
        }
    }
}

/// Whole hours between a last access and `now`; zero where the last access
/// lies after `now`.
pub open spec fn age_hours_spec(last_accessed: u64, now: u64) -> int {
    if now >= last_accessed {
        (now - last_accessed) / 3600
    } else {
        0
    }
}

/// Whether a session last accessed at `last_accessed` has, at `now`, been
/// idle for more than `days` whole days.
pub open spec fn older_than_days_spec(last_accessed: u64, days: u64, now: u64) -> bool {
    age_hours_spec(last_accessed, now) > days * 24
}

impl SessionInfo {
    pub fn from_session_data(session: &SessionData, file_path: String) -> (r: Self)
        ensures
            r.deep_view() == SessionInfoView::of(session.deep_view(), file_path@),
    {
        SessionInfo {
            name: session.name.clone(),
            description: clone_opt_string(&session.description),
            created_at: session.created_at,
            last_accessed: session.last_accessed,
            message_count: session.message_count,
            config_preset: clone_opt_string(&session.config_preset),
            file_path,
        }
    }

    /// Whole hours since the last access, as of the given time.
    pub fn age_hours_at(&self, now: u64) -> (r: u64)
        ensures
            r == age_hours_spec(self.last_accessed, now),
    {
        if now >= self.last_accessed {
            (now - self.last_accessed) / SECONDS_PER_HOUR
        } else {
            0
        }
    }

    /// Whole hours since the last access, by the system clock.
    pub fn age_hours(&self) -> (r: u64)
        ensures
            exists|now: u64| r == age_hours_spec(self.last_accessed, now),
    {
        let now = current_time();
        self.age_hours_at(now)
    }

    /// Whether the session has been idle for more than `days` days, as of
    /// the given time.
    pub fn is_older_than_days_at(&self, days: u64, now: u64) -> (r: bool)
        ensures
            r == older_than_days_spec(self.last_accessed, days, now),
    {
        let age = self.age_hours_at(now);
        match days.checked_mul(HOURS_PER_DAY) {
            Some(limit) => age > limit,
            None => false,
        }
    }

    /// Whether the session has been idle for more than `days` days, by the
    /// system clock.
    pub fn is_older_than_days(&self, days: u64) -> (r: bool)
        ensures
            exists|now: u64| r == older_than_days_spec(self.last_accessed, days, now),
    {
        let now = current_time();
        self.is_older_than_days_at(days, now)
    }
}

/// One file of the sessions directory: `<stem>.json`, and the record it
/// holds, or `None` where its content could not be read as a record.
#[derive(Debug, PartialEq, Eq)]
pub struct SessionFile {
    pub stem: String,
    pub record: Option<SessionData>,
}

pub ghost struct SessionFileView {
    pub stem: Seq<char>,
    pub record: Option<SessionDataView>,
}

impl DeepView for SessionFile {
    type V = SessionFileView;

    open spec fn deep_view(&self) -> SessionFileView {
        SessionFileView { stem: self.stem@, record: self.record.deep_view() }
    }
}

/// A change to the sessions directory that the store has decided on.
#[derive(Debug, PartialEq, Eq)]
pub enum StoreAction {
    /// Write `record` to the file named after it, replacing what is there.
    Write { record: SessionData },
    /// Remove the file of the session `name`.
    Remove { name: String },
    /// Remove the legacy single-session file.
    RemoveLegacy,
}

pub ghost enum StoreActionView {
    Write { record: SessionDataView },
    Remove { name: Seq<char> },
    RemoveLegacy,
}

impl DeepView for StoreAction {
    type V = StoreActionView;

    open spec fn deep_view(&self) -> StoreActionView {
        match self {
            StoreAction::Write { record } => StoreActionView::Write { record: record.deep_view() },
            StoreAction::Remove { name } => StoreActionView::Remove { name: name@ },
            StoreAction::RemoveLegacy => StoreActionView::RemoveLegacy,
        }
    }
}

/// What was found of the legacy single-session file.
#[derive(Debug, PartialEq, Eq)]
pub enum LegacyFile {
    /// There is no such file.
    Absent,
    /// There is one, but it does not hold a record.
    Unreadable,
    /// There is one, and this is its record.
    Present(crate::persistence::SessionData),
}

pub ghost enum LegacyFileView {
    Absent,
    Unreadable,
    Present(crate::persistence::SessionDataView),
}

impl DeepView for LegacyFile {
    type V = LegacyFileView;

    open spec fn deep_view(&self) -> LegacyFileView {
        match self {
            LegacyFile::Absent => LegacyFileView::Absent,
            LegacyFile::Unreadable => LegacyFileView::Unreadable,
            LegacyFile::Present(record) => LegacyFileView::Present(record.deep_view()),
        }
    }
}

/// Why the store refused an operation.
#[derive(Debug, PartialEq, Eq)]
pub enum SessionError {
    /// A session of that name exists already.
    AlreadyExists { name: String },
    /// No session of that name exists.
    NotFound { name: String },
    /// The default session can be neither deleted nor renamed.
    IsDefaultSession,
    /// The name a session was to be renamed to is taken.
    TargetExists { name: String },
    /// The session's file does not hold a record.
    Malformed { name: String },
    /// The legacy single-session file does not hold a record.
    LegacyMalformed,
}

pub ghost enum SessionErrorView {
    AlreadyExists { name: Seq<char> },
    NotFound { name: Seq<char> },
    IsDefaultSession,
    TargetExists { name: Seq<char> },
    Malformed { name: Seq<char> },
    LegacyMalformed,
}

impl DeepView for SessionError {
    type V = SessionErrorView;

    open spec fn deep_view(&self) -> SessionErrorView {
        match self {
            SessionError::AlreadyExists { name } => SessionErrorView::AlreadyExists { name: name@ },
            SessionError::NotFound { name } => SessionErrorView::NotFound { name: name@ },
            SessionError::IsDefaultSession => SessionErrorView::IsDefaultSession,
            SessionError::TargetExists { name } => SessionErrorView::TargetExists { name: name@ },
            SessionError::Malformed { name } => SessionErrorView::Malformed { name: name@ },
            SessionError::LegacyMalformed => SessionErrorView::LegacyMalformed,
        }
    }
}

/// Name of the session that is used when none is asked for. It can be
/// neither deleted nor renamed.
pub const DEFAULT_SESSION: &'static str = "default";

/// The description given to a record carried over from the legacy
/// single-session file.
pub const MIGRATION_NOTE: &'static str = "Migrated from legacy session";

/// The file at position `i` of `files` is the one named `name`.
pub open spec fn stem_at(files: Seq<SessionFileView>, name: Seq<char>, i: int) -> bool {
    0 <= i < files.len() && files[i].stem == name
}

/// The directory holds a file for the session `name`.
pub open spec fn has_file(files: Seq<SessionFileView>, name: Seq<char>) -> bool {
    exists|i: int| stem_at(files, name, i)
}

/// Position of the file named `name`, where there is one.
pub open spec fn file_index(files: Seq<SessionFileView>, name: Seq<char>) -> int {
    choose|i: int| stem_at(files, name, i)
}

/// No two files of a directory share a name, and a record is stored under
/// its own name.
pub open spec fn directory_wf(files: Seq<SessionFileView>) -> bool {
    &&& forall|i: int, j: int|
        0 <= i < j < files.len() ==> (#[trigger] files[i]).stem != (#[trigger] files[j]).stem
    &&& forall|i: int|
        0 <= i < files.len() && (#[trigger] files[i]).record is Some
            ==> files[i].record.unwrap().name == files[i].stem
}

/// The directory without the file of the session `name`.
pub open spec fn without_file(files: Seq<SessionFileView>, name: Seq<char>) -> Seq<
    SessionFileView,
> {
    if has_file(files, name) {
        files.remove(file_index(files, name))
    } else {
        files
    }
}

/// The directory after `record` has been written under its name: in place
/// of the file of that name where there is one, else as a new last file.
pub open spec fn with_record(files: Seq<SessionFileView>, record: SessionDataView) -> Seq<
    SessionFileView,
> {
    let file = SessionFileView { stem: record.name, record: Some(record) };
    if has_file(files, record.name) {
        files.update(file_index(files, record.name), file)
    } else {
        files.push(file)
    }
}

/// In a well-formed directory a name belongs to one position only.
pub proof fn lemma_file_index(files: Seq<SessionFileView>, name: Seq<char>, i: int)
    requires
        directory_wf(files),
        stem_at(files, name, i),
    ensures
        has_file(files, name),
        file_index(files, name) == i,
{
    let k = file_index(files, name);
    assert(stem_at(files, name, k));
    if k < i {
        assert(files[k].stem != files[i].stem);
    } else if i < k {
        assert(files[i].stem != files[k].stem);
    }
}

/// Writing a record keeps a directory well-formed, and afterwards the
/// directory holds that record under its name.
pub proof fn lemma_with_record_wf(files: Seq<SessionFileView>, record: SessionDataView)
    requires
        directory_wf(files),
    ensures
        directory_wf(with_record(files, record)),
        has_file(with_record(files, record), record.name),
        with_record(files, record)[file_index(with_record(files, record), record.name)].record
            == Some(record),
{
    let after = with_record(files, record);
    if has_file(files, record.name) {
        let k = file_index(files, record.name);
        assert(stem_at(files, record.name, k));
        assert(stem_at(after, record.name, k));
        assert forall|i: int, j: int| 0 <= i < j < after.len() implies (#[trigger] after[i]).stem
            != (#[trigger] after[j]).stem by {
            assert(files[i].stem != files[j].stem);
        }
        lemma_file_index(after, record.name, k);
    } else {
        let k = files.len() as int;
        assert(stem_at(after, record.name, k));
        assert forall|i: int, j: int| 0 <= i < j < after.len() implies (#[trigger] after[i]).stem
            != (#[trigger] after[j]).stem by {
            if j == k {
                assert(!stem_at(files, record.name, i));
            } else {
                assert(files[i].stem != files[j].stem);
            }
        }
        lemma_file_index(after, record.name, k);
    }
}

/// Removing a file keeps a directory well-formed, and afterwards the
/// directory holds no file of that name.
pub proof fn lemma_without_file_wf(files: Seq<SessionFileView>, name: Seq<char>)
    requires
        directory_wf(files),
    ensures
        directory_wf(without_file(files, name)),
        !has_file(without_file(files, name), name),
{
    let after = without_file(files, name);
    if has_file(files, name) {
        let k = file_index(files, name);
        assert(stem_at(files, name, k));
        assert forall|i: int, j: int| 0 <= i < j < after.len() implies (#[trigger] after[i]).stem
            != (#[trigger] after[j]).stem by {
            let a = if i < k { i } else { i + 1 };
            let b = if j < k { j } else { j + 1 };
            assert(files[a].stem != files[b].stem);
        }
        assert forall|i: int| !stem_at(after, name, i) by {
            if 0 <= i < after.len() {
                let a = if i < k { i } else { i + 1 };
                if files[a].stem == name {
                    lemma_file_index(files, name, a);
                }
            }
        }
    }
}

/// The store of named sessions.
///
/// It holds an image of the sessions directory and a journal of the file
/// actions that bring the directory on disk up to that image.
#[derive(Debug)]
pub struct SessionManager {
    sessions_dir: String,
    current_session_name: Option<String>,
    files: Vec<SessionFile>,
    journal: Vec<StoreAction>,
}

/// The record that `create_session_at` makes.
pub open spec fn created_record(
    name: Seq<char>,
    conversation_id: Seq<char>,
    store_id: Seq<char>,
    description: Option<Seq<char>>,
    preset: Option<Seq<char>>,
    now: u64,
) -> SessionDataView {
    SessionDataView {
        description,
        config_preset: preset,
        ..SessionDataView::fresh(name, conversation_id, store_id, now)
    }
}

/// What loading the session `name` at `now` yields: the stored record,
/// marked as accessed at `now`; or why there is none to yield.
pub open spec fn load_spec(files: Seq<SessionFileView>, name: Seq<char>, now: u64) -> Result<
    SessionDataView,
    SessionErrorView,
> {
    if !has_file(files, name) {
        Err(SessionErrorView::NotFound { name })
    } else {
        match files[file_index(files, name)].record {
            Some(record) => Ok(record.touched(now)),
            None => Err(SessionErrorView::Malformed { name }),
        }
    }
}

/// The view of what a load returned.
pub open spec fn loaded_view(r: Result<SessionData, SessionError>) -> Result<
    SessionDataView,
    SessionErrorView,
> {
    match r {
        Ok(record) => Ok(record.deep_view()),
        Err(e) => Err(e.deep_view()),
    }
}

/// The view of what an operation without a value returned.
pub open spec fn outcome_view(r: Result<(), SessionError>) -> Result<(), SessionErrorView> {
    match r {
        Ok(()) => Ok(()),
        Err(e) => Err(e.deep_view()),
    }
}

/// Path of the file that holds the session `name` below `dir`.
pub open spec fn session_path_spec(dir: Seq<char>, name: Seq<char>) -> Seq<char> {
    dir + "/"@ + name + ".json"@
}

/// Where an entry last accessed at `t` enters a listing: behind every entry
/// accessed at `t` or later.
pub open spec fn insertion_point(list: Seq<SessionInfoView>, t: u64) -> int
    decreases list.len(),
{
    if list.len() == 0 {
        0
    } else if list.last().last_accessed >= t {
        list.len() as int
    } else {
        insertion_point(list.drop_last(), t)
    }
}

/// The listing of a directory: its readable sessions, the most recently
/// accessed first; among sessions accessed at the same time, in directory
/// order. Files that hold no record are left out.
pub open spec fn listing_spec(files: Seq<SessionFileView>, dir: Seq<char>) -> Seq<SessionInfoView>
    decreases files.len(),
{
    if files.len() == 0 {
        Seq::empty()
    } else {
        let rest = listing_spec(files.drop_last(), dir);
        match files.last().record {
            Some(record) => {
                let info = SessionInfoView::of(record, session_path_spec(dir, files.last().stem));
                rest.insert(insertion_point(rest, info.last_accessed), info)
            },
            None => rest,
        }
    }
}

/// The readable sessions of a directory, in directory order.
pub open spec fn readable_sessions(files: Seq<SessionFileView>, dir: Seq<char>) -> Seq<
    SessionInfoView,
>
    decreases files.len(),
{
    if files.len() == 0 {
        Seq::empty()
    } else {
        let rest = readable_sessions(files.drop_last(), dir);
        match files.last().record {
            Some(record) => rest.push(
                SessionInfoView::of(record, session_path_spec(dir, files.last().stem)),
            ),
            None => rest,
        }
    }
}

/// Most recently accessed first.
pub open spec fn sorted_by_recency(list: Seq<SessionInfoView>) -> bool {
    forall|i: int, j: int|
        0 <= i < j < list.len() ==> (#[trigger] list[i]).last_accessed >= (
        #[trigger] list[j]).last_accessed
}

/// Whether cleaning deletes a listed session: it has been idle for more
/// than the given number of days, and it is not the default session. With
/// no number of days given, no session is deleted.
pub open spec fn is_stale(info: SessionInfoView, days: Option<u64>, now: u64) -> bool {
    &&& days is Some
    &&& older_than_days_spec(info.last_accessed, days.unwrap(), now)
    &&& info.name != DEFAULT_SESSION@
}

/// What cleaning does with the sessions of `listing`, taken in order: the
/// files that stay, and the names of the sessions deleted.
pub open spec fn clean_spec(
    files: Seq<SessionFileView>,
    listing: Seq<SessionInfoView>,
    days: Option<u64>,
    now: u64,
) -> (Seq<SessionFileView>, Seq<Seq<char>>)
    decreases listing.len(),
{
    if listing.len() == 0 {
        (files, Seq::empty())
    } else {
        let (kept, names) = clean_spec(files, listing.drop_last(), days, now);
        let info = listing.last();
        if is_stale(info, days, now) && has_file(kept, info.name) {
            (without_file(kept, info.name), names.push(info.name))
        } else {
            (kept, names)
        }
    }
}

/// The journal entries that remove the sessions `names`, in order.
pub open spec fn removals(names: Seq<Seq<char>>) -> Seq<StoreActionView> {
    Seq::new(names.len(), |i: int| StoreActionView::Remove { name: names[i] })
}

/// The insertion point lies within the listing; before it all entries are
/// accessed at `t` or later, from it on all are accessed earlier.
pub proof fn lemma_insertion_point(list: Seq<SessionInfoView>, t: u64)
    requires
        sorted_by_recency(list),
    ensures
        0 <= insertion_point(list, t) <= list.len(),
        forall|i: int| 0 <= i < insertion_point(list, t) ==> (#[trigger] list[i]).last_accessed >= t,
        forall|i: int|
            insertion_point(list, t) <= i < list.len() ==> (#[trigger] list[i]).last_accessed < t,
    decreases list.len(),
{
    if list.len() > 0 {
        if list.last().last_accessed >= t {
            assert forall|i: int| 0 <= i < list.len() implies (#[trigger] list[i]).last_accessed
                >= t by {
                if i < list.len() - 1 {
                    assert(list[i].last_accessed >= list[list.len() - 1].last_accessed);
                }
            }
        } else {
            let shorter = list.drop_last();
            assert forall|i: int, j: int| 0 <= i < j < shorter.len() implies (
            #[trigger] shorter[i]).last_accessed >= (#[trigger] shorter[j]).last_accessed by {
                assert(shorter[i] == list[i]);
                assert(shorter[j] == list[j]);
            }
            lemma_insertion_point(shorter, t);
            let p = insertion_point(shorter, t);
            assert forall|i: int| 0 <= i < p implies (#[trigger] list[i]).last_accessed >= t by {
                assert(shorter[i] == list[i]);
            }
            assert forall|i: int| p <= i < list.len() implies (#[trigger] list[i]).last_accessed
                < t by {
                if i < list.len() - 1 {
                    assert(shorter[i] == list[i]);
                }
            }
        }
    }
}

/// A listing shows the most recently accessed session first.
pub proof fn lemma_listing_sorted(files: Seq<SessionFileView>, dir: Seq<char>)
    ensures
        sorted_by_recency(listing_spec(files, dir)),
    decreases files.len(),
{
    if files.len() > 0 {
        let rest = listing_spec(files.drop_last(), dir);
        lemma_listing_sorted(files.drop_last(), dir);
        if let Some(record) = files.last().record {
            let info = SessionInfoView::of(record, session_path_spec(dir, files.last().stem));
            let p = insertion_point(rest, info.last_accessed);
            lemma_insertion_point(rest, info.last_accessed);
            let full = rest.insert(p, info);
            assert forall|i: int, j: int| 0 <= i < j < full.len() implies (
            #[trigger] full[i]).last_accessed >= (#[trigger] full[j]).last_accessed by {
                if i < p && j > p {
                    assert(full[i] == rest[i]);
                    assert(full[j] == rest[j - 1]);
                } else if i < p && j < p {
                    assert(full[i] == rest[i]);
                    assert(full[j] == rest[j]);
                } else if i > p {
                    assert(full[i] == rest[i - 1]);
                    assert(full[j] == rest[j - 1]);
                } else if i == p {
                    assert(full[j] == rest[j - 1]);
                } else {
                    assert(full[i] == rest[i]);
                }
            }
        }
    }
}

/// A listing shows each readable session of the directory, once for each
/// file that holds it, and nothing else.
pub proof fn lemma_listing_complete(files: Seq<SessionFileView>, dir: Seq<char>)
    ensures
        listing_spec(files, dir).to_multiset() == readable_sessions(files, dir).to_multiset(),
    decreases files.len(),
{
    if files.len() > 0 {
        let rest = listing_spec(files.drop_last(), dir);
        lemma_listing_complete(files.drop_last(), dir);
        lemma_listing_sorted(files.drop_last(), dir);
        if let Some(record) = files.last().record {
            let info = SessionInfoView::of(record, session_path_spec(dir, files.last().stem));
            lemma_insertion_point(rest, info.last_accessed);
            vstd::seq_lib::to_multiset_insert(rest, insertion_point(rest, info.last_accessed), info);
            vstd::seq_lib::to_multiset_build(readable_sessions(files.drop_last(), dir), info);
        }
    }
}

/// Cleaning never deletes the default session: its name is not among the
/// names deleted, and where the directory held it, it still does.
pub proof fn lemma_clean_keeps_default(
    files: Seq<SessionFileView>,
    listing: Seq<SessionInfoView>,
    days: Option<u64>,
    now: u64,
)
    requires
        directory_wf(files),
    ensures
        directory_wf(clean_spec(files, listing, days, now).0),
        forall|i: int|
            0 <= i < clean_spec(files, listing, days, now).1.len() ==> (#[trigger] clean_spec(
                files,
                listing,
                days,
                now,
            ).1[i]) != DEFAULT_SESSION@,
        has_file(files, DEFAULT_SESSION@) ==> has_file(
            clean_spec(files, listing, days, now).0,
            DEFAULT_SESSION@,
        ),
    decreases listing.len(),
{
    if listing.len() > 0 {
        let (kept, names) = clean_spec(files, listing.drop_last(), days, now);
        lemma_clean_keeps_default(files, listing.drop_last(), days, now);
        let info = listing.last();
        if is_stale(info, days, now) && has_file(kept, info.name) {
            lemma_without_file_wf(kept, info.name);
            lemma_without_file_keeps(kept, info.name, DEFAULT_SESSION@);
        }
    }
}

/// Removing one session's file leaves the files of the others.
pub proof fn lemma_without_file_keeps(
    files: Seq<SessionFileView>,
    name: Seq<char>,
    other: Seq<char>,
)
    requires
        directory_wf(files),
        name != other,
    ensures
        has_file(files, other) <==> has_file(without_file(files, name), other),
{
    let after = without_file(files, name);
    if has_file(files, name) {
        let k = file_index(files, name);
        assert(stem_at(files, name, k));
        if has_file(files, other) {
            let m = file_index(files, other);
            assert(stem_at(files, other, m));
            let a = if m < k { m } else { m - 1 };
            assert(stem_at(after, other, a));
        }
        if has_file(after, other) {
            let m = file_index(after, other);
            assert(stem_at(after, other, m));
            let a = if m < k { m } else { m + 1 };
            assert(stem_at(files, other, a));
        }
    }
}

/// The record that a legacy single-session record becomes:
/// the default session, with the migration note as its description.
pub open spec fn migrated_record(legacy: crate::persistence::SessionDataView) -> SessionDataView {
    SessionDataView {
        name: DEFAULT_SESSION@,
        conversation_id: legacy.conversation_id,
        store_id: legacy.store_id,
        created_at: legacy.created_at,
        last_accessed: legacy.last_accessed,
        description: Some(MIGRATION_NOTE@),
        config_preset: None,
        message_count: 0,
    }
}

/// The sessions directory as it lies on disk: the session files, and the
/// legacy single-session file.
pub ghost struct DirectoryView {
    pub files: Seq<SessionFileView>,
    pub legacy: LegacyFileView,
}

/// The directory after one file action has been done.
pub open spec fn apply_action(dir: DirectoryView, action: StoreActionView) -> DirectoryView {
    match action {
        StoreActionView::Write { record } => DirectoryView {
            files: with_record(dir.files, record),
            ..dir
        },
        StoreActionView::Remove { name } => DirectoryView {
            files: without_file(dir.files, name),
            ..dir
        },
        StoreActionView::RemoveLegacy => DirectoryView { legacy: LegacyFileView::Absent, ..dir },
    }
}

/// The directory after the file actions of a journal have been done, in
/// order.
pub open spec fn replay(dir: DirectoryView, actions: Seq<StoreActionView>) -> DirectoryView
    decreases actions.len(),
{
    if actions.len() == 0 {
        dir
    } else {
        apply_action(replay(dir, actions.drop_last()), actions.last())
    }
}

/// The session files after the file actions of a journal have been done.
pub open spec fn replay_files(files: Seq<SessionFileView>, actions: Seq<StoreActionView>) -> Seq<
    SessionFileView,
> {
    replay(DirectoryView { files, legacy: LegacyFileView::Absent }, actions).files
}

/// Replaying no action leaves the files; replaying one more action does
/// that action to what the others left.
pub proof fn lemma_replay_step(
    files: Seq<SessionFileView>,
    actions: Seq<StoreActionView>,
    action: StoreActionView,
)
    ensures
        replay_files(files, Seq::empty()) == files,
        replay_files(files, actions.push(action)) == apply_action(
            DirectoryView { files: replay_files(files, actions), legacy: LegacyFileView::Absent },
            action,
        ).files,
{
    let dir = DirectoryView { files, legacy: LegacyFileView::Absent };
    assert(actions.push(action).drop_last() =~= actions);
    lemma_replay_legacy(dir, actions);
}

/// Replaying a journal on a directory without a legacy file leaves it
/// without one.
pub proof fn lemma_replay_legacy(dir: DirectoryView, actions: Seq<StoreActionView>)
    requires
        dir.legacy == LegacyFileView::Absent,
    ensures
        replay(dir, actions).legacy == LegacyFileView::Absent,
    decreases actions.len(),
{
    if actions.len() > 0 {
        lemma_replay_legacy(dir, actions.drop_last());
    }
}

/// Replaying the removals that cleaning journals leaves the files that
/// cleaning keeps.
pub proof fn lemma_replay_clean(
    files: Seq<SessionFileView>,
    listing: Seq<SessionInfoView>,
    days: Option<u64>,
    now: u64,
)
    ensures
        replay_files(files, removals(clean_spec(files, listing, days, now).1)) == clean_spec(
            files,
            listing,
            days,
            now,
        ).0,
    decreases listing.len(),
{
    if listing.len() == 0 {
        assert(removals(Seq::empty()) =~= Seq::<StoreActionView>::empty());
    } else {
        let (kept, names) = clean_spec(files, listing.drop_last(), days, now);
        lemma_replay_clean(files, listing.drop_last(), days, now);
        let info = listing.last();
        if is_stale(info, days, now) && has_file(kept, info.name) {
            assert(removals(names.push(info.name)) =~= removals(names).push(
                StoreActionView::Remove { name: info.name },
            ));
            lemma_replay_step(files, removals(names), StoreActionView::Remove { name: info.name });
        }
    }
}

/// The file actions by which a migration carries the single-session file
/// over: none where there is no readable one; else the default session is
/// written and the file removed.
pub open spec fn migration_actions(legacy: LegacyFileView) -> Seq<StoreActionView> {
    match legacy {
        LegacyFileView::Present(record) => seq![
            StoreActionView::Write { record: migrated_record(record) },
            StoreActionView::RemoveLegacy,
        ],
        _ => Seq::empty(),
    }
}

/// Replaying the two actions of a migration writes the default session and
/// removes the single-session file.
pub proof fn lemma_replay_migration(
    dir: DirectoryView,
    record: crate::persistence::SessionDataView,
)
    ensures
        replay(dir, migration_actions(LegacyFileView::Present(record))) == (DirectoryView {
            files: with_record(dir.files, migrated_record(record)),
            legacy: LegacyFileView::Absent,
        }),
{
    let actions = migration_actions(LegacyFileView::Present(record));
    let first = seq![StoreActionView::Write { record: migrated_record(record) }];
    assert(actions.drop_last() =~= first);
    assert(first.drop_last() =~= Seq::<StoreActionView>::empty());
    assert(replay(dir, first.drop_last()) == dir);
    assert(replay(dir, first) == apply_action(dir, first.last()));
    assert(replay(dir, actions) == apply_action(replay(dir, first), actions.last()));
}

/// Migration runs once. From a directory with a readable single-session
/// file, migrating and replaying the journal leaves a directory without
/// that file, in which the default session holds the file's conversation
/// and store; where the directory held nothing else, the default session is
/// its one file. Migrating again from there decides on no file action, so
/// the directory stays as it is and the migration note is not applied twice.
pub proof fn lemma_migration_runs_once(
    dir: DirectoryView,
    record: crate::persistence::SessionDataView,
)
    requires
        directory_wf(dir.files),
        dir.legacy == LegacyFileView::Present(record),
    ensures
        ({
            let after = replay(dir, migration_actions(dir.legacy));
            &&& after.legacy == LegacyFileView::Absent
            &&& directory_wf(after.files)
            &&& has_file(after.files, DEFAULT_SESSION@)
            &&& after.files[file_index(after.files, DEFAULT_SESSION@)].record == Some(
                migrated_record(record),
            )
            &&& migrated_record(record).conversation_id == record.conversation_id
            &&& migrated_record(record).store_id == record.store_id
            &&& dir.files.len() == 0 ==> after.files == seq![
                SessionFileView {
                    stem: DEFAULT_SESSION@,
                    record: Some(migrated_record(record)),
                },
            ]
            &&& migration_actions(after.legacy) == Seq::<StoreActionView>::empty()
            &&& replay(after, migration_actions(after.legacy)) == after
        }),
{
    lemma_replay_migration(dir, record);
    lemma_with_record_wf(dir.files, migrated_record(record));
    let after = replay(dir, migration_actions(dir.legacy));
    if dir.files.len() == 0 {
        assert(!has_file(dir.files, DEFAULT_SESSION@));
        assert(after.files =~= seq![
            SessionFileView { stem: DEFAULT_SESSION@, record: Some(migrated_record(record)) },
        ]);
    }
}

/// The name a session is resolved to: the requested one where it exists,
/// else the default.
pub open spec fn resolved_name(files: Seq<SessionFileView>, requested: Option<Seq<char>>) -> Seq<
    char,
> {
    match requested {
        Some(name) => if has_file(files, name) {
            name
        } else {
            DEFAULT_SESSION@
        },
        None => DEFAULT_SESSION@,
    }
}

impl SessionManager {
    /// What `create_session_at` does: it refuses a name that is taken, and
    /// otherwise stores and returns the new record.
    pub open spec fn created(
        &self,
        before: &SessionManager,
        record: SessionDataView,
        r: Result<SessionData, SessionError>,
    ) -> bool {
        if has_file(before.files(), record.name) {
            &&& loaded_view(r) == Err::<SessionDataView, SessionErrorView>(
                SessionErrorView::AlreadyExists { name: record.name },
            )
            &&& self.unchanged(before)
        } else {
            &&& loaded_view(r) == Ok::<SessionDataView, SessionErrorView>(record)
            &&& self.advanced(
                before,
                before.files().push(SessionFileView { stem: record.name, record: Some(record) }),
                seq![StoreActionView::Write { record }],
            )
        }
    }

    /// What `rename_session_at` does. The default session is never renamed,
    /// a taken name is never overwritten, and a session that cannot be
    /// loaded is not renamed; otherwise the record is stored under the new
    /// name, accessed at `now`, and the old file is removed.
    pub open spec fn renamed(
        &self,
        before: &SessionManager,
        old_name: Seq<char>,
        new_name: Seq<char>,
        now: u64,
        r: Result<(), SessionError>,
    ) -> bool {
        if old_name == DEFAULT_SESSION@ {
            &&& outcome_view(r) == Err::<(), SessionErrorView>(SessionErrorView::IsDefaultSession)
            &&& self.unchanged(before)
        } else if has_file(before.files(), new_name) {
            &&& outcome_view(r) == Err::<(), SessionErrorView>(
                SessionErrorView::TargetExists { name: new_name },
            )
            &&& self.unchanged(before)
        } else {
            match load_spec(before.files(), old_name, now) {
                Err(e) => {
                    &&& outcome_view(r) == Err::<(), SessionErrorView>(e)
                    &&& self.unchanged(before)
                },
                Ok(record) => {
                    &&& r is Ok
                    &&& self.advanced(
                        before,
                        without_file(
                            with_record(before.files(), record.renamed(new_name)),
                            old_name,
                        ),
                        seq![
                            StoreActionView::Write { record: record.renamed(new_name) },
                            StoreActionView::Remove { name: old_name },
                        ],
                    )
                },
            }
        }
    }

    /// What `update_session_metadata_at` does: the stored record counts one
    /// more message and is accessed at `now`; a session that cannot be
    /// loaded is left as it is.
    pub open spec fn metadata_updated(
        &self,
        before: &SessionManager,
        name: Seq<char>,
        now: u64,
        r: Result<(), SessionError>,
    ) -> bool {
        match load_spec(before.files(), name, now) {
            Err(e) => {
                &&& outcome_view(r) == Err::<(), SessionErrorView>(e)
                &&& self.unchanged(before)
            },
            Ok(record) => {
                &&& r is Ok
                &&& self.advanced(
                    before,
                    with_record(before.files(), record.counted(now)),
                    seq![StoreActionView::Write { record: record.counted(now) }],
                )
            },
        }
    }

    /// The stored record of `name` can count one more message.
    pub open spec fn can_count(&self, name: Seq<char>) -> bool {
        has_file(self.files(), name) && self.files()[file_index(self.files(), name)].record is Some
            ==> self.files()[file_index(self.files(), name)].record.unwrap().message_count
            < u32::MAX
    }

    #[verifier::type_invariant]
    spec fn well_formed(&self) -> bool {
        directory_wf(self.files.deep_view())
    }

    /// The image of the sessions directory: its files, in directory order.
    pub closed spec fn files(&self) -> Seq<SessionFileView> {
        self.files.deep_view()
    }

    /// The file actions decided on and not yet taken away.
    pub closed spec fn journal(&self) -> Seq<StoreActionView> {
        self.journal.deep_view()
    }

    /// The path of the sessions directory.
    pub closed spec fn directory(&self) -> Seq<char> {
        self.sessions_dir@
    }

    /// The store stands as before: same directory, same files, same journal.
    pub open spec fn unchanged(&self, before: &SessionManager) -> bool {
        &&& self.directory() == before.directory()
        &&& self.files() == before.files()
        &&& self.journal() == before.journal()
    }

    /// The store has gone from `before` to the files `files`, and has added
    /// `actions` to its journal.
    pub open spec fn advanced(
        &self,
        before: &SessionManager,
        files: Seq<SessionFileView>,
        actions: Seq<StoreActionView>,
    ) -> bool {
        &&& self.directory() == before.directory()
        &&& self.files() == files
        &&& self.journal() == before.journal() + actions
    }

    /// The journal is faithful: it has grown from that of `before`, and
    /// doing the actions it has grown by to the files of `before` gives the
    /// files of the image. Whoever replays the journal on the directory
    /// has on disk what the store holds.
    pub open spec fn journal_replays(&self, before: &SessionManager) -> bool {
        &&& self.journal().len() >= before.journal().len()
        &&& self.journal().take(before.journal().len() as int) == before.journal()
        &&& self.files() == replay_files(
            before.files(),
            self.journal().skip(before.journal().len() as int),
        )
    }

    /// A store that has advanced by exactly the actions that bring about
    /// its new files has a faithful journal.
    pub proof fn lemma_advanced_replays(
        &self,
        before: &SessionManager,
        files: Seq<SessionFileView>,
        actions: Seq<StoreActionView>,
    )
        requires
            self.advanced(before, files, actions),
            replay_files(before.files(), actions) == files,
        ensures
            self.journal_replays(before),
    {
        let old_len = before.journal().len() as int;
        assert(self.journal().take(old_len) =~= before.journal());
        assert(self.journal().skip(old_len) =~= actions);
    }

    /// A store that stands as before has a faithful journal.
    pub proof fn lemma_unchanged_replays(&self, before: &SessionManager)
        requires
            self.unchanged(before),
        ensures
            self.journal_replays(before),
    {
        let old_len = before.journal().len() as int;
        assert(self.journal().take(old_len) =~= before.journal());
        assert(self.journal().skip(old_len) =~= Seq::<StoreActionView>::empty());
    }

    /// A store for the directory `sessions_dir`, with no file in it yet.
    pub fn new(sessions_dir: String) -> (r: Self)
        ensures
            r.directory() == sessions_dir@,
            r.files() == Seq::<SessionFileView>::empty(),
            r.journal() == Seq::<StoreActionView>::empty(),
    {
        let r = SessionManager {
            sessions_dir,
            current_session_name: None,
            files: Vec::new(),
            journal: Vec::new(),
        };
        assert(r.files.deep_view() =~= Seq::<SessionFileView>::empty());
        assert(r.journal.deep_view() =~= Seq::<StoreActionView>::empty());
        r
    }

    /// The image is a well-formed directory, always.
    pub fn check_well_formed(&self)
        ensures
            directory_wf(self.files()),
    {
        proof {
            use_type_invariant(self);
        }
    }

    pub fn default_session_name() -> (r: &'static str)
        ensures
            r@ == DEFAULT_SESSION@,
    {
        DEFAULT_SESSION
    }

    pub fn session_file_path(&self, name: &str) -> (r: String)
        ensures
            r@ == session_path_spec(self.directory(), name@),
    {
        let mut path = self.sessions_dir.clone();
        path.append("/");
        path.append(name);
        path.append(".json");
        path
    }

    /// Position of the file of the session `name`.
    fn find_file(&self, name: &str) -> (r: Option<usize>)
        ensures
            match r {
                Some(i) => stem_at(self.files(), name@, i as int) && file_index(
                    self.files(),
                    name@,
                ) == i,
                None => !has_file(self.files(), name@),
            },
    {
        proof {
            use_type_invariant(self);
        }
        let mut i: usize = 0;
        while i < self.files.len()
            invariant
                i <= self.files.len(),
                directory_wf(self.files.deep_view()),
                forall|j: int| 0 <= j < i ==> !stem_at(self.files.deep_view(), name@, j),
            decreases self.files.len() - i,
        {
            if str_eq(self.files[i].stem.as_str(), name) {
                proof {
                    lemma_file_index(self.files.deep_view(), name@, i as int);
                }
                return Some(i);
            }
            i += 1;
        }
        None
    }

    /// Takes the files out of the store, leaving it without any.
    fn take_files(&mut self) -> (r: Vec<SessionFile>)
        ensures
            r.deep_view() == old(self).files(),
            directory_wf(r.deep_view()),
            final(self).files() == Seq::<SessionFileView>::empty(),
            final(self).directory() == old(self).directory(),
            final(self).journal() == old(self).journal(),
    {
        proof {
            use_type_invariant(&*self);
        }
        let mut files: Vec<SessionFile> = Vec::new();
        assert(files.deep_view() =~= Seq::<SessionFileView>::empty());
        std::mem::swap(&mut self.files, &mut files);
        files
    }

    /// Puts files into the store, in place of those it holds.
    fn put_files(&mut self, files: Vec<SessionFile>)
        requires
            directory_wf(files.deep_view()),
        ensures
            final(self).files() == files.deep_view(),
            final(self).directory() == old(self).directory(),
            final(self).journal() == old(self).journal(),
    {
        let mut files = files;
        std::mem::swap(&mut self.files, &mut files);
    }

    /// Adds an action to the journal.
    fn record_action(&mut self, action: StoreAction)
        ensures
            final(self).advanced(old(self), old(self).files(), seq![action.deep_view()]),
    {
        proof {
            use_type_invariant(&*self);
        }
        let mut journal: Vec<StoreAction> = Vec::new();
        std::mem::swap(&mut self.journal, &mut journal);
        let ghost before = journal.deep_view();
        journal.push(action);
        assert(journal.deep_view() =~= before + seq![action.deep_view()]);
        std::mem::swap(&mut self.journal, &mut journal);
    }

    pub fn session_exists(&self, name: &str) -> (r: bool)
        ensures
            r == has_file(self.files(), name@),
    {
        self.find_file(name).is_some()
    }

    /// Takes a file found on disk into the image. A file whose name the
    /// image holds already is refused. A session's file is named after the
    /// session, so a file whose record carries another name than the file
    /// does not hold that session: it is taken in as a file without a
    /// readable record, which a listing leaves out and a load by name
    /// reports as malformed. The record is not loaded under either name.
    /// Nothing is written to the journal: the file is on disk already.
    pub fn register_file(&mut self, stem: String, record: Option<SessionData>) -> (r: bool)
        ensures
            r == !has_file(old(self).files(), stem@),
            !r ==> final(self).unchanged(old(self)),
            r ==> final(self).advanced(
                old(self),
                old(self).files().push(
                    SessionFileView {
                        stem: stem@,
                        record: match record.deep_view() {
                            Some(x) => if x.name == stem@ {
                                Some(x)
                            } else {
                                None
                            },
                            None => None,
                        },
                    },
                ),
                Seq::empty(),
            ),
    {
        proof {
            use_type_invariant(&*self);
        }
        if self.find_file(stem.as_str()).is_some() {
            return false;
        }
        let kept = match record {
            Some(x) => if x.name == stem {
                Some(x)
            } else {
                None
            },
            None => None,
        };
        let file = SessionFile { stem, record: kept };
        let ghost added = file.deep_view();
        let mut files = self.take_files();
        let ghost before = files.deep_view();
        files.push(file);
        proof {
            assert(files.deep_view() =~= before.push(added));
            assert forall|i: int, j: int| 0 <= i < j < before.push(added).len() implies (
            #[trigger] before.push(added)[i]).stem != (#[trigger] before.push(added)[j]).stem by {
                if j == before.len() {
                    assert(!stem_at(before, added.stem, i));
                }
            }
        }
        self.put_files(files);
        assert(self.journal() =~= old(self).journal() + Seq::empty());
        true
    }

    /// Writes `session_data` under its name, in place of what is there.
    pub fn save_session(&mut self, session_data: &SessionData)
        ensures
            final(self).advanced(
                old(self),
                with_record(old(self).files(), session_data.deep_view()),
                seq![StoreActionView::Write { record: session_data.deep_view() }],
            ),
            final(self).journal_replays(old(self)),
    {
        proof {
            use_type_invariant(&*self);
            lemma_with_record_wf(self.files.deep_view(), session_data.deep_view());
        }
        let file = SessionFile { stem: session_data.name.clone(), record: Some(session_data.clone()) };
        let ghost written = file.deep_view();
        let place = self.find_file(session_data.name.as_str());
        let mut files = self.take_files();
        let ghost before = files.deep_view();
        match place {
            Some(i) => {
                files[i] = file;
                assert(files.deep_view() =~= before.update(i as int, written));
            },
            None => {
                files.push(file);
                assert(files.deep_view() =~= before.push(written));
            },
        }
        self.put_files(files);
        self.record_action(StoreAction::Write { record: session_data.clone() });
        proof {
            let action = StoreActionView::Write { record: session_data.deep_view() };
            lemma_replay_step(old(self).files(), Seq::empty(), action);
            assert(Seq::<StoreActionView>::empty().push(action) =~= seq![action]);
            self.lemma_advanced_replays(
                old(self),
                with_record(old(self).files(), session_data.deep_view()),
                seq![action],
            );
        }
    }

    /// Takes the journal away, leaving it empty: the file actions decided on
    /// since it was last taken, in the order in which they are to be done.
    pub fn take_journal(&mut self) -> (r: Vec<StoreAction>)
        ensures
            r.deep_view() == old(self).journal(),
            final(self).directory() == old(self).directory(),
            final(self).files() == old(self).files(),
            final(self).journal() == Seq::<StoreActionView>::empty(),
    {
        proof {
            use_type_invariant(&*self);
        }
        let mut taken: Vec<StoreAction> = Vec::new();
        assert(taken.deep_view() =~= Seq::<StoreActionView>::empty());
        std::mem::swap(&mut self.journal, &mut taken);
        taken
    }

    /// Loads the session `name`, marking the returned record as accessed at
    /// the given time. The stored record stays as it is until it is saved.
    pub fn load_session_at(&self, name: &str, now: u64) -> (r: Result<SessionData, SessionError>)
        ensures
            loaded_view(r) == load_spec(self.files(), name@, now),
    {
        match self.find_file(name) {
            None => Err(SessionError::NotFound { name: name.to_owned() }),
            Some(i) => match &self.files[i].record {
                None => Err(SessionError::Malformed { name: name.to_owned() }),
                Some(stored) => {
                    let mut record = stored.clone();
                    record.update_access_time_at(now);
                    Ok(record)
                },
            },
        }
    }

    /// Loads the session `name`, marking the returned record as accessed
    /// now, by the system clock.
    pub fn load_session(&self, name: &str) -> (r: Result<SessionData, SessionError>)
        ensures
            exists|now: u64| loaded_view(r) == load_spec(self.files(), name@, now),
    {
        let now = current_time();
        self.load_session_at(name, now)
    }

    /// Creates the session `name` at the given time and stores it.
    pub fn create_session_at(
        &mut self,
        name: &str,
        conversation_id: String,
        store_id: String,
        description: Option<String>,
        preset: Option<String>,
        now: u64,
    ) -> (r: Result<SessionData, SessionError>)
        ensures
            final(self).created(
                old(self),
                created_record(
                    name@,
                    conversation_id@,
                    store_id@,
                    description.deep_view(),
                    preset.deep_view(),
                    now,
                ),
                r,
            ),
            final(self).journal_replays(old(self)),
    {
        if self.session_exists(name) {
            proof {
                self.lemma_unchanged_replays(old(self));
            }
            return Err(SessionError::AlreadyExists { name: name.to_owned() });
        }
        let mut session = SessionData::new_at(name.to_owned(), conversation_id, store_id, now);
        if let Some(desc) = description {
            session = session.with_description(desc);
        }
        if let Some(preset_name) = preset {
            session = session.with_preset(preset_name);
        }
        self.save_session(&session);
        Ok(session)
    }

    /// Creates the session `name` now, by the system clock, and stores it.
    pub fn create_session(
        &mut self,
        name: &str,
        conversation_id: String,
        store_id: String,
        description: Option<String>,
        preset: Option<String>,
    ) -> (r: Result<SessionData, SessionError>)
        ensures
            exists|now: u64|
                final(self).created(
                    old(self),
                    #[trigger] created_record(
                        name@,
                        conversation_id@,
                        store_id@,
                        description.deep_view(),
                        preset.deep_view(),
                        now,
                    ),
                    r,
                ),
            final(self).journal_replays(old(self)),
    {
        let now = current_time();
        self.create_session_at(name, conversation_id, store_id, description, preset, now)
    }

    /// Deletes the session `name`. The default session is never deleted,
    /// whatever the store holds.
    pub fn delete_session(&mut self, name: &str) -> (r: Result<(), SessionError>)
        ensures
            name@ == DEFAULT_SESSION@ ==> outcome_view(r) == Err::<(), SessionErrorView>(
                SessionErrorView::IsDefaultSession,
            ) && final(self).unchanged(old(self)),
            name@ != DEFAULT_SESSION@ && !has_file(old(self).files(), name@) ==> outcome_view(r)
                == Err::<(), SessionErrorView>(SessionErrorView::NotFound { name: name@ })
                && final(self).unchanged(old(self)),
            name@ != DEFAULT_SESSION@ && has_file(old(self).files(), name@) ==> r is Ok
                && final(self).advanced(
                old(self),
                without_file(old(self).files(), name@),
                seq![StoreActionView::Remove { name: name@ }],
            ),
            final(self).journal_replays(old(self)),
    {
        proof {
            self.lemma_unchanged_replays(old(self));
        }
        if str_eq(name, DEFAULT_SESSION) {
            return Err(SessionError::IsDefaultSession);
        }
        match self.find_file(name) {
            None => Err(SessionError::NotFound { name: name.to_owned() }),
            Some(i) => {
                let mut files = self.take_files();
                let ghost before = files.deep_view();
                let _ = files.remove(i);
                proof {
                    assert(files.deep_view() =~= before.remove(i as int));
                    lemma_without_file_wf(before, name@);
                }
                self.put_files(files);
                self.record_action(StoreAction::Remove { name: name.to_owned() });
                proof {
                    let action = StoreActionView::Remove { name: name@ };
                    lemma_replay_step(old(self).files(), Seq::empty(), action);
                    assert(Seq::<StoreActionView>::empty().push(action) =~= seq![action]);
                    self.lemma_advanced_replays(
                        old(self),
                        without_file(old(self).files(), name@),
                        seq![action],
                    );
                }
                Ok(())
            },
        }
    }

    /// Renames the session `old_name` to `new_name`, as of the given time.
    pub fn rename_session_at(&mut self, old_name: &str, new_name: &str, now: u64) -> (r: Result<
        (),
        SessionError,
    >)
        ensures
            final(self).renamed(old(self), old_name@, new_name@, now, r),
            final(self).journal_replays(old(self)),
    {
        proof {
            use_type_invariant(&*self);
            self.lemma_unchanged_replays(old(self));
        }
        if str_eq(old_name, DEFAULT_SESSION) {
            return Err(SessionError::IsDefaultSession);
        }
        if self.session_exists(new_name) {
            return Err(SessionError::TargetExists { name: new_name.to_owned() });
        }
        match self.load_session_at(old_name, now) {
            Err(e) => Err(e),
            Ok(loaded) => {
                let mut session_data = loaded;
                session_data.name = new_name.to_owned();
                self.save_session(&session_data);
                proof {
                    lemma_with_record_wf(old(self).files(), session_data.deep_view());
                    let mid = with_record(old(self).files(), session_data.deep_view());
                    let k = file_index(old(self).files(), old_name@);
                    assert(stem_at(old(self).files(), old_name@, k));
                    assert(stem_at(mid, old_name@, k));
                }
                let removed = self.delete_session(old_name);
                assert(removed is Ok);
                assert(self.journal() =~= old(self).journal() + seq![
                    StoreActionView::Write { record: session_data.deep_view() },
                    StoreActionView::Remove { name: old_name@ },
                ]);
                proof {
                    let write = StoreActionView::Write { record: session_data.deep_view() };
                    let remove = StoreActionView::Remove { name: old_name@ };
                    lemma_replay_step(old(self).files(), Seq::empty(), write);
                    lemma_replay_step(old(self).files(), seq![write], remove);
                    assert(Seq::<StoreActionView>::empty().push(write) =~= seq![write]);
                    assert(seq![write].push(remove) =~= seq![write, remove]);
                    self.lemma_advanced_replays(
                        old(self),
                        without_file(
                            with_record(old(self).files(), session_data.deep_view()),
                            old_name@,
                        ),
                        seq![write, remove],
                    );
                }
                Ok(())
            },
        }
    }

    /// Renames the session `old_name` to `new_name`, by the system clock.
    pub fn rename_session(&mut self, old_name: &str, new_name: &str) -> (r: Result<
        (),
        SessionError,
    >)
        ensures
            exists|now: u64| final(self).renamed(old(self), old_name@, new_name@, now, r),
            old_name@ == DEFAULT_SESSION@ ==> outcome_view(r) == Err::<(), SessionErrorView>(
                SessionErrorView::IsDefaultSession,
            ) && final(self).unchanged(old(self)),
            final(self).journal_replays(old(self)),
    {
        let now = current_time();
        self.rename_session_at(old_name, new_name, now)
    }

    /// The name of the session to use: the requested one where it exists,
    /// else the default.
    pub fn resolve_session_name(&self, requested_name: Option<&str>) -> (r: String)
        ensures
            r@ == resolved_name(
                self.files(),
                match requested_name {
                    Some(name) => Some(name@),
                    None => None,
                },
            ),
    {
        if let Some(name) = requested_name {
            if self.session_exists(name) {
                return name.to_owned();
            }
        }
        DEFAULT_SESSION.to_owned()
    }

    /// Counts one more message for the session `name`, as of the given time.
    pub fn update_session_metadata_at(&mut self, name: &str, now: u64) -> (r: Result<
        (),
        SessionError,
    >)
        requires
            old(self).can_count(name@),
        ensures
            final(self).metadata_updated(old(self), name@, now, r),
            final(self).journal_replays(old(self)),
    {
        proof {
            self.lemma_unchanged_replays(old(self));
        }
        match self.load_session_at(name, now) {
            Err(e) => Err(e),
            Ok(loaded) => {
                let mut session_data = loaded;
                session_data.increment_message_count_at(now);
                self.save_session(&session_data);
                Ok(())
            },
        }
    }

    /// Counts one more message for the session `name`, by the system clock.
    pub fn update_session_metadata(&mut self, name: &str) -> (r: Result<(), SessionError>)
        requires
            old(self).can_count(name@),
        ensures
            exists|now: u64| final(self).metadata_updated(old(self), name@, now, r),
            final(self).journal_replays(old(self)),
    {
        let now = current_time();
        self.update_session_metadata_at(name, now)
    }

    /// Carries the legacy single-session record over into the
    /// default session. With no such file nothing happens; an unreadable one
    /// is an error and nothing happens either. A record that is there is
    /// written as the default session, and the file is removed. Returns
    /// whether a record was carried over.
    pub fn migrate_legacy_session(&mut self, legacy: LegacyFile) -> (r: Result<bool, SessionError>)
        ensures
            final(self).journal() == old(self).journal() + migration_actions(legacy.deep_view()),
            final(self).files() == replay(
                DirectoryView { files: old(self).files(), legacy: legacy.deep_view() },
                migration_actions(legacy.deep_view()),
            ).files,
            final(self).journal_replays(old(self)),
            match legacy {
                LegacyFile::Absent => r == Ok::<bool, SessionError>(false)
                    && final(self).unchanged(old(self)),
                LegacyFile::Unreadable => r == Err::<bool, SessionError>(
                    SessionError::LegacyMalformed,
                ) && final(self).unchanged(old(self)),
                LegacyFile::Present(record) => r == Ok::<bool, SessionError>(true)
                    && final(self).advanced(
                    old(self),
                    with_record(old(self).files(), migrated_record(record.deep_view())),
                    seq![
                        StoreActionView::Write { record: migrated_record(record.deep_view()) },
                        StoreActionView::RemoveLegacy,
                    ],
                ),
            },
    {
        proof {
            assert(self.journal() + Seq::<StoreActionView>::empty() =~= self.journal());
            self.lemma_unchanged_replays(old(self));
            if let LegacyFileView::Present(record) = legacy.deep_view() {
                lemma_replay_migration(
                    DirectoryView { files: self.files(), legacy: legacy.deep_view() },
                    record,
                );
            }
        }
        match legacy {
            LegacyFile::Absent => Ok(false),
            LegacyFile::Unreadable => Err(SessionError::LegacyMalformed),
            LegacyFile::Present(record) => {
                let new_session = SessionData {
                    name: DEFAULT_SESSION.to_owned(),
                    conversation_id: record.conversation_id,
                    store_id: record.store_id,
                    created_at: record.created_at,
                    last_accessed: record.last_accessed,
                    description: Some(MIGRATION_NOTE.to_owned()),
                    config_preset: None,
                    message_count: 0,
                };
                self.save_session(&new_session);
                self.record_action(StoreAction::RemoveLegacy);
                assert(self.journal() =~= old(self).journal() + seq![
                    StoreActionView::Write { record: new_session.deep_view() },
                    StoreActionView::RemoveLegacy,
                ]);
                proof {
                    let write = StoreActionView::Write { record: new_session.deep_view() };
                    lemma_replay_step(old(self).files(), Seq::empty(), write);
                    lemma_replay_step(old(self).files(), seq![write], StoreActionView::RemoveLegacy);
                    assert(Seq::<StoreActionView>::empty().push(write) =~= seq![write]);
                    assert(seq![write].push(StoreActionView::RemoveLegacy) =~= seq![
                        write,
                        StoreActionView::RemoveLegacy,
                    ]);
                    self.lemma_advanced_replays(
                        old(self),
                        with_record(old(self).files(), new_session.deep_view()),
                        seq![write, StoreActionView::RemoveLegacy],
                    );
                }
                Ok(true)
            },
        }
    }

    /// What `clean_sessions_at` does. A dry run changes nothing and names
    /// nothing; otherwise the listed sessions are taken in order, and each
    /// one that is stale is deleted and named.
    pub open spec fn cleaned(
        &self,
        before: &SessionManager,
        older_than_days: Option<u64>,
        dry_run: bool,
        now: u64,
        r: Seq<Seq<char>>,
    ) -> bool {
        if dry_run {
            r == Seq::<Seq<char>>::empty() && self.unchanged(before)
        } else {
            let outcome = clean_spec(
                before.files(),
                listing_spec(before.files(), before.directory()),
                older_than_days,
                now,
            );
            r == outcome.1 && self.advanced(before, outcome.0, removals(outcome.1))
        }
    }

    /// Lists the readable sessions, the most recently accessed first. A file
    /// that holds no record is left out.
    pub fn list_sessions(&self) -> (r: Vec<SessionInfo>)
        ensures
            r.deep_view() == listing_spec(self.files(), self.directory()),
            sorted_by_recency(r.deep_view()),
            r.deep_view().to_multiset() == readable_sessions(
                self.files(),
                self.directory(),
            ).to_multiset(),
    {
        let ghost files = self.files.deep_view();
        let ghost dir = self.sessions_dir@;
        let mut sessions: Vec<SessionInfo> = Vec::new();
        let mut i: usize = 0;
        assert(files.take(0) =~= Seq::<SessionFileView>::empty());
        assert(sessions.deep_view() =~= Seq::<SessionInfoView>::empty());
        while i < self.files.len()
            invariant
                i <= self.files.len(),
                files == self.files.deep_view(),
                dir == self.sessions_dir@,
                dir == self.directory(),
                sessions.deep_view() == listing_spec(files.take(i as int), dir),
            decreases self.files.len() - i,
        {
            let ghost listed = sessions.deep_view();
            proof {
                assert(files.take(i + 1).drop_last() =~= files.take(i as int));
                assert(files.take(i + 1).last() == files[i as int]);
            }
            match &self.files[i].record {
                Some(record) => {
                    let path = self.session_file_path(self.files[i].stem.as_str());
                    let info = SessionInfo::from_session_data(record, path);
                    let mut at: usize = sessions.len();
                    assert(listed.take(at as int) =~= listed);
                    while at > 0 && sessions[at - 1].last_accessed < info.last_accessed
                        invariant
                            at <= sessions.len(),
                            listed == sessions.deep_view(),
                            insertion_point(listed, info.last_accessed) == insertion_point(
                                listed.take(at as int),
                                info.last_accessed,
                            ),
                        decreases at,
                    {
                        proof {
                            assert(listed.take(at as int).drop_last() =~= listed.take(at - 1));
                            assert(listed.take(at as int).last() == listed[at - 1]);
                        }
                        at -= 1;
                    }
                    proof {
                        if at > 0 {
                            assert(listed.take(at as int).last() == listed[at - 1]);
                        }
                        assert(insertion_point(listed, info.last_accessed) == at);
                    }
                    let ghost entered = info.deep_view();
                    sessions.insert(at, info);
                    assert(sessions.deep_view() =~= listed.insert(at as int, entered));
                },
                None => {},
            }
            i += 1;
        }
        proof {
            assert(files.take(i as int) =~= files);
            lemma_listing_sorted(files, dir);
            lemma_listing_complete(files, dir);
        }
        sessions
    }

    /// Deletes the sessions that, at the given time, have been idle for more
    /// than `older_than_days` days, and returns their names. The default
    /// session is never deleted, however old. A dry run deletes nothing and
    /// returns no name.
    pub fn clean_sessions_at(&mut self, older_than_days: Option<u64>, dry_run: bool, now: u64) -> (r:
        Vec<String>)
        ensures
            final(self).cleaned(old(self), older_than_days, dry_run, now, r.deep_view()),
            forall|i: int| 0 <= i < r.len() ==> (#[trigger] r.deep_view()[i]) != DEFAULT_SESSION@,
            has_file(old(self).files(), DEFAULT_SESSION@) ==> has_file(
                final(self).files(),
                DEFAULT_SESSION@,
            ),
            final(self).journal_replays(old(self)),
    {
        proof {
            use_type_invariant(&*self);
            self.lemma_unchanged_replays(old(self));
        }
        let sessions = self.list_sessions();
        let mut deleted: Vec<String> = Vec::new();
        assert(deleted.deep_view() =~= Seq::<Seq<char>>::empty());
        if dry_run {
            return deleted;
        }
        let ghost start = old(self).files();
        let ghost journal = old(self).journal();
        let ghost listing = sessions.deep_view();
        let mut k: usize = 0;
        proof {
            assert(listing.take(0) =~= Seq::<SessionInfoView>::empty());
            assert(self.journal() =~= journal + removals(deleted.deep_view()));
        }
        while k < sessions.len()
            invariant
                k <= sessions.len(),
                listing == sessions.deep_view(),
                self.directory() == old(self).directory(),
                (self.files(), deleted.deep_view()) == clean_spec(
                    start,
                    listing.take(k as int),
                    older_than_days,
                    now,
                ),
                self.journal() == journal + removals(deleted.deep_view()),
            decreases sessions.len() - k,
        {
            proof {
                assert(listing.take(k + 1).drop_last() =~= listing.take(k as int));
                assert(listing.take(k + 1).last() == listing[k as int]);
            }
            let session = &sessions[k];
            let should_delete = match older_than_days {
                Some(days) => session.is_older_than_days_at(days, now),
                None => false,
            };
            if should_delete && !str_eq(session.name.as_str(), DEFAULT_SESSION) {
                let ghost names = deleted.deep_view();
                let ghost logged = self.journal();
                match self.delete_session(session.name.as_str()) {
                    Ok(_) => {
                        deleted.push(session.name.clone());
                        proof {
                            assert(deleted.deep_view() =~= names.push(session.name@));
                            assert(removals(names.push(session.name@)) =~= removals(names) + seq![
                                StoreActionView::Remove { name: session.name@ },
                            ]);
                            assert(self.journal() =~= journal + removals(deleted.deep_view()));
                        }
                    },
                    Err(_) => {},
                }
            }
            k += 1;
        }
        proof {
            assert(listing.take(k as int) =~= listing);
            lemma_clean_keeps_default(start, listing, older_than_days, now);
            lemma_replay_clean(start, listing, older_than_days, now);
            let outcome = clean_spec(start, listing, older_than_days, now);
            self.lemma_advanced_replays(old(self), outcome.0, removals(outcome.1));
        }
        deleted
    }

    /// Deletes the sessions that have been idle for more than
    /// `older_than_days` days by the system clock, and returns their names.
    pub fn clean_sessions(&mut self, older_than_days: Option<u64>, dry_run: bool) -> (r: Vec<String>)
        ensures
            exists|now: u64|
                final(self).cleaned(old(self), older_than_days, dry_run, now, r.deep_view()),
            forall|i: int| 0 <= i < r.len() ==> (#[trigger] r.deep_view()[i]) != DEFAULT_SESSION@,
            has_file(old(self).files(), DEFAULT_SESSION@) ==> has_file(
                final(self).files(),
                DEFAULT_SESSION@,
            ),
            final(self).journal_replays(old(self)),
    {
        let now = current_time();
        self.clean_sessions_at(older_than_days, dry_run, now)
    }
}

} // verus!
