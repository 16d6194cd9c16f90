//! The configuration directory and where its parts lie.
//!
//! Paths are strings with `/` between their segments. What exists on disk
//! is not looked up here: it is handed in as a [`PathProbe`].

use vstd::prelude::*;
use vstd::string::*;
use crate::config::{last_segment_start, lemma_last_segment_start};
use crate::text::{names_in_order, sort_names, sorted_names, str_eq};

verus! {

/// Name of the configuration directory.
pub const TH_CHAT_DIR: &'static str = ".th-chat";

/// Name of the configuration file.
pub const CONFIG_FILE: &'static str = "config.json";

/// Name of the subdirectory of sessions.
pub const SESSIONS_DIR: &'static str = "sessions";

/// Name of the subdirectory of presets.
pub const PRESETS_DIR: &'static str = "presets";

/// Name of the subdirectory of tool server configurations.
pub const MCP_DIR: &'static str = "mcp";

/// The path of `name` below `dir`: the name alone below the empty path,
/// else the directory, a slash unless it ends in one, and the name.
pub open spec fn join_spec(dir: Seq<char>, name: Seq<char>) -> Seq<char> {
    if dir.len() == 0 {
        name
    } else if dir.last() == '/' {
        dir + name
    } else {
        dir + seq!['/'] + name
    }
}

/// The path one level up: none for the empty path and for the root, the
/// empty path for a single segment, the root for a segment below the root,
/// else what stands before the last slash.
pub open spec fn parent_spec(path: Seq<char>) -> Option<Seq<char>> {
    let start = last_segment_start(path);
    if path.len() == 0 || path == seq!['/'] {
        None
    } else if start == 0 {
        Some(Seq::empty())
    } else if start == 1 {
        Some(seq!['/'])
    } else {
        Some(path.subrange(0, start - 1))
    }
}

pub fn join_path(dir: &str, name: &str) -> (r: String)
    ensures
        r@ == join_spec(dir@, name@),
{
    let len = dir.unicode_len();
    if len == 0 {
        return name.to_owned();
    }
    let mut path = dir.to_owned();
    if dir.get_char(len - 1) != '/' {
        proof {
            reveal_strlit("/");
            assert("/"@ =~= seq!['/']);
        }
        path.append("/");
    }
    path.append(name);
    path
}

pub fn parent_path(path: &str) -> (r: Option<String>)
    ensures
        r.deep_view() == parent_spec(path@),
        r is Some ==> r.unwrap()@.len() < path@.len(),
{
    proof {
        reveal_strlit("/");
        assert("/"@ =~= seq!['/']);
        reveal_strlit("");
        assert(""@ =~= Seq::<char>::empty());
        lemma_last_segment_start(path@);
    }
    let len = path.unicode_len();
    if len == 0 || str_eq(path, "/") {
        return None;
    }
    let mut at: usize = len;
    assert(path@.take(at as int) =~= path@);
    while at > 0 && path.get_char(at - 1) != '/'
        invariant
            at <= len,
            len == path@.len(),
            last_segment_start(path@) == last_segment_start(path@.take(at as int)),
        decreases at,
    {
        proof {
            assert(path@.take(at as int).drop_last() =~= path@.take(at - 1));
            assert(path@.take(at as int).last() == path@[at - 1]);
        }
        at -= 1;
    }
    proof {
        if at > 0 {
            assert(path@.take(at as int).last() == path@[at - 1]);
        }
        if at == 1 && len == 1 {
            assert(path@ =~= seq!['/']);
        }
    }
    if at == 0 {
        Some("".to_owned())
    } else if at == 1 {
        Some("/".to_owned())
    } else {
        Some(path.substring_char(0, at - 1).to_owned())
    }
}

/// What is known to exist on disk: directories and plain files, by path.
#[derive(Debug, PartialEq, Eq)]
pub struct PathProbe {
    pub dirs: Vec<String>,
    pub files: Vec<String>,
}

/// Whether `path` is among `paths`.
pub open spec fn listed(paths: Seq<Seq<char>>, path: Seq<char>) -> bool {
    exists|i: int| 0 <= i < paths.len() && #[trigger] paths[i] == path
}

fn is_listed(paths: &Vec<String>, path: &str) -> (r: bool)
    ensures
        r == listed(paths.deep_view(), path@),
{
    let mut i: usize = 0;
    while i < paths.len()
        invariant
            i <= paths.len(),
            forall|j: int| 0 <= j < i ==> #[trigger] paths.deep_view()[j] != path@,
        decreases paths.len() - i,
    {
        if str_eq(paths[i].as_str(), path) {
            assert(paths.deep_view()[i as int] == path@);
            return true;
        }
        i += 1;
    }
    false
}

impl PathProbe {
    pub fn is_dir(&self, path: &str) -> (r: bool)
        ensures
            r == listed(self.dirs.deep_view(), path@),
    {
        is_listed(&self.dirs, path)
    }

    pub fn is_file(&self, path: &str) -> (r: bool)
        ensures
            r == listed(self.files.deep_view(), path@),
    {
        is_listed(&self.files, path)
    }
}

/// A configuration directory and the places of its parts.
#[derive(Debug, PartialEq, Eq)]
pub struct ThChatDirectory {
    /// Path of the directory itself.
    pub root: String,
    /// Path of the configuration file.
    pub config_file: String,
    /// Path of the subdirectory of sessions.
    pub sessions_dir: String,
    /// Path of the subdirectory of presets.
    pub presets_dir: String,
    /// Path of the subdirectory of tool server configurations.
    pub mcp_dir: String,
}

pub ghost struct ThChatDirectoryView {
    pub root: Seq<char>,
    pub config_file: Seq<char>,
    pub sessions_dir: Seq<char>,
    pub presets_dir: Seq<char>,
    pub mcp_dir: Seq<char>,
}

impl ThChatDirectoryView {
    /// The configuration directory at `root`.
    pub open spec fn at(root: Seq<char>) -> ThChatDirectoryView {
        ThChatDirectoryView {
            root,
            config_file: join_spec(root, CONFIG_FILE@),
            sessions_dir: join_spec(root, SESSIONS_DIR@),
            presets_dir: join_spec(root, PRESETS_DIR@),
            mcp_dir: join_spec(root, MCP_DIR@),
        }
    }
}

impl DeepView for ThChatDirectory {
    type V = ThChatDirectoryView;

    open spec fn deep_view(&self) -> ThChatDirectoryView {
        ThChatDirectoryView {
            root: self.root@,
            config_file: self.config_file@,
            sessions_dir: self.sessions_dir@,
            presets_dir: self.presets_dir@,
            mcp_dir: self.mcp_dir@,
        }
    }
}

impl Clone for ThChatDirectory {
    fn clone(&self) -> (r: Self)
        ensures
            r.deep_view() == self.deep_view(),
    {
        ThChatDirectory {
            root: self.root.clone(),
            config_file: self.config_file.clone(),
            sessions_dir: self.sessions_dir.clone(),
            presets_dir: self.presets_dir.clone(),
            mcp_dir: self.mcp_dir.clone(),
        }
    }
}

/// Path of the file `<name>.json` below `dir`.
pub open spec fn json_file_spec(dir: Seq<char>, name: Seq<char>) -> Seq<char> {
    join_spec(dir, name + ".json"@)
}

fn json_file(dir: &str, name: &str) -> (r: String)
    ensures
        r@ == json_file_spec(dir@, name@),
{
    let mut file = name.to_owned();
    file.append(".json");
    join_path(dir, file.as_str())
}

impl ThChatDirectory {
    /// The configuration directory at `root`.
    pub fn new(root: String) -> (r: Self)
        ensures
            r.deep_view() == ThChatDirectoryView::at(root@),
    {
        let config_file = join_path(root.as_str(), CONFIG_FILE);
        let sessions_dir = join_path(root.as_str(), SESSIONS_DIR);
        let presets_dir = join_path(root.as_str(), PRESETS_DIR);
        let mcp_dir = join_path(root.as_str(), MCP_DIR);
        ThChatDirectory { root, config_file, sessions_dir, presets_dir, mcp_dir }
    }

    /// The directories that make up the configuration directory, in the
    /// order in which they are to be created: the directory itself, then
    /// those of sessions, presets and tool server configurations.
    pub fn create_plan(&self) -> (r: Vec<String>)
        ensures
            r.deep_view() == seq![
                self.root@,
                self.sessions_dir@,
                self.presets_dir@,
                self.mcp_dir@,
            ],
    {
        let mut dirs: Vec<String> = Vec::new();
        dirs.push(self.root.clone());
        dirs.push(self.sessions_dir.clone());
        dirs.push(self.presets_dir.clone());
        dirs.push(self.mcp_dir.clone());
        assert(dirs.deep_view() =~= seq![
            self.root@,
            self.sessions_dir@,
            self.presets_dir@,
            self.mcp_dir@,
        ]);
        dirs
    }

    /// Whether the directory exists, by what is known of the disk.
    pub fn dir_exists(&self, probe: &PathProbe) -> (r: bool)
        ensures
            r == listed(probe.dirs.deep_view(), self.root@),
    {
        probe.is_dir(self.root.as_str())
    }

    /// Whether the configuration file exists, by what is known of the disk.
    pub fn has_config(&self, probe: &PathProbe) -> (r: bool)
        ensures
            r == listed(probe.files.deep_view(), self.config_file@),
    {
        probe.is_file(self.config_file.as_str())
    }

    /// Path of the file of a session.
    pub fn session_file(&self, conversation_id: &str) -> (r: String)
        ensures
            r@ == json_file_spec(self.sessions_dir@, conversation_id@),
    {
        json_file(self.sessions_dir.as_str(), conversation_id)
    }

    /// Path of the file of a preset.
    pub fn preset_file(&self, preset_name: &str) -> (r: String)
        ensures
            r@ == json_file_spec(self.presets_dir@, preset_name@),
    {
        json_file(self.presets_dir.as_str(), preset_name)
    }
}

/// An entry of a directory, as far as a listing reads it.
#[derive(Debug, PartialEq, Eq)]
pub struct DirEntry {
    /// The entry's name, without the directory.
    pub name: String,
    /// Whether the entry is a plain file.
    pub is_file: bool,
}

pub ghost struct DirEntryView {
    pub name: Seq<char>,
    pub is_file: bool,
}

impl DeepView for DirEntry {
    type V = DirEntryView;

    open spec fn deep_view(&self) -> DirEntryView {
        DirEntryView { name: self.name@, is_file: self.is_file }
    }
}

/// The extension of the files that hold sessions and presets, dot included.
pub const JSON_SUFFIX: &'static str = ".json";

/// What stands before `.json` in a file name that ends so and has something
/// before it; none for any other name.
pub open spec fn json_stem_spec(name: Seq<char>) -> Option<Seq<char>> {
    if name.len() > JSON_SUFFIX@.len() && name.subrange(
        name.len() - JSON_SUFFIX@.len(),
        name.len() as int,
    ) == JSON_SUFFIX@ {
        Some(name.subrange(0, name.len() - JSON_SUFFIX@.len()))
    } else {
        None
    }
}

pub fn json_stem(name: &str) -> (r: Option<String>)
    ensures
        r.deep_view() == json_stem_spec(name@),
{
    proof {
        reveal_strlit(".json");
    }
    let len = name.unicode_len();
    let suffix_len = JSON_SUFFIX.unicode_len();
    if len > suffix_len && str_eq(name.substring_char(len - suffix_len, len), JSON_SUFFIX) {
        Some(name.substring_char(0, len - suffix_len).to_owned())
    } else {
        None
    }
}

/// The names under which the plain `.json` files among `entries` are
/// known, in directory order.
pub open spec fn json_stems(entries: Seq<DirEntryView>) -> Seq<Seq<char>>
    decreases entries.len(),
{
    if entries.len() == 0 {
        Seq::empty()
    } else {
        let rest = json_stems(entries.drop_last());
        let entry = entries.last();
        if entry.is_file && json_stem_spec(entry.name) is Some {
            rest.push(json_stem_spec(entry.name).unwrap())
        } else {
            rest
        }
    }
}

/// The names under which the plain `.json` files among `entries` are
/// known, sorted.
pub fn list_json_names(entries: &Vec<DirEntry>) -> (r: Vec<String>)
    ensures
        r.deep_view() == sorted_names(json_stems(entries.deep_view())),
        names_in_order(r.deep_view()),
{
    let ghost given = entries.deep_view();
    let mut found: Vec<String> = Vec::new();
    let mut i: usize = 0;
    assert(given.take(0) =~= Seq::<DirEntryView>::empty());
    assert(found.deep_view() =~= Seq::<Seq<char>>::empty());
    while i < entries.len()
        invariant
            i <= entries.len(),
            given == entries.deep_view(),
            found.deep_view() == json_stems(given.take(i as int)),
        decreases entries.len() - i,
    {
        proof {
            assert(given.take(i + 1).drop_last() =~= given.take(i as int));
            assert(given.take(i + 1).last() == given[i as int]);
        }
        if entries[i].is_file {
            if let Some(stem) = json_stem(entries[i].name.as_str()) {
                let ghost before = found.deep_view();
                found.push(stem);
                assert(found.deep_view() =~= before.push(stem@));
            }
        }
        i += 1;
    }
    assert(given.take(i as int) =~= given);
    sort_names(&found)
}

impl ThChatDirectory {
    /// The presets of the directory, sorted by name, from the entries of
    /// its subdirectory of presets.
    pub fn list_presets(&self, entries: &Vec<DirEntry>) -> (r: Vec<String>)
        ensures
            r.deep_view() == sorted_names(json_stems(entries.deep_view())),
            names_in_order(r.deep_view()),
    {
        list_json_names(entries)
    }

    /// The sessions of the directory, sorted by name, from the entries of
    /// its subdirectory of sessions.
    pub fn list_sessions(&self, entries: &Vec<DirEntry>) -> (r: Vec<String>)
        ensures
            r.deep_view() == sorted_names(json_stems(entries.deep_view())),
            names_in_order(r.deep_view()),
    {
        list_json_names(entries)
    }
}

/// The root of the configuration directory that a search from `start`
/// upwards finds: that of the nearest level, `start` included, at which the
/// directory exists.
pub open spec fn found_root(start: Seq<char>, dirs: Seq<Seq<char>>) -> Option<Seq<char>>
    decreases start.len(),
{
    let candidate = join_spec(start, TH_CHAT_DIR@);
    if listed(dirs, candidate) {
        Some(candidate)
    } else {
        match parent_spec(start) {
            Some(parent) => if parent.len() < start.len() {
                found_root(parent, dirs)
            } else {
                None
            },
            None => None,
        }
    }
}

/// Searches for a configuration directory from `start_path` upwards.
pub fn find_th_chat_dir_from(start_path: &str, probe: &PathProbe) -> (r: Option<ThChatDirectory>)
    ensures
        match found_root(start_path@, probe.dirs.deep_view()) {
            Some(root) => r is Some && r.unwrap().deep_view() == ThChatDirectoryView::at(root),
            None => r is None,
        },
{
    let mut current = start_path.to_owned();
    loop
        invariant
            found_root(current@, probe.dirs.deep_view()) == found_root(
                start_path@,
                probe.dirs.deep_view(),
            ),
        decreases current@.len(),
    {
        let candidate = join_path(current.as_str(), TH_CHAT_DIR);
        if probe.is_dir(candidate.as_str()) {
            return Some(ThChatDirectory::new(candidate));
        }
        match parent_path(current.as_str()) {
            Some(parent) => {
                current = parent;
            },
            None => {
                return None;
            },
        }
    }
}

} // verus!
