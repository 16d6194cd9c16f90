//! Which configuration is in force: an explicit file, a named preset, the
//! project's, the user's, or the built-in one, in that order.

use vstd::prelude::*;
use vstd::string::*;
use crate::directory::{
    json_file_spec, listed, DirEntry, PathProbe, ThChatDirectory, ThChatDirectoryView,
};
use crate::text::{clone_strings, names_in_order, sort_names, sorted_names, str_eq};

verus! {

/// The model a conversation uses, and who provides it.
#[derive(Debug, PartialEq, Eq)]
pub struct ModelConfig {
    pub model: String,
    pub provider: String,
}

/// How a tool server is started.
#[derive(Debug, PartialEq, Eq)]
pub struct McpConfig {
    pub command: String,
    pub args: Vec<String>,
}

impl Clone for ModelConfig {
    fn clone(&self) -> (r: Self)
        ensures
            r.model@ == self.model@,
            r.provider@ == self.provider@,
    {
        ModelConfig { model: self.model.clone(), provider: self.provider.clone() }
    }
}

impl Clone for McpConfig {
    fn clone(&self) -> (r: Self)
        ensures
            r.command@ == self.command@,
            r.args.deep_view() == self.args.deep_view(),
    {
        McpConfig { command: self.command.clone(), args: clone_strings(&self.args) }
    }
}

/// Model of the built-in configuration.
pub const DEFAULT_MODEL: &'static str = "gemini-2.5-flash-preview-04-17";

/// Provider of the built-in configuration.
pub const DEFAULT_PROVIDER: &'static str = "google";

/// Title of the built-in configuration.
pub const DEFAULT_TITLE: &'static str = "CLI Chat";

/// Token limit of the built-in configuration.
pub const DEFAULT_MAX_TOKENS: u32 = 65535;

/// Command of the file-system tool server of the built-in configuration.
pub const DEFAULT_MCP_COMMAND: &'static str =
    "/Users/colinrozzi/work/mcp-servers/simple-fs-mcp/target/release/simple-fs-mcp-server";

impl ModelConfig {
    /// The model of the built-in configuration.
    pub fn builtin() -> (r: ModelConfig)
        ensures
            r.model@ == DEFAULT_MODEL@,
            r.provider@ == DEFAULT_PROVIDER@,
    {
        ModelConfig { model: DEFAULT_MODEL.to_owned(), provider: DEFAULT_PROVIDER.to_owned() }
    }
}

impl McpConfig {
    /// The file-system tool server of the built-in configuration, allowed
    /// to work below `dir`.
    pub fn builtin(dir: String) -> (r: McpConfig)
        ensures
            r.command@ == DEFAULT_MCP_COMMAND@,
            r.args.deep_view() == seq!["--allowed-dirs"@, dir@],
    {
        let mut args: Vec<String> = Vec::new();
        args.push("--allowed-dirs".to_owned());
        args.push(dir);
        assert(args.deep_view() =~= seq!["--allowed-dirs"@, dir@]);
        McpConfig { command: DEFAULT_MCP_COMMAND.to_owned(), args }
    }
}

/// Where a configuration comes from.
#[derive(Debug, PartialEq, Eq)]
pub enum ConfigSource {
    /// The built-in configuration.
    Default,
    /// The configuration file of the user's directory.
    Global(ThChatDirectory),
    /// The configuration file of the project's directory.
    Local(ThChatDirectory),
    /// A named preset of a directory.
    Preset { directory: ThChatDirectory, name: String },
    /// An explicit configuration file.
    File(String),
}

pub ghost enum ConfigSourceView {
    Default,
    Global(ThChatDirectoryView),
    Local(ThChatDirectoryView),
    Preset { directory: ThChatDirectoryView, name: Seq<char> },
    File(Seq<char>),
}

impl DeepView for ConfigSource {
    type V = ConfigSourceView;

    open spec fn deep_view(&self) -> ConfigSourceView {
        match self {
            ConfigSource::Default => ConfigSourceView::Default,
            ConfigSource::Global(dir) => ConfigSourceView::Global(dir.deep_view()),
            ConfigSource::Local(dir) => ConfigSourceView::Local(dir.deep_view()),
            ConfigSource::Preset { directory, name } => ConfigSourceView::Preset {
                directory: directory.deep_view(),
                name: name@,
            },
            ConfigSource::File(path) => ConfigSourceView::File(path@),
        }
    }
}

impl ConfigSourceView {
    /// The source in words, with the path of its file.
    pub open spec fn description(self) -> Seq<char> {
        match self {
            ConfigSourceView::Default => "built-in defaults"@,
            ConfigSourceView::Global(dir) => "global config ("@ + dir.config_file + ")"@,
            ConfigSourceView::Local(dir) => "local config ("@ + dir.config_file + ")"@,
            ConfigSourceView::Preset { directory, name } => "preset '"@ + name + "' ("@
                + json_file_spec(directory.presets_dir, name) + ")"@,
            ConfigSourceView::File(path) => "config file ("@ + path + ")"@,
        }
    }
}

impl ConfigSource {
    /// The source in words, with the path of its file.
    pub fn describe(&self) -> (r: String)
        ensures
            r@ == self.deep_view().description(),
    {
        match self {
            ConfigSource::Default => "built-in defaults".to_owned(),
            ConfigSource::Global(dir) => {
                let mut text = "global config (".to_owned();
                text.append(dir.config_file.as_str());
                text.append(")");
                text
            },
            ConfigSource::Local(dir) => {
                let mut text = "local config (".to_owned();
                text.append(dir.config_file.as_str());
                text.append(")");
                text
            },
            ConfigSource::Preset { directory, name } => {
                let mut text = "preset '".to_owned();
                text.append(name.as_str());
                text.append("' (");
                let file = directory.preset_file(name.as_str());
                text.append(file.as_str());
                text.append(")");
                text
            },
            ConfigSource::File(path) => {
                let mut text = "config file (".to_owned();
                text.append(path.as_str());
                text.append(")");
                text
            },
        }
    }
}

/// What was asked for on the command line about the configuration.
#[derive(Debug, PartialEq, Eq)]
pub struct ConfigLoadOptions {
    /// An explicit configuration file.
    pub config_file: Option<String>,
    /// A named preset.
    pub preset: Option<String>,
}

impl Default for ConfigLoadOptions {
    fn default() -> (r: Self)
        ensures
            r.config_file is None,
            r.preset is None,
    {
        ConfigLoadOptions { config_file: None, preset: None }
    }
}

/// Why no configuration could be chosen.
#[derive(Debug, PartialEq, Eq)]
pub enum ConfigError {
    /// Neither the project's nor the user's directory has the preset.
    PresetNotFound { name: String },
}

/// Finds the configuration in force.
#[derive(Debug, PartialEq, Eq)]
pub struct ConfigManager {
    /// The project's configuration directory, if one was found.
    pub local_dir: Option<ThChatDirectory>,
    /// The user's configuration directory, if it exists.
    pub global_dir: Option<ThChatDirectory>,
}

/// The preset `name` of `dir`, where `dir` is there and has the file.
pub open spec fn preset_in(
    dir: Option<ThChatDirectoryView>,
    name: Seq<char>,
    files: Seq<Seq<char>>,
) -> bool {
    dir is Some && listed(files, json_file_spec(dir.unwrap().presets_dir, name))
}

/// Whether `dir` is there and has a configuration file.
pub open spec fn config_in(dir: Option<ThChatDirectoryView>, files: Seq<Seq<char>>) -> bool {
    dir is Some && listed(files, dir.unwrap().config_file)
}

/// The sources to try, in order, the first that can be read being the one
/// in force. An explicit file stands alone, and so does a preset, which is
/// taken from the project's directory before the user's: where the one
/// source cannot be read, there is no configuration. Without either, the
/// project's configuration file comes before the user's, and the built-in
/// configuration is always there at last.
pub open spec fn config_plan_spec(
    local: Option<ThChatDirectoryView>,
    global: Option<ThChatDirectoryView>,
    config_file: Option<Seq<char>>,
    preset: Option<Seq<char>>,
    files: Seq<Seq<char>>,
) -> Option<Seq<ConfigSourceView>> {
    if config_file is Some {
        Some(seq![ConfigSourceView::File(config_file.unwrap())])
    } else if preset is Some {
        let name = preset.unwrap();
        if preset_in(local, name, files) {
            Some(seq![ConfigSourceView::Preset { directory: local.unwrap(), name }])
        } else if preset_in(global, name, files) {
            Some(seq![ConfigSourceView::Preset { directory: global.unwrap(), name }])
        } else {
            None
        }
    } else {
        let first = if config_in(local, files) {
            seq![ConfigSourceView::Local(local.unwrap())]
        } else {
            Seq::empty()
        };
        let second = if config_in(global, files) {
            seq![ConfigSourceView::Global(global.unwrap())]
        } else {
            Seq::empty()
        };
        Some(first + second + seq![ConfigSourceView::Default])
    }
}

/// The names of the presets on offer: those of the project's directory,
/// and those of the user's that the project's does not have.
pub open spec fn merged_presets(local: Seq<Seq<char>>, global: Seq<Seq<char>>) -> Seq<Seq<char>>
    decreases global.len(),
{
    if global.len() == 0 {
        local
    } else {
        let rest = merged_presets(local, global.drop_last());
        if listed(rest, global.last()) {
            rest
        } else {
            rest.push(global.last())
        }
    }
}

/// The names of the presets on offer, sorted, given the entries of the two
/// subdirectories of presets.
pub open spec fn preset_names_spec(
    local: Seq<crate::directory::DirEntryView>,
    global: Seq<crate::directory::DirEntryView>,
) -> Seq<Seq<char>> {
    sorted_names(
        merged_presets(
            sorted_names(crate::directory::json_stems(local)),
            sorted_names(crate::directory::json_stems(global)),
        ),
    )
}

/// Sorting names neither adds nor loses one.
pub proof fn lemma_listed_sorted(names: Seq<Seq<char>>, name: Seq<char>)
    ensures
        listed(sorted_names(names), name) == listed(names, name),
        names.len() == 0 ==> sorted_names(names).len() == 0,
{
    crate::text::lemma_sorted_names(names);
    vstd::seq_lib::to_multiset_contains(names, name);
    vstd::seq_lib::to_multiset_contains(sorted_names(names), name);
    if listed(names, name) {
        let i = choose|i: int| 0 <= i < names.len() && #[trigger] names[i] == name;
        assert(names.contains(name));
        let sorted = sorted_names(names);
        assert(sorted.contains(name));
        let k = choose|k: int| 0 <= k < sorted.len() && sorted[k] == name;
        assert(sorted[k] == name);
    }
    if listed(sorted_names(names), name) {
        let sorted = sorted_names(names);
        let i = choose|i: int| 0 <= i < sorted.len() && #[trigger] sorted[i] == name;
        assert(sorted.contains(name));
        assert(names.contains(name));
        let k = choose|k: int| 0 <= k < names.len() && names[k] == name;
        assert(names[k] == name);
    }
}

/// A preset on offer is one of the project's or one of the user's.
pub proof fn lemma_merged_presets(local: Seq<Seq<char>>, global: Seq<Seq<char>>, name: Seq<char>)
    ensures
        listed(merged_presets(local, global), name) == (listed(local, name) || listed(
            global,
            name,
        )),
    decreases global.len(),
{
    if global.len() > 0 {
        let rest = merged_presets(local, global.drop_last());
        lemma_merged_presets(local, global.drop_last(), name);
        let last = global.last();
        let merged = merged_presets(local, global);
        if listed(global, name) {
            let i = choose|i: int| 0 <= i < global.len() && #[trigger] global[i] == name;
            if i < global.len() - 1 {
                assert(global.drop_last()[i] == name);
            } else if !listed(rest, last) {
                assert(merged[rest.len() as int] == name);
            }
        }
        if listed(global.drop_last(), name) {
            let i = choose|i: int|
                0 <= i < global.drop_last().len() && #[trigger] global.drop_last()[i] == name;
            assert(global[i] == name);
        }
        if listed(rest, name) && !listed(rest, last) {
            let i = choose|i: int| 0 <= i < rest.len() && #[trigger] rest[i] == name;
            assert(merged[i] == name);
        }
        if listed(merged, name) && !listed(rest, last) {
            let i = choose|i: int| 0 <= i < merged.len() && #[trigger] merged[i] == name;
            if i < rest.len() {
                assert(rest[i] == name);
            } else {
                assert(global[global.len() - 1] == name);
            }
        }
    }
}

/// No directory entries, no names.
pub proof fn lemma_json_stems_len(entries: Seq<crate::directory::DirEntryView>)
    ensures
        crate::directory::json_stems(entries).len() <= entries.len(),
    decreases entries.len(),
{
    if entries.len() > 0 {
        lemma_json_stems_len(entries.drop_last());
    }
}

fn name_listed(names: &Vec<String>, name: &str) -> (r: bool)
    ensures
        r == listed(names.deep_view(), name@),
{
    let mut i: usize = 0;
    while i < names.len()
        invariant
            i <= names.len(),
            forall|j: int| 0 <= j < i ==> #[trigger] names.deep_view()[j] != name@,
        decreases names.len() - i,
    {
        if str_eq(names[i].as_str(), name) {
            assert(names.deep_view()[i as int] == name@);
            return true;
        }
        i += 1;
    }
    false
}

impl ConfigManager {
    /// A manager for the project's and the user's directory, as far as
    /// they were found.
    pub fn new(local_dir: Option<ThChatDirectory>, global_dir: Option<ThChatDirectory>) -> (r:
        Self)
        ensures
            r.local_dir == local_dir,
            r.global_dir == global_dir,
    {
        ConfigManager { local_dir, global_dir }
    }

    /// The directory that holds the sessions: the project's where there is
    /// one, else the user's.
    pub fn get_sessions_directory(&self) -> (r: Option<&ThChatDirectory>)
        ensures
            match r {
                Some(dir) => Some(*dir) == if self.local_dir is Some {
                    self.local_dir
                } else {
                    self.global_dir
                },
                None => self.local_dir is None && self.global_dir is None,
            },
    {
        match &self.local_dir {
            Some(dir) => Some(dir),
            None => match &self.global_dir {
                Some(dir) => Some(dir),
                None => None,
            },
        }
    }

    /// The sources to try for the configuration, in order.
    pub fn config_plan(&self, options: &ConfigLoadOptions, probe: &PathProbe) -> (r: Result<
        Vec<ConfigSource>,
        ConfigError,
    >)
        ensures
            match config_plan_spec(
                self.local_dir.deep_view(),
                self.global_dir.deep_view(),
                options.config_file.deep_view(),
                options.preset.deep_view(),
                probe.files.deep_view(),
            ) {
                Some(plan) => r is Ok && r.unwrap().deep_view() == plan,
                None => r is Err && options.preset is Some && r.unwrap_err()
                    == (ConfigError::PresetNotFound { name: r.unwrap_err()->name })
                    && r.unwrap_err()->name@ == options.preset.unwrap()@,
            },
    {
        let mut plan: Vec<ConfigSource> = Vec::new();
        assert(plan.deep_view() =~= Seq::<ConfigSourceView>::empty());
        if let Some(config_file) = &options.config_file {
            plan.push(ConfigSource::File(config_file.clone()));
            assert(plan.deep_view() =~= seq![ConfigSourceView::File(config_file@)]);
            return Ok(plan);
        }
        if let Some(preset_name) = &options.preset {
            if let Some(local) = &self.local_dir {
                let file = local.preset_file(preset_name.as_str());
                if probe.is_file(file.as_str()) {
                    plan.push(
                        ConfigSource::Preset { directory: local.clone(), name: preset_name.clone() },
                    );
                    assert(plan.deep_view() =~= seq![
                        ConfigSourceView::Preset {
                            directory: local.deep_view(),
                            name: preset_name@,
                        },
                    ]);
                    return Ok(plan);
                }
            }
            if let Some(global) = &self.global_dir {
                let file = global.preset_file(preset_name.as_str());
                if probe.is_file(file.as_str()) {
                    plan.push(
                        ConfigSource::Preset {
                            directory: global.clone(),
                            name: preset_name.clone(),
                        },
                    );
                    assert(plan.deep_view() =~= seq![
                        ConfigSourceView::Preset {
                            directory: global.deep_view(),
                            name: preset_name@,
                        },
                    ]);
                    return Ok(plan);
                }
            }
            return Err(ConfigError::PresetNotFound { name: preset_name.clone() });
        }
        if let Some(local) = &self.local_dir {
            if local.has_config(probe) {
                let ghost before = plan.deep_view();
                plan.push(ConfigSource::Local(local.clone()));
                assert(plan.deep_view() =~= before.push(ConfigSourceView::Local(local.deep_view())));
            }
        }
        if let Some(global) = &self.global_dir {
            if global.has_config(probe) {
                let ghost before = plan.deep_view();
                plan.push(ConfigSource::Global(global.clone()));
                assert(plan.deep_view() =~= before.push(
                    ConfigSourceView::Global(global.deep_view()),
                ));
            }
        }
        let ghost before = plan.deep_view();
        plan.push(ConfigSource::Default);
        assert(plan.deep_view() =~= before.push(ConfigSourceView::Default));
        assert(plan.deep_view() =~= config_plan_spec(
            self.local_dir.deep_view(),
            self.global_dir.deep_view(),
            options.config_file.deep_view(),
            options.preset.deep_view(),
            probe.files.deep_view(),
        ).unwrap());
        Ok(plan)
    }

    /// The names of the presets on offer, sorted: those of the project's
    /// directory, and those of the user's that the project's does not have.
    /// `local` and `global` are the entries of the two subdirectories of
    /// presets, empty for a directory that is not there.
    pub fn list_preset_names(&self, local: &Vec<DirEntry>, global: &Vec<DirEntry>) -> (r: Vec<
        String,
    >)
        ensures
            r.deep_view() == preset_names_spec(local.deep_view(), global.deep_view()),
            names_in_order(r.deep_view()),
    {
        let mut presets = crate::directory::list_json_names(local);
        let from_global = crate::directory::list_json_names(global);
        let ghost first = presets.deep_view();
        let ghost second = from_global.deep_view();
        let mut i: usize = 0;
        assert(second.take(0) =~= Seq::<Seq<char>>::empty());
        while i < from_global.len()
            invariant
                i <= from_global.len(),
                second == from_global.deep_view(),
                presets.deep_view() == merged_presets(first, second.take(i as int)),
            decreases from_global.len() - i,
        {
            proof {
                assert(second.take(i + 1).drop_last() =~= second.take(i as int));
                assert(second.take(i + 1).last() == second[i as int]);
            }
            if !name_listed(&presets, from_global[i].as_str()) {
                let ghost before = presets.deep_view();
                presets.push(from_global[i].clone());
                assert(presets.deep_view() =~= before.push(second[i as int]));
            }
            i += 1;
        }
        assert(second.take(i as int) =~= second);
        sort_names(&presets)
    }

    /// The presets on offer, sorted by name, each with the directory it
    /// comes from: the project's where that has it, else the user's.
    /// `local` and `global` are the entries of the two subdirectories of
    /// presets, empty for a directory that is not there.
    pub fn list_presets(&self, local: &Vec<DirEntry>, global: &Vec<DirEntry>) -> (r: Vec<
        (String, ConfigSource),
    >)
        requires
            self.local_dir is None ==> local.len() == 0,
            self.global_dir is None ==> global.len() == 0,
        ensures
            r.len() == preset_names_spec(local.deep_view(), global.deep_view()).len(),
            forall|i: int|
                0 <= i < r.len() ==> {
                    let name = preset_names_spec(local.deep_view(), global.deep_view())[i];
                    &&& (#[trigger] r[i]).0@ == name
                    &&& r[i].1.deep_view() == (ConfigSourceView::Preset {
                        directory: if listed(
                            crate::directory::json_stems(local.deep_view()),
                            name,
                        ) {
                            self.local_dir.deep_view().unwrap()
                        } else {
                            self.global_dir.deep_view().unwrap()
                        },
                        name,
                    })
                },
    {
        let names = self.list_preset_names(local, global);
        let local_names = crate::directory::list_json_names(local);
        let ghost local_stems = crate::directory::json_stems(local.deep_view());
        let ghost global_stems = crate::directory::json_stems(global.deep_view());
        let mut out: Vec<(String, ConfigSource)> = Vec::new();
        let mut i: usize = 0;
        while i < names.len()
            invariant
                i <= names.len(),
                out.len() == i,
                self.local_dir is None ==> local.len() == 0,
                self.global_dir is None ==> global.len() == 0,
                local_stems == crate::directory::json_stems(local.deep_view()),
                global_stems == crate::directory::json_stems(global.deep_view()),
                local_names.deep_view() == sorted_names(local_stems),
                names.deep_view() == preset_names_spec(local.deep_view(), global.deep_view()),
                forall|j: int|
                    0 <= j < i ==> {
                        &&& (#[trigger] out[j]).0@ == names.deep_view()[j]
                        &&& out[j].1.deep_view() == (ConfigSourceView::Preset {
                            directory: if listed(local_stems, names.deep_view()[j]) {
                                self.local_dir.deep_view().unwrap()
                            } else {
                                self.global_dir.deep_view().unwrap()
                            },
                            name: names.deep_view()[j],
                        })
                    },
            decreases names.len() - i,
        {
            let name = names[i].clone();
            let from_local = name_listed(&local_names, name.as_str());
            proof {
                assert(names.deep_view()[i as int] == name@);
                lemma_listed_sorted(local_stems, name@);
                lemma_listed_sorted(global_stems, name@);
                lemma_listed_sorted(
                    merged_presets(sorted_names(local_stems), sorted_names(global_stems)),
                    name@,
                );
                lemma_merged_presets(sorted_names(local_stems), sorted_names(global_stems), name@);
                lemma_json_stems_len(local.deep_view());
                lemma_json_stems_len(global.deep_view());
            }
            let directory = if from_local {
                match &self.local_dir {
                    Some(dir) => dir.clone(),
                    None => vstd::pervasive::unreached(),
                }
            } else {
                match &self.global_dir {
                    Some(dir) => dir.clone(),
                    None => vstd::pervasive::unreached(),
                }
            };
            out.push((name.clone(), ConfigSource::Preset { directory, name }));
            i += 1;
        }
        out
    }
}

} // verus!
