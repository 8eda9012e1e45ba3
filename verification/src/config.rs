//! Which paths of a repository are measured.

use vstd::prelude::*;
use vstd::string::*;

use crate::digest::{is_fingerprint, text_fingerprint, text_fingerprint_of};
use crate::format::{optional, texts};
use crate::globs::{
    compile, compiled, compiled_sets_hold_their_patterns, glob_message, globs_of, matches_any,
    set_globs, set_matches, GlobError, GlobFailure,
};
use crate::json::{json_list, json_list_text};

verus! {

/// Patterns of the paths to measure and of those to leave out.
#[derive(Debug)]
pub struct Config {
    pub includes: Vec<String>,
    pub exclude: Vec<String>,
}

#[verifier::ext_equal]
pub struct ConfigModel {
    pub includes: Seq<Seq<char>>,
    pub exclude: Seq<Seq<char>>,
}

impl View for Config {
    type V = ConfigModel;

    open spec fn view(&self) -> ConfigModel {
        ConfigModel { includes: texts(self.includes@), exclude: texts(self.exclude@) }
    }
}

/// Copies a list of texts.
pub(crate) fn copy_texts(list: &Vec<String>) -> (copy: Vec<String>)
    ensures
        texts(copy@) == texts(list@),
{
    let mut copy: Vec<String> = Vec::new();
    let mut k: usize = 0;
    while k < list.len()
        invariant
            k <= list@.len(),
            copy@.len() == k,
            forall|n: int| 0 <= n < k ==> (#[trigger] copy@[n])@ == list@[n]@,
        decreases list@.len() - k,
    {
        copy.push(list[k].clone());
        k = k + 1;
    }
    assert(texts(copy@) =~= texts(list@));
    copy
}

impl Clone for Config {
    fn clone(&self) -> (copy: Self)
        ensures
            copy@ == self@,
    {
        Config { includes: copy_texts(&self.includes), exclude: copy_texts(&self.exclude) }
    }
}

/// Every path.
pub fn default_include() -> (includes: Vec<String>)
    ensures
        texts(includes@) == seq!["**"@],
{
    let mut includes: Vec<String> = Vec::new();
    includes.push("**".to_owned());
    assert(texts(includes@) =~= seq!["**"@]);
    includes
}

/// The configuration that measures every path.
pub open spec fn default_config() -> ConfigModel {
    ConfigModel { includes: seq!["**"@], exclude: Seq::empty() }
}

impl Default for Config {
    fn default() -> (config: Self)
        ensures
            config@ == default_config(),
    {
        let config = Config { includes: default_include(), exclude: Vec::new() };
        assert(config@.exclude =~= Seq::<Seq<char>>::empty());
        config
    }
}

/// A configuration as a JSON object.
pub open spec fn config_json(config: ConfigModel) -> Seq<char> {
    "{\"include\":"@ + json_list(config.includes) + ",\"exclude\":"@ + json_list(config.exclude)
        + "}"@
}

impl Config {
    /// The configuration as a JSON object.
    pub fn json(&self) -> (json: String)
        ensures
            json@ == config_json(self@),
    {
        let mut json = "{\"include\":".to_owned();
        let includes = json_list_text(&self.includes);
        json.append(includes.as_str());
        json.append(",\"exclude\":");
        let exclude = json_list_text(&self.exclude);
        json.append(exclude.as_str());
        json.append("}");
        json
    }
}

/// A path is measured under a configuration.
pub open spec fn in_scope(config: ConfigModel, path: Seq<char>) -> bool {
    matches_any(config.includes, false, path) && !matches_any(config.exclude, false, path)
}

/// What is wrong with a configuration, where anything is.
pub open spec fn scope_failure(config: ConfigModel) -> Option<GlobFailure> {
    match compiled(config.includes, false) {
        Err(failure) => Some(failure),
        Ok(_) => match compiled(config.exclude, false) {
            Err(failure) => Some(failure),
            Ok(_) => None,
        },
    }
}

/// What an attempt to read a configuration file came to.
#[derive(Debug)]
pub enum ConfigFile {
    /// The file holds a configuration.
    Read(Config),
    /// There is no file.
    Missing,
    /// The file holds no configuration.
    Invalid(String),
    /// The file cannot be read.
    Unreadable(String),
}

/// Why there is no scope.
#[derive(Debug)]
pub enum ScopeError {
    /// A pattern is not valid.
    Globs(GlobError),
    /// The file that was asked for is not there.
    MissingConfig,
    /// The file holds no configuration.
    InvalidConfig(String),
    /// The file cannot be read.
    UnreadableConfig(String),
}

/// The paths of a repository that are measured.
pub struct Scope {
    pub config: Config,
    pub config_path: Option<String>,
    pub fingerprint: String,
    pub includes: globset::GlobSet,
    pub exclude: globset::GlobSet,
}

impl Scope {
    /// The fingerprint and the compiled patterns are those of the configuration.
    pub open spec fn wf(&self) -> bool {
        &&& self.fingerprint@ == text_fingerprint(config_json(self.config@))
        &&& set_globs(self.includes) == globs_of(self.config@.includes, false)
        &&& set_globs(self.exclude) == globs_of(self.config@.exclude, false)
    }

    /// The scope of a configuration.
    pub fn build(config: Config, config_path: Option<String>) -> (scope: Result<Self, GlobError>)
        ensures
            scope is Ok <==> scope_failure(config@) is None,
            scope matches Ok(scope) ==> scope.wf() && scope.config@ == config@ && scope.config_path
                == config_path && scope.fingerprint@ == text_fingerprint(config_json(config@))
                && is_fingerprint(scope.fingerprint@),
            scope matches Err(error) ==> scope_failure(config@) == Some(error@),
    {
        let includes = match compile(&config.includes, false) {
            Ok(set) => set,
            Err(error) => {
                return Err(error);
            },
        };
        let exclude = match compile(&config.exclude, false) {
            Ok(set) => set,
            Err(error) => {
                return Err(error);
            },
        };
        proof {
            compiled_sets_hold_their_patterns(config@.includes, false);
            compiled_sets_hold_their_patterns(config@.exclude, false);
        }
        let json = config.json();
        let fingerprint = text_fingerprint_of(json.as_str());
        Ok(Scope { config, config_path, fingerprint, includes, exclude })
    }

    /// The scope of what a configuration file holds. Every path is measured
    /// where no file was asked for and there is none.
    pub fn load(file: ConfigFile, path: String, explicit: bool) -> (scope: Result<Self, ScopeError>)
        ensures
            match file {
                ConfigFile::Read(config) => {
                    &&& scope is Ok <==> scope_failure(config@) is None
                    &&& scope matches Ok(scope) ==> scope.wf() && scope.config@ == config@
                        && scope.fingerprint@ == text_fingerprint(config_json(config@))
                        && optional(scope.config_path) == Some(path@)
                    &&& scope matches Err(error) ==> error is Globs && scope_failure(config@)
                        == Some(error->Globs_0@)
                },
                ConfigFile::Missing => {
                    &&& explicit ==> (scope is Err && scope->Err_0 is MissingConfig)
                    &&& !explicit ==> {
                        &&& scope is Ok <==> scope_failure(default_config()) is None
                        &&& scope matches Ok(scope) ==> scope.wf() && scope.config@
                            == default_config() && scope.fingerprint@ == text_fingerprint(
                            config_json(default_config()),
                        ) && scope.config_path is None
                        &&& scope matches Err(error) ==> error is Globs && scope_failure(
                            default_config(),
                        ) == Some(error->Globs_0@)
                    }
                },
                ConfigFile::Invalid(complaint) => scope matches Err(ScopeError::InvalidConfig(said))
                    && said@ == complaint@,
                ConfigFile::Unreadable(complaint) => scope matches Err(
                    ScopeError::UnreadableConfig(said),
                ) && said@ == complaint@,
            },
    {
        match file {
            ConfigFile::Read(config) => match Self::build(config, Some(path)) {
                Ok(scope) => Ok(scope),
                Err(error) => Err(ScopeError::Globs(error)),
            },
            ConfigFile::Missing => {
                if explicit {
                    return Err(ScopeError::MissingConfig);
                }
                match Self::build(Config::default(), None) {
                    Ok(scope) => Ok(scope),
                    Err(error) => Err(ScopeError::Globs(error)),
                }
            },
            ConfigFile::Invalid(complaint) => Err(ScopeError::InvalidConfig(complaint)),
            ConfigFile::Unreadable(complaint) => Err(ScopeError::UnreadableConfig(complaint)),
        }
    }

    /// The scope without the paths that further patterns match.
    pub fn with_exclusions(self, patterns: &Vec<String>) -> (scope: Result<Self, GlobError>)
        ensures
            ({
                let config = with_excluded(self.config@, texts(patterns@));
                &&& scope is Ok <==> scope_failure(config) is None
                &&& scope matches Ok(scope) ==> scope.wf() && scope.config@ == config
                    && scope.fingerprint@ == text_fingerprint(config_json(config))
                    && scope.config_path == self.config_path
                &&& scope matches Err(error) ==> scope_failure(config) == Some(error@)
            }),
    {
        let mut config = self.config;
        let ghost start = config@;
        let mut k: usize = 0;
        assert(start.exclude + texts(patterns@).subrange(0, 0) =~= start.exclude);
        while k < patterns.len()
            invariant
                k <= patterns@.len(),
                config@.includes == start.includes,
                config@.exclude == start.exclude + texts(patterns@).subrange(0, k as int),
            decreases patterns@.len() - k,
        {
            let ghost before = config@.exclude;
            config.exclude.push(patterns[k].clone());
            assert(config@.exclude =~= before.push(patterns@[k as int]@));
            k = k + 1;
            assert(config@.exclude =~= start.exclude + texts(patterns@).subrange(0, k as int));
        }
        assert(texts(patterns@).subrange(0, k as int) =~= texts(patterns@));
        assert(config@ =~= with_excluded(start, texts(patterns@)));
        Self::build(config, self.config_path)
    }

    /// A path is measured.
    pub fn contains(&self, path: &str) -> (r: bool)
        requires
            self.wf(),
        ensures
            r == in_scope(self.config@, path@),
    {
        set_matches(&self.includes, path) && !set_matches(&self.exclude, path)
    }
}

/// A configuration with further patterns of paths to leave out.
pub open spec fn with_excluded(config: ConfigModel, patterns: Seq<Seq<char>>) -> ConfigModel {
    ConfigModel { exclude: config.exclude + patterns, ..config }
}

/// What to tell the user where patterns make up no scope.
pub open spec fn scope_globs_message(failure: GlobFailure) -> Seq<char> {
    glob_message(failure, "Invalid scope glob "@, "Compiling scope globs"@)
}

/// What to tell the user where patterns make up no scope.
pub fn scope_globs_text(error: &GlobError) -> (message: String)
    ensures
        message@ == scope_globs_message(error@),
{
    error.message("Invalid scope glob ", "Compiling scope globs")
}

/// Further exclusions only take paths away: a path is measured under them exactly
/// where it was measured before and none of them matches it.
pub proof fn exclusions_only_remove(
    config: ConfigModel,
    patterns: Seq<Seq<char>>,
    path: Seq<char>,
)
    ensures
        in_scope(with_excluded(config, patterns), path) <==> in_scope(config, path)
            && !matches_any(patterns, false, path),
{
    let all = globs_of(config.exclude + patterns, false);
    let front = globs_of(config.exclude, false);
    let back = globs_of(patterns, false);
    if crate::globs::any_matches(all, path) {
        let k = choose|k: int|
            0 <= k < all.len() && #[trigger] crate::globs::glob_matches(all[k].0, all[k].1, path);
        if k < front.len() {
            assert(front[k] == all[k]);
            assert(crate::globs::glob_matches(front[k].0, front[k].1, path));
        } else {
            assert(back[k - front.len()] == all[k]);
            assert(crate::globs::glob_matches(
                back[k - front.len()].0,
                back[k - front.len()].1,
                path,
            ));
        }
    }
    if crate::globs::any_matches(front, path) {
        let k = choose|k: int|
            0 <= k < front.len() && #[trigger] crate::globs::glob_matches(
                front[k].0,
                front[k].1,
                path,
            );
        assert(front[k] == all[k]);
        assert(crate::globs::glob_matches(all[k].0, all[k].1, path));
    }
    if crate::globs::any_matches(back, path) {
        let k = choose|k: int|
            0 <= k < back.len() && #[trigger] crate::globs::glob_matches(back[k].0, back[k].1, path);
        assert(back[k] == all[k + front.len()]);
        assert(crate::globs::glob_matches(all[k + front.len()].0, all[k + front.len()].1, path));
    }
}

} // verus!
