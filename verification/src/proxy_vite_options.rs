//! The options of the development proxy and the store that holds the one
//! committed copy of them.

use crate::text::option_text;
use vstd::prelude::*;
use vstd::string::StringExecFns;

verus! {

/// How loudly the output of the dev server is passed on to the log.
#[derive(Clone, Copy, Debug, PartialEq, Eq, Structural)]
pub enum LogLevel {
    Error,
    Warn,
    Info,
    Debug,
    Trace,
}

/// Why the options store refused an operation.
#[derive(Clone, Copy, Debug, PartialEq, Eq, Structural)]
pub enum ConfigError {
    /// Options were committed before, by `build` or by a first `global`.
    AlreadyInitialized,
}

impl ConfigError {
    /// A short description of the error.
    pub fn message(&self) -> (text: String)
        ensures
            text@ == "Failed to set proxy options"@,
    {
        String::from_str("Failed to set proxy options")
    }
}

/// Where the dev server listens, where it is started and how its output is
/// logged.
#[derive(Debug, PartialEq, Eq)]
pub struct ProxyViteOptions {
    /// The port of the dev server; `None` until it is set or discovered.
    pub port: Option<u16>,
    /// The directory in which the dev server is started.
    pub working_directory: String,
    /// The level at which the dev server's output is logged; `None` logs
    /// nothing.
    pub log_level: Option<LogLevel>,
}

/// The mathematical value of a [`ProxyViteOptions`].
pub struct OptionsView {
    pub port: Option<u16>,
    pub working_directory: Seq<char>,
    pub log_level: Option<LogLevel>,
}

impl View for ProxyViteOptions {
    type V = OptionsView;

    open spec fn view(&self) -> OptionsView {
        OptionsView {
            port: self.port,
            working_directory: self.working_directory@,
            log_level: self.log_level,
        }
    }
}

/// The value of options that may be missing.
pub open spec fn options_view(options: Option<ProxyViteOptions>) -> Option<OptionsView> {
    match options {
        Some(options) => Some(options@),
        None => None,
    }
}

/// The working directory that is used where no project root was found.
pub open spec fn fallback_directory() -> Seq<char> {
    "./"@
}

/// The options that a fresh configuration starts from: no port, the project
/// root if one was found and `./` otherwise, logging at debug level.
pub open spec fn default_options(project_root: Option<Seq<char>>) -> OptionsView {
    OptionsView {
        port: None,
        working_directory: match project_root {
            Some(root) => root,
            None => fallback_directory(),
        },
        log_level: Some(LogLevel::Debug),
    }
}

/// What the store holds after `build` is asked to commit `options`.
pub open spec fn store_after_build(
    store: Option<OptionsView>,
    options: OptionsView,
) -> Option<OptionsView> {
    match store {
        Some(_) => store,
        None => Some(options),
    }
}

/// The snapshot that `global` returns, which is also what the store holds
/// afterwards.
pub open spec fn store_read(
    store: Option<OptionsView>,
    project_root: Option<Seq<char>>,
) -> OptionsView {
    match store {
        Some(options) => options,
        None => default_options(project_root),
    }
}

/// What the store holds after `update_port` publishes `port`.
pub open spec fn store_after_update(store: Option<OptionsView>, port: u16) -> Option<
    OptionsView,
> {
    match store {
        Some(options) => Some(OptionsView { port: Some(port), ..options }),
        None => None,
    }
}

impl Clone for ProxyViteOptions {
    fn clone(&self) -> (copy: Self)
        ensures
            copy == *self,
    {
        ProxyViteOptions {
            port: self.port,
            working_directory: self.working_directory.clone(),
            log_level: self.log_level,
        }
    }
}

/// The holder of the committed options: empty until the first `build` or
/// `global`, and from then on always holding exactly one snapshot, which
/// `update_port` replaces as a whole.
pub struct OptionsStore {
    committed: Option<ProxyViteOptions>,
}

impl View for OptionsStore {
    type V = Option<OptionsView>;

    closed spec fn view(&self) -> Option<OptionsView> {
        options_view(self.committed)
    }
}

impl OptionsStore {
    /// A store in which nothing is committed yet.
    pub fn new() -> (store: Self)
        ensures
            store@ is None,
    {
        OptionsStore { committed: None }
    }

    /// Whether options have been committed.
    pub fn is_initialized(&self) -> (b: bool)
        ensures
            b == (self@ is Some),
    {
        self.committed.is_some()
    }

    /// The committed snapshot, if there is one. The store is left as it is.
    pub fn snapshot(&self) -> (found: Option<ProxyViteOptions>)
        ensures
            options_view(found) == self@,
    {
        match &self.committed {
            Some(options) => Some(options.clone()),
            None => None,
        }
    }
}

impl ProxyViteOptions {
    /// The options that a configuration starts from. `project_root` is the
    /// directory that the search for the front-end project gave, if any.
    pub fn new(project_root: Option<String>) -> (options: Self)
        ensures
            options@ == default_options(option_text(project_root)),
    {
        let working_directory = match project_root {
            Some(root) => root,
            None => String::from_str("./"),
        };
        ProxyViteOptions { port: None, working_directory, log_level: Some(LogLevel::Debug) }
    }

    /// These options with the port set to `port`.
    pub fn port(self, port: u16) -> (options: Self)
        ensures
            options@ == (OptionsView { port: Some(port), ..self@ }),
    {
        ProxyViteOptions {
            port: Some(port),
            working_directory: self.working_directory,
            log_level: self.log_level,
        }
    }

    /// These options with the working directory set to `working_directory`.
    pub fn working_directory(self, working_directory: &str) -> (options: Self)
        ensures
            options@ == (OptionsView { working_directory: working_directory@, ..self@ }),
    {
        ProxyViteOptions {
            port: self.port,
            working_directory: String::from_str(working_directory),
            log_level: self.log_level,
        }
    }

    /// These options with logging switched on at `log_level`.
    pub fn log_level(self, log_level: LogLevel) -> (options: Self)
        ensures
            options@ == (OptionsView { log_level: Some(log_level), ..self@ }),
    {
        ProxyViteOptions {
            port: self.port,
            working_directory: self.working_directory,
            log_level: Some(log_level),
        }
    }

    /// These options with logging switched off.
    pub fn disable_logging(self) -> (options: Self)
        ensures
            options@ == (OptionsView { log_level: None, ..self@ }),
    {
        ProxyViteOptions {
            port: self.port,
            working_directory: self.working_directory,
            log_level: None,
        }
    }

    /// Publishes a port that was discovered while the dev server runs: the
    /// committed snapshot is replaced by one that differs in the port only.
    /// A store in which nothing is committed stays empty. Never fails.
    pub fn update_port(store: &mut OptionsStore, port: u16) -> (done: Result<(), ConfigError>)
        ensures
            done is Ok,
            final(store)@ == store_after_update(old(store)@, port),
    {
        match store.committed.take() {
            Some(current) => {
                let updated = ProxyViteOptions {
                    port: Some(port),
                    working_directory: current.working_directory,
                    log_level: current.log_level,
                };
                store.committed = Some(updated);
            },
            None => {},
        }
        Ok(())
    }

    /// Commits these options as the configuration. Fails, and leaves the
    /// store as it is, where options were committed before.
    pub fn build(self, store: &mut OptionsStore) -> (done: Result<(), ConfigError>)
        ensures
            final(store)@ == store_after_build(old(store)@, self@),
            old(store)@ is None ==> done is Ok,
            old(store)@ is Some ==> done == Err::<(), ConfigError>(
                ConfigError::AlreadyInitialized,
            ),
    {
        if store.committed.is_some() {
            Err(ConfigError::AlreadyInitialized)
        } else {
            store.committed = Some(self);
            Ok(())
        }
    }

    /// The committed options. Where nothing is committed yet, the defaults
    /// for `project_root` are committed first; otherwise `project_root` is
    /// not looked at.
    pub fn global(store: &mut OptionsStore, project_root: Option<String>) -> (options: Self)
        ensures
            options@ == store_read(old(store)@, option_text(project_root)),
            final(store)@ == Some(options@),
    {
        match &store.committed {
            Some(options) => {
                return options.clone();
            },
            None => {},
        }
        let fresh = ProxyViteOptions::new(project_root);
        let options = fresh.clone();
        store.committed = Some(fresh);
        options
    }
}

/// The name of the TypeScript configuration file that marks a front-end
/// project.
pub const CONFIG_FILE_TS: &'static str = "vite.config.ts";

/// The name of the JavaScript configuration file that marks a front-end
/// project.
pub const CONFIG_FILE_JS: &'static str = "vite.config.js";

/// The path of the filesystem root, at which the search for the project ends.
pub const ROOT_DIRECTORY: &'static str = "/";

/// What was found out about one directory on the way from the current
/// directory up to the root.
#[derive(Clone, Debug, PartialEq, Eq)]
pub struct DirProbe {
    /// The path of the directory; `None` where the path is not valid
    /// Unicode.
    pub path: Option<String>,
    /// Whether the directory holds a file named [`CONFIG_FILE_TS`].
    pub has_ts_config: bool,
    /// Whether the directory holds a file named [`CONFIG_FILE_JS`].
    pub has_js_config: bool,
}

/// The mathematical value of a [`DirProbe`].
pub struct DirProbeView {
    pub path: Option<Seq<char>>,
    pub has_ts_config: bool,
    pub has_js_config: bool,
}

impl View for DirProbe {
    type V = DirProbeView;

    open spec fn view(&self) -> DirProbeView {
        DirProbeView {
            path: option_text(self.path),
            has_ts_config: self.has_ts_config,
            has_js_config: self.has_js_config,
        }
    }
}

/// The values of a list of probes, in the order of the list.
pub open spec fn probes_view(probes: Vec<DirProbe>) -> Seq<DirProbeView> {
    Seq::new(probes@.len(), |i: int| probes@[i]@)
}

/// The project root that a walk finds. `probes` are the directories of the
/// walk, each the parent of the one before. The walk ends without a result
/// at the filesystem root, which is not searched, and behind the last
/// directory; it ends at the first directory that holds a configuration
/// file, with the path of that directory.
pub open spec fn project_root(probes: Seq<DirProbeView>) -> Option<Seq<char>>
    decreases probes.len(),
{
    if probes.len() == 0 {
        None
    } else if probes[0].path == Some(ROOT_DIRECTORY@) {
        None
    } else if probes[0].has_ts_config || probes[0].has_js_config {
        probes[0].path
    } else {
        project_root(probes.drop_first())
    }
}

/// Whether `path` is the filesystem root.
fn is_root(path: &Option<String>) -> (b: bool)
    ensures
        b == (option_text(*path) == Some(ROOT_DIRECTORY@)),
{
    match path {
        Some(path) => {
            let b = path.as_str().unicode_len() == 1 && path.as_str().get_char(0) == '/';
            proof {
                reveal_strlit("/");
                if b {
                    assert(path@ =~= ROOT_DIRECTORY@);
                }
            }
            b
        },
        None => false,
    }
}

/// Finds the directory of the front-end project among the current directory
/// and its ancestors. `probes` holds what is known of these directories,
/// the current directory first and each parent behind its child; it is
/// empty where the current directory could not be determined.
pub fn try_find_vite_dir(probes: &Vec<DirProbe>) -> (found: Option<String>)
    ensures
        option_text(found) == project_root(probes_view(*probes)),
{
    let ghost all = probes_view(*probes);
    let mut i: usize = 0;
    assert(all.subrange(0, all.len() as int) == all);
    while i < probes.len()
        invariant
            i <= probes@.len(),
            all == probes_view(*probes),
            project_root(all) == project_root(all.subrange(i as int, all.len() as int)),
        decreases probes@.len() - i,
    {
        let probe = &probes[i];
        let ghost rest = all.subrange(i as int, all.len() as int);
        assert(rest[0] == probe@);
        if is_root(&probe.path) {
            return None;
        }
        if probe.has_ts_config || probe.has_js_config {
            return match &probe.path {
                Some(path) => Some(path.clone()),
                None => None,
            };
        }
        assert(rest.drop_first() == all.subrange(i + 1, all.len() as int));
        i += 1;
    }
    None
}

/// Reading the options twice, with no `build` in between, gives the same
/// snapshot both times, whatever project root is offered to either read.
pub proof fn global_is_idempotent(
    store: Option<OptionsView>,
    first_root: Option<Seq<char>>,
    second_root: Option<Seq<char>>,
)
    ensures
        store_read(Some(store_read(store, first_root)), second_root) == store_read(
            store,
            first_root,
        ),
{
}

/// Once options are committed, a read that follows `update_port` returns the
/// port that was published and leaves every other option as it was.
pub proof fn updated_port_is_read(
    store: Option<OptionsView>,
    port: u16,
    project_root: Option<Seq<char>>,
)
    requires
        store is Some,
    ensures
        store_read(store_after_update(store, port), project_root) == (OptionsView {
            port: Some(port),
            ..store->0
        }),
{
}

} // verus!
