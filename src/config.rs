//! The tool's own configuration: which workspace file is active, and where the
//! configuration is kept.
use vstd::prelude::*;

verus! {

/// What a configuration records.
pub struct ConfigView {
    pub active_workspace: Option<Seq<char>>,
    pub active_priority_set: Option<usize>,
}

/// The configuration: the path of the active workspace file, if any, and the
/// index of the active priority set, if any.
#[derive(Debug)]
pub struct Config {
    active_workspace: Option<String>,
    active_priority_set: Option<usize>,
}

impl View for Config {
    type V = ConfigView;

    closed spec fn view(&self) -> ConfigView {
        ConfigView {
            active_workspace: match self.active_workspace {
                Some(p) => Some(p@),
                None => None,
            },
            active_priority_set: self.active_priority_set,
        }
    }
}

impl Config {
    /// A configuration with nothing active.
    pub fn new() -> (r: Config)
        ensures
            r@.active_workspace is None,
            r@.active_priority_set is None,
    {
        Config { active_workspace: None, active_priority_set: None }
    }

    /// A configuration that records the given values.
    pub fn from_values(active_workspace: Option<String>, active_priority_set: Option<usize>) -> (r:
        Config)
        ensures
            r@.active_workspace == (match active_workspace {
                Some(p) => Some(p@),
                None => None::<Seq<char>>,
            }),
            r@.active_priority_set == active_priority_set,
    {
        Config { active_workspace, active_priority_set }
    }

    /// The path of the active workspace file, if any.
    pub fn get_workspace(&self) -> (r: &Option<String>)
        ensures
            match r {
                Some(p) => self@.active_workspace == Some(p@),
                None => self@.active_workspace is None,
            },
    {
        &self.active_workspace
    }

    /// The index of the active priority set, if any.
    pub fn get_active_priority_set(&self) -> (r: Option<usize>)
        ensures
            r == self@.active_priority_set,
    {
        self.active_priority_set
    }

    /// Records `path` as the active workspace file; `None` records that none
    /// is active. `path_exists` tells whether a file is found at `path`. Fails,
    /// leaving the configuration unchanged, where a path is given and no file
    /// is found there.
    pub fn set_workspace(&mut self, path: Option<String>, path_exists: bool) -> (r: Result<
        (),
        ConfigError,
    >)
        ensures
            r is Err <==> path is Some && !path_exists,
            r is Err ==> final(self)@ == old(self)@,
            r is Ok ==> final(self)@ == (ConfigView {
                active_workspace: match path {
                    Some(p) => Some(p@),
                    None => None::<Seq<char>>,
                },
                active_priority_set: old(self)@.active_priority_set,
            }),
    {
        match &path {
            Some(p) => {
                if !path_exists {
                    let mut message = String::from_str("workspace directory '");
                    message.append(p.as_str());
                    message.append("' does not exist");
                    return Err(ConfigError { message });
                }
            },
            None => {},
        }
        self.active_workspace = path;
        Ok(())
    }
}

impl Default for Config {
    fn default() -> (r: Config)
        ensures
            r@.active_workspace is None,
            r@.active_priority_set is None,
    {
        Config::new()
    }
}

/// Records that no workspace is active.
pub fn deactivate(config: &mut Config)
    ensures
        final(config)@.active_workspace is None,
        final(config)@.active_priority_set == old(config)@.active_priority_set,
{
    let r = config.set_workspace(None, true);
    assert(r is Ok);
}

/// An error about the configuration.
#[derive(Debug)]
pub struct ConfigError {
    pub message: String,
}

/// Tells where the configuration directory is.
pub trait ConfigDirProvider {
    fn get_config_dir(&self) -> Option<String>;
}

/// The user's configuration directory, as the platform defines it.
pub struct DefaultConfigDirProvider;

impl ConfigDirProvider for DefaultConfigDirProvider {
    fn get_config_dir(&self) -> Option<String> {
        user_config_dir()
    }
}

/// Relies on dirs::config_dir: the user's configuration directory where the
/// platform defines one. It depends on the environment, so nothing is
/// promised of it.
#[verifier::external_body]
fn user_config_dir() -> Option<String> {
    match dirs::config_dir() {
        Some(path) => Some(path.to_string_lossy().into_owned()),
        None => None,
    }
}

/// What `std::path::Path::join` makes of a base path and one more component.
pub uninterp spec fn joined_path(base: Seq<char>, name: Seq<char>) -> Seq<char>;

/// Relies on std::path::Path::join: `base` extended by the component `name`.
#[verifier::external_body]
fn join_path(base: &str, name: &str) -> (r: String)
    ensures
        r@ == joined_path(base@, name@),
{
    std::path::Path::new(base).join(name).to_string_lossy().into_owned()
}

/// The directory that was found, or an error where none was.
pub fn config_dir_or_error(found: Option<String>) -> (r: Result<String, ConfigError>)
    ensures
        match found {
            Some(d) => r matches Ok(s) && s@ == d@,
            None => r is Err,
        },
{
    match found {
        Some(d) => Ok(d),
        None => Err(ConfigError { message: String::from_str("can't locate config directory") }),
    }
}

/// The configuration directory that `provider` tells, or an error where it
/// tells none.
pub fn get_config_dir<P: ConfigDirProvider>(provider: &P) -> (r: Result<String, ConfigError>) {
    config_dir_or_error(provider.get_config_dir())
}

/// The path of the configuration file inside the configuration directory
/// `dir`: the file `config.toml` in the directory `recision`.
pub fn config_file_path_in(dir: &str) -> (r: String)
    ensures
        r@ == joined_path(joined_path(dir@, "recision"@), "config.toml"@),
{
    let app_dir = join_path(dir, "recision");
    join_path(app_dir.as_str(), "config.toml")
}

/// The path of the configuration file in the directory that `provider`
/// tells, or an error where it tells none.
pub fn get_config_file_path<P: ConfigDirProvider>(provider: &P) -> (r: Result<String, ConfigError>)
    ensures
        r matches Ok(p) ==> exists|d: Seq<char>|
            p@ == joined_path(joined_path(d, "recision"@), "config.toml"@),
{
    match get_config_dir(provider) {
        Ok(dir) => Ok(config_file_path_in(dir.as_str())),
        Err(e) => Err(e),
    }
}

} // verus!
