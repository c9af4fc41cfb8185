//! The tool's settings and the rules for loading and saving them.
use vstd::prelude::*;

verus! {

/// The settings file of the tool. The CalDAV password is never written
/// to the file: it comes from the environment or the command line.
#[derive(Debug, Clone)]
pub struct Config {
    pub api_url: Option<String>,
    pub default_group: Option<u32>,
    pub caldav_url: Option<String>,
    pub caldav_username: Option<String>,
    pub caldav_password: Option<String>,
    pub college_name: Option<String>,
    pub calendar_name: Option<String>,
    pub timezone: Option<String>,
}

/// A settings value with nothing set.
pub open spec fn empty_config() -> Config {
    Config {
        api_url: None,
        default_group: None,
        caldav_url: None,
        caldav_username: None,
        caldav_password: None,
        college_name: None,
        calendar_name: None,
        timezone: None,
    }
}

impl Default for Config {
    fn default() -> (res: Config)
        ensures
            res == empty_config(),
    {
        Config {
            api_url: None,
            default_group: None,
            caldav_url: None,
            caldav_username: None,
            caldav_password: None,
            college_name: None,
            calendar_name: None,
            timezone: None,
        }
    }
}

pub(crate) fn clone_opt(o: &Option<String>) -> (res: Option<String>)
    ensures
        res == *o,
{
    match o {
        Some(s) => Some(s.clone()),
        None => None,
    }
}

/// `new` where it is set, else `old`.
pub open spec fn overridden<T>(old: Option<T>, new: Option<T>) -> Option<T> {
    match new {
        Some(v) => Some(v),
        None => old,
    }
}

/// The settings in effect at start-up: the stored settings (nothing set when
/// there is no settings file), with the password taken from the environment
/// when they hold none.
pub open spec fn loaded_config(stored: Option<Config>, env_password: Option<String>) -> Config {
    let c = match stored {
        None => empty_config(),
        Some(c) => c,
    };
    Config { caldav_password: overridden(env_password, c.caldav_password), ..c }
}

/// The settings as written to the settings file.
pub open spec fn saved_config(c: Config) -> Config {
    Config { caldav_password: None, ..c }
}

impl Config {
    /// The settings in effect at start-up: the stored settings (nothing set
    /// when there is no settings file, `stored` is `None`), with the password
    /// taken from `env_password` when they hold none.
    pub fn load(stored: Option<Config>, env_password: Option<String>) -> (res: Config)
        ensures
            res == loaded_config(stored, env_password),
    {
        let mut c = match stored {
            None => Config::default(),
            Some(c) => c,
        };
        if c.caldav_password.is_none() {
            c.caldav_password = env_password;
        }
        c
    }

    /// The settings as written to the settings file: the same, without the password.
    pub fn save(&self) -> (res: Config)
        ensures
            res == saved_config(*self),
            res.caldav_password is None,
    {
        Config {
            api_url: clone_opt(&self.api_url),
            default_group: self.default_group,
            caldav_url: clone_opt(&self.caldav_url),
            caldav_username: clone_opt(&self.caldav_username),
            caldav_password: None,
            college_name: clone_opt(&self.college_name),
            calendar_name: clone_opt(&self.calendar_name),
            timezone: clone_opt(&self.timezone),
        }
    }

    /// The settings after the global command-line options: an API URL or a
    /// group given there replaces the stored one.
    pub fn with_cli_overrides(self, api_url: Option<String>, group: Option<u32>) -> (res: Config)
        ensures
            res == (Config {
                api_url: overridden(self.api_url, api_url),
                default_group: overridden(self.default_group, group),
                ..self
            }),
    {
        let mut c = self;
        if let Some(u) = api_url {
            c.api_url = Some(u);
        }
        if let Some(g) = group {
            c.default_group = Some(g);
        }
        c
    }

    /// The settings after the `config` command: each value given replaces
    /// the stored one.
    pub fn with_settings(
        self,
        caldav_url: Option<String>,
        username: Option<String>,
        password: Option<String>,
        default_group: Option<u32>,
        api_url: Option<String>,
    ) -> (res: Config)
        ensures
            res == (Config {
                caldav_url: overridden(self.caldav_url, caldav_url),
                caldav_username: overridden(self.caldav_username, username),
                caldav_password: overridden(self.caldav_password, password),
                default_group: overridden(self.default_group, default_group),
                api_url: overridden(self.api_url, api_url),
                ..self
            }),
    {
        let mut c = self;
        if let Some(u) = caldav_url {
            c.caldav_url = Some(u);
        }
        if let Some(u) = username {
            c.caldav_username = Some(u);
        }
        if let Some(p) = password {
            c.caldav_password = Some(p);
        }
        if let Some(g) = default_group {
            c.default_group = Some(g);
        }
        if let Some(u) = api_url {
            c.api_url = Some(u);
        }
        c
    }
}

/// The college name shown in event locations: the configured one, else `College`.
pub open spec fn college_text(c: Config) -> Seq<char> {
    match c.college_name {
        Some(n) => n@,
        None => "College"@,
    }
}

/// The time zone of event times: the configured one, else `Europe/Moscow`.
pub open spec fn timezone_text(c: Config) -> Seq<char> {
    match c.timezone {
        Some(t) => t@,
        None => "Europe/Moscow"@,
    }
}

impl Config {
    /// The college name shown in event locations.
    pub fn college_or_default(&self) -> (res: String)
        ensures
            res@ == college_text(*self),
    {
        match &self.college_name {
            Some(n) => n.clone(),
            None => String::from_str("College"),
        }
    }

    /// The time zone of event times.
    pub fn timezone_or_default(&self) -> (res: String)
        ensures
            res@ == timezone_text(*self),
    {
        match &self.timezone {
            Some(t) => t.clone(),
            None => String::from_str("Europe/Moscow"),
        }
    }
}

/// Reading back what was saved gives every setting as it was, except the
/// password, which then comes from the environment.
pub proof fn lemma_load_after_save(c: Config, env_password: Option<String>)
    ensures
        loaded_config(Some(saved_config(c)), env_password) == (Config { caldav_password: env_password, ..c }),
{
}

} // verus!
