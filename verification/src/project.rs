//! Project configuration values and the path arithmetic around them.
//!
//! Reading and writing configuration files, and walking the template glob,
//! are input/output concerns and live with the program around this library;
//! here stand the values themselves and the pure path computations.

use vstd::prelude::*;

use crate::chars::{chars_string, push_str_chars, str_chars};
use crate::parse::{spec_last_index_of};

verus! {

/// The configuration file name.
pub open spec fn spec_config_filename() -> Seq<char> {
    "ncmr.toml"@
}

/// The default glob pattern that finds template files.
pub open spec fn spec_default_templates_glob() -> Seq<char> {
    "./tmpls/**/*.md"@
}

/// User-editable configuration.
#[derive(Debug, Clone)]
pub struct ConfigUser {
    /// Glob pattern to find template files.
    pub templates: String,
}

/// The mathematical model of a [`ConfigUser`].
pub struct ConfigUserV {
    pub templates: Seq<char>,
}

impl View for ConfigUser {
    type V = ConfigUserV;

    open spec fn view(&self) -> ConfigUserV {
        ConfigUserV { templates: self.templates@ }
    }
}

impl Default for ConfigUser {
    /// The default configuration looks for templates under the default
    /// glob.
    fn default() -> (r: Self)
        ensures
            r@.templates == spec_default_templates_glob(),
    {
        ConfigUser { templates: Config::default_templates_glob() }
    }
}

/// A loaded project configuration: where it lives and what it holds.
#[derive(Debug, Clone)]
pub struct Config {
    /// Config path.
    pub path: String,
    /// User config.
    pub user: ConfigUser,
}

/// The mathematical model of a [`Config`].
pub struct ConfigV {
    pub path: Seq<char>,
    pub user: ConfigUserV,
}

impl View for Config {
    type V = ConfigV;

    open spec fn view(&self) -> ConfigV {
        ConfigV { path: self.path@, user: self.user@ }
    }
}

/// Whether a path already names the configuration file: it is the file
/// name itself, or ends in a slash followed by it.
pub open spec fn spec_names_config(p: Seq<char>) -> bool {
    let f = spec_config_filename();
    (p == f) || (p.len() > f.len() && p[p.len() - f.len() - 1] == '/' && p.subrange(
        p.len() - f.len(),
        p.len() as int,
    ) == f)
}

/// The configuration path under a directory: the directory joined with the
/// file name, with exactly one separating slash.
pub open spec fn spec_join_config(p: Seq<char>) -> Seq<char> {
    let f = spec_config_filename();
    if p.len() == 0 {
        f
    } else if p.last() == '/' {
        p + f
    } else {
        p + "/"@ + f
    }
}

impl Config {
    /// Wrap a configuration path and its user values.
    pub fn new(path: String, user: ConfigUser) -> (r: Self)
        ensures
            r@.path == path@,
            r@.user == user@,
    {
        Config { path, user }
    }

    /// The configuration path for a directory or file argument: kept as
    /// given when it already names the configuration file, else joined with
    /// the file name.
    pub fn resolve_path(path: &str) -> (r: String)
        ensures
            r@ == (if spec_names_config(path@) {
                path@
            } else {
                spec_join_config(path@)
            }),
    {
        let cs = str_chars(path);
        let f = str_chars("ncmr.toml");
        let pl = cs.len();
        let fl = f.len();
        let mut named = false;
        if pl == fl {
            named = crate::chars::chars_eq(&cs, &f);
        } else if pl > fl {
            if cs[pl - fl - 1] == '/' {
                let tail = crate::extract::subrange_chars(&cs, pl - fl, pl);
                named = crate::chars::chars_eq(&tail, &f);
            }
        }
        if named {
            crate::chars::lit_string(path)
        } else {
            Self::join_path(path)
        }
    }

    /// Join a directory path with the configuration file name.
    pub fn join_path(path: &str) -> (r: String)
        ensures
            r@ == spec_join_config(path@),
    {
        let cs = str_chars(path);
        let mut out: Vec<char> = Vec::new();
        push_str_chars(&mut out, path);
        if cs.len() > 0 && cs[cs.len() - 1] != '/' {
            out.push('/');
            proof {
                reveal_strlit("/");
                assert(out@ =~= path@ + "/"@);
            }
        }
        push_str_chars(&mut out, "ncmr.toml");
        proof {
            if path@.len() == 0 {
                assert(out@ =~= spec_join_config(path@));
            }
        }
        chars_string(&out)
    }

    /// The default glob pattern that finds template files.
    pub fn default_templates_glob() -> (r: String)
        ensures
            r@ == spec_default_templates_glob(),
    {
        crate::chars::lit_string("./tmpls/**/*.md")
    }

    /// The default configuration path: the file name in the current
    /// directory.
    pub fn default_path() -> (r: String)
        ensures
            r@ == spec_config_filename(),
    {
        crate::chars::lit_string("ncmr.toml")
    }
}

/// The directory holding a path's last component: everything before the
/// final slash, the root for a top-level path, or `.` when there is no
/// directory part.
pub open spec fn spec_parent_dir(p: Seq<char>) -> Seq<char> {
    let ls = spec_last_index_of(p, '/');
    if ls < 0 {
        "."@
    } else if ls == 0 {
        "/"@
    } else {
        p.take(ls)
    }
}

/// A loaded project: its configuration.
#[derive(Debug, Clone)]
pub struct Project {
    pub config: Config,
}

/// The mathematical model of a [`Project`].
pub struct ProjectV {
    pub config: ConfigV,
}

impl View for Project {
    type V = ProjectV;

    open spec fn view(&self) -> ProjectV {
        ProjectV { config: self.config@ }
    }
}

impl Project {
    /// Wrap a loaded configuration.
    pub fn from_config(config: Config) -> (r: Self)
        ensures
            r@.config == config@,
    {
        Project { config }
    }

    /// The project root: the directory holding the configuration file.
    pub fn path(&self) -> (r: String)
        ensures
            r@ == spec_parent_dir(self@.config.path),
    {
        let cs = str_chars(self.config.path.as_str());
        match crate::parse::last_index_of(&cs, '/') {
            Option::None => crate::chars::lit_string("."),
            Option::Some(ls) => {
                if ls == 0 {
                    crate::chars::lit_string("/")
                } else {
                    let head = crate::extract::subrange_chars(&cs, 0, ls);
                    proof {
                        assert(head@ =~= self@.config.path.take(ls as int));
                    }
                    chars_string(&head)
                }
            },
        }
    }
}

} // verus!
