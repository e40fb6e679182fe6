//! Resolved configuration: where things live, what is requested, and the
//! address of the metadata listing.
use vstd::prelude::*;

use crate::opt::{Extension, Resolution};

verus! {

/// Host of the image archive.
pub const URL_BASE: &'static str = "https://www.bing.com";

/// Address of the metadata listing, before its query.
pub const ARCHIVE_URL: &'static str = "https://www.bing.com/HPImageArchive.aspx";

/// Number of records asked for when nothing else says.
pub const DEFAULT_NUMBER: u8 = 8;

/// A pair of strings seen as text.
pub open spec fn pair_view(p: (String, String)) -> (Seq<char>, Seq<char>) {
    (p.0@, p.1@)
}

/// A list of string pairs seen as text.
pub open spec fn pairs_view(ps: Seq<(String, String)>) -> Seq<(Seq<char>, Seq<char>)> {
    ps.map_values(|p: (String, String)| pair_view(p))
}

/// An optional string seen as text.
pub open spec fn opt_text(o: Option<String>) -> Option<Seq<char>> {
    match o {
        Some(s) => Some(s@),
        None => None,
    }
}

/// The serialised URL that `url`'s `Url::parse_with_params` makes of a base
/// and query pairs, or `None` when the base does not parse.
pub uninterp spec fn url_with_params(
    base: Seq<char>,
    params: Seq<(Seq<char>, Seq<char>)>,
) -> Option<Seq<char>>;

/// Relies on url::Url::parse_with_params: parses `base`, appends the pairs
/// form-encoded as its query, and gives the serialised URL.
#[verifier::external_body]
fn encode_with_params(base: &str, params: &Vec<(String, String)>) -> (r: Option<String>)
    ensures
        opt_text(r) == url_with_params(base@, pairs_view(params@)),
{
    url::Url::parse_with_params(base, params.iter()).ok().map(String::from)
}

/// A copy of an optional string.
pub fn clone_text(o: &Option<String>) -> (r: Option<String>)
    ensures
        r == *o,
{
    match o {
        Some(s) => Some(s.clone()),
        None => None,
    }
}

/// Settings read from the configuration file; every one may be absent.
/// The same shape carries the overrides given on the command line.
#[derive(Debug, PartialEq, Eq)]
pub struct Raw {
    pub number: Option<u8>,
    pub index: Option<u8>,
    pub market: Option<String>,
    pub size: Option<Resolution>,
    pub ext: Option<Extension>,
}

impl Default for Raw {
    fn default() -> (r: Raw)
        ensures
            r.number is None,
            r.index is None,
            r.market is None,
            r.size is None,
            r.ext is None,
    {
        Raw { number: None, index: None, market: None, size: None, ext: None }
    }
}

impl Raw {
    /// A copy of these settings.
    pub fn duplicate(&self) -> (r: Raw)
        ensures
            r == *self,
    {
        Raw {
            number: self.number,
            index: self.index,
            market: clone_text(&self.market),
            size: self.size,
            ext: self.ext,
        }
    }
}

/// Query of the metadata listing.
#[derive(Debug, PartialEq, Eq)]
pub struct UrlParams {
    pub number: u8,
    pub index: Option<u8>,
    pub market: Option<String>,
}

/// The query pairs of the listing: `format=js`, `n`, then `idx` and `mkt`
/// where they are set.
pub open spec fn params_spec(p: UrlParams) -> Seq<(Seq<char>, Seq<char>)> {
    let head = seq![
        (seq!['f', 'o', 'r', 'm', 'a', 't'], seq!['j', 's']),
        (seq!['n'], crate::text::decimal(p.number as nat)),
    ];
    let with_index = match p.index {
        Some(i) => head.push((seq!['i', 'd', 'x'], crate::text::decimal(i as nat))),
        None => head,
    };
    match p.market {
        Some(m) => with_index.push((seq!['m', 'k', 't'], m@)),
        None => with_index,
    }
}

impl UrlParams {
    /// The listing's address with this query, or `None` when the fixed base
    /// address is refused by the URL parser.
    pub fn to_url(&self) -> (r: Option<String>)
        ensures
            opt_text(r) == url_with_params(ARCHIVE_URL@, params_spec(*self)),
    {
        let params = self.params();
        encode_with_params(ARCHIVE_URL, &params)
    }

    /// The query pairs, in order.
    pub fn params(&self) -> (r: Vec<(String, String)>)
        ensures
            pairs_view(r@) == params_spec(*self),
    {
        proof {
            reveal_strlit("format");
            reveal_strlit("js");
            reveal_strlit("n");
            reveal_strlit("idx");
            reveal_strlit("mkt");
        }
        let mut r: Vec<(String, String)> = Vec::new();
        let format = String::from_str("format");
        let js = String::from_str("js");
        let n = String::from_str("n");
        assert(format@ =~= seq!['f', 'o', 'r', 'm', 'a', 't']);
        assert(js@ =~= seq!['j', 's']);
        assert(n@ =~= seq!['n']);
        r.push((format, js));
        r.push((n, crate::text::decimal_string(self.number as u64)));
        if let Some(i) = self.index {
            let idx = String::from_str("idx");
            assert(idx@ =~= seq!['i', 'd', 'x']);
            r.push((idx, crate::text::decimal_string(i as u64)));
        }
        if let Some(m) = &self.market {
            let mkt = String::from_str("mkt");
            assert(mkt@ =~= seq!['m', 'k', 't']);
            r.push((mkt, m.clone()));
        }
        assert(pairs_view(r@) =~= params_spec(*self));
        r
    }
}

/// Locations of the configuration file, the image directory and the state file.
#[derive(Debug, PartialEq, Eq)]
pub struct Project {
    pub config_file_path: String,
    pub data_dir: String,
    pub state_file_path: String,
}

impl Project {
    /// A copy of these locations.
    pub fn duplicate(&self) -> (r: Project)
        ensures
            r == *self,
    {
        Project {
            config_file_path: self.config_file_path.clone(),
            data_dir: self.data_dir.clone(),
            state_file_path: self.state_file_path.clone(),
        }
    }
}

/// Locations given explicitly; each replaces the platform default.
#[derive(Debug, PartialEq, Eq)]
pub struct PathOverrides {
    pub config_path: Option<String>,
    pub data_path: Option<String>,
    pub state_path: Option<String>,
}

/// The platform's default locations; a platform may have no state directory.
#[derive(Debug, PartialEq, Eq)]
pub struct ProjectDefaults {
    pub config_file_path: String,
    pub data_dir: String,
    pub state_file_path: Option<String>,
}

/// Why the project's locations could not be settled.
#[derive(Debug, Clone, Copy, PartialEq, Eq, Structural)]
pub enum ProjectError {
    /// The platform gave no project directories.
    NoProjectDirs,
    /// The platform gave no state directory and none was given.
    NoStateDir,
}

impl Project {
    /// Settles each location: the explicit one where given, else the default.
    pub fn initialize(overrides: &PathOverrides, defaults: &Option<ProjectDefaults>) -> (r: Result<
        Project,
        ProjectError,
    >)
        ensures
            defaults is None ==> r == Err::<Project, ProjectError>(ProjectError::NoProjectDirs),
            defaults matches Some(d) ==> {
                &&& (overrides.state_path is None && d.state_file_path is None) ==> r == Err::<
                    Project,
                    ProjectError,
                >(ProjectError::NoStateDir)
                &&& (overrides.state_path is Some || d.state_file_path is Some) ==> (r matches Ok(
                    p,
                ) && p.config_file_path == (match overrides.config_path {
                    Some(c) => c,
                    None => d.config_file_path,
                }) && p.data_dir == (match overrides.data_path {
                    Some(c) => c,
                    None => d.data_dir,
                }) && p.state_file_path == (match overrides.state_path {
                    Some(c) => c,
                    None => d.state_file_path.unwrap(),
                }))
            },
    {
        let d = match defaults {
            Some(d) => d,
            None => return Err(ProjectError::NoProjectDirs),
        };
        let config_file_path = match &overrides.config_path {
            Some(c) => c.clone(),
            None => d.config_file_path.clone(),
        };
        let data_dir = match &overrides.data_path {
            Some(c) => c.clone(),
            None => d.data_dir.clone(),
        };
        let state_file_path = match &overrides.state_path {
            Some(c) => c.clone(),
            None => match &d.state_file_path {
                Some(s) => s.clone(),
                None => return Err(ProjectError::NoStateDir),
            },
        };
        Ok(Project { config_file_path, data_dir, state_file_path })
    }
}

/// The settings in force: command-line overrides over the file's settings
/// over the defaults.
#[derive(Debug, PartialEq, Eq)]
pub struct Config {
    pub raw: Raw,
    pub params: UrlParams,
    pub project: Project,
    pub size: Resolution,
    pub ext: Extension,
}

/// The first of two optional values that is present.
pub open spec fn first_of<T>(a: Option<T>, b: Option<T>) -> Option<T> {
    match a {
        Some(x) => Some(x),
        None => b,
    }
}

/// The market in force: the override, else the file's, dropped when empty.
pub open spec fn market_spec(opt: Option<String>, file: Option<String>) -> Option<String> {
    match first_of(opt, file) {
        Some(m) => if m@.len() == 0 {
            None
        } else {
            Some(m)
        },
        None => None,
    }
}

impl Config {
    /// Resolves the settings. `opt` holds what the command line gave.
    pub fn new(opt: &Raw, project: Project, raw_config: Raw) -> (r: Config)
        ensures
            r.raw == raw_config,
            r.project == project,
            r.params.number == (match first_of(opt.number, raw_config.number) {
                Some(n) => n,
                None => DEFAULT_NUMBER,
            }),
            r.params.index == first_of(opt.index, raw_config.index),
            r.params.market == market_spec(opt.market, raw_config.market),
            r.size == (match first_of(opt.size, raw_config.size) {
                Some(s) => s,
                None => Resolution::Uhd,
            }),
            r.ext == (match first_of(opt.ext, raw_config.ext) {
                Some(e) => e,
                None => Extension::Jpg,
            }),
    {
        let number = match opt.number {
            Some(n) => n,
            None => match raw_config.number {
                Some(n) => n,
                None => DEFAULT_NUMBER,
            },
        };
        let index = match opt.index {
            Some(i) => Some(i),
            None => raw_config.index,
        };
        let chosen = match &opt.market {
            Some(m) => Some(m.clone()),
            None => clone_text(&raw_config.market),
        };
        let market = match chosen {
            Some(m) => if m.unicode_len() == 0 {
                None
            } else {
                Some(m)
            },
            None => None,
        };
        let size = match opt.size {
            Some(s) => s,
            None => match raw_config.size {
                Some(s) => s,
                None => Resolution::Uhd,
            },
        };
        let ext = match opt.ext {
            Some(e) => e,
            None => match raw_config.ext {
                Some(e) => e,
                None => Extension::Jpg,
            },
        };
        Config {
            raw: raw_config,
            params: UrlParams { number, index, market },
            project,
            size,
            ext,
        }
    }

    /// Address of the metadata listing.
    pub fn to_url(&self) -> (r: Option<String>)
        ensures
            opt_text(r) == url_with_params(ARCHIVE_URL@, params_spec(self.params)),
    {
        self.params.to_url()
    }

    /// Offset of the first record asked for, counted back from today.
    pub fn index(&self) -> (r: Option<u8>)
        ensures
            r == self.params.index,
    {
        self.params.index
    }

    /// How many records are asked for.
    pub fn number(&self) -> (r: u8)
        ensures
            r == self.params.number,
    {
        self.params.number
    }

    /// The market code asked for, if any.
    pub fn market(&self) -> (r: Option<String>)
        ensures
            r == self.params.market,
    {
        clone_text(&self.params.market)
    }

    /// The settings in force, in the shape of the configuration file.
    pub fn resolved_raw(&self) -> (r: Raw)
        ensures
            r.index == self.params.index,
            r.market == self.params.market,
            r.number == Some(self.params.number),
            r.size == Some(self.size),
            r.ext == Some(self.ext),
    {
        Raw {
            index: self.index(),
            market: self.market(),
            number: Some(self.number()),
            size: Some(self.size),
            ext: Some(self.ext),
        }
    }
}

} // verus!
