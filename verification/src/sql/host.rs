//! Host option and result types for binding a save to the SQL session.

use vstd::prelude::*;
use std::path::PathBuf;

verus! {

/// Declares std's `PathBuf` so that paths can be carried in the option
/// types. Trusted: Verus sees nothing inside a path and nothing here is
/// claimed of one; paths are only moved through.
#[verifier::external_type_specification]
#[verifier::external_body]
pub struct ExPathBuf(PathBuf);

/// std's `Clone` for `PathBuf`, used by the derived `Clone` of
/// [`EngineLoadOpts`]. Trusted, and nothing is claimed of the copy: a path is
/// opaque here.
pub assume_specification[ <PathBuf as Clone>::clone ](path: &PathBuf) -> (copy: PathBuf);

/// How the engine loads defs/tokens when resolving a save path.
#[derive(Debug, Clone)]
pub struct EngineLoadOpts {
    /// Postcard defs blob path (from the game install or a prepared blob).
    pub defs_blob: PathBuf,
    /// Optional token map for binary/ironman saves.
    pub tokens: Option<PathBuf>,
    /// JSON solve options (empty / `{}` = defaults).
    pub solve_opts_json: String,
}

impl EngineLoadOpts {
    /// Options for `defs_blob`, no token map, default solve options (`{}`).
    pub fn new(defs_blob: PathBuf) -> (o: EngineLoadOpts)
        ensures
            o.defs_blob == defs_blob,
            o.tokens is None,
            o.solve_opts_json@ == seq!['{', '}'],
    {
        let mut json = String::new();
        crate::text::push_char(&mut json, '{');
        crate::text::push_char(&mut json, '}');
        EngineLoadOpts { defs_blob, tokens: None, solve_opts_json: json }
    }

    /// The same options with a token map.
    pub fn with_tokens(self, tokens: PathBuf) -> (o: EngineLoadOpts)
        ensures
            o.defs_blob == self.defs_blob,
            o.tokens == Some(tokens),
            o.solve_opts_json == self.solve_opts_json,
    {
        EngineLoadOpts { tokens: Some(tokens), ..self }
    }
}

/// Result of a successful `use_save`.
#[derive(Debug, Clone, PartialEq, Eq)]
pub struct UseSaveResult {
    pub name: String,
    pub kind: String,
    pub in_game_date: Option<String>,
    pub country: Option<String>,
    pub loaded: bool,
}

/// How a `use_save` request picks its save.
#[derive(Debug, Clone, Copy, PartialEq, Eq)]
pub enum SaveRoute {
    /// By filename stub (with optional location / mtime disambiguation).
    ByName,
    /// By selector (`latest`, `latest_autosave`, `latest_named`).
    BySelector,
    /// Both a name and a selector were given.
    BothGiven,
    /// Neither a name nor a selector was given.
    NoneGiven,
}

/// Which lookup a `use_save` request asks for: exactly one of name or
/// selector must be given.
pub fn save_route(has_name: bool, has_selector: bool) -> (r: SaveRoute)
    ensures
        r == (if has_name && !has_selector {
            SaveRoute::ByName
        } else if !has_name && has_selector {
            SaveRoute::BySelector
        } else if has_name {
            SaveRoute::BothGiven
        } else {
            SaveRoute::NoneGiven
        }),
{
    match (has_name, has_selector) {
        (true, false) => SaveRoute::ByName,
        (false, true) => SaveRoute::BySelector,
        (true, true) => SaveRoute::BothGiven,
        (false, false) => SaveRoute::NoneGiven,
    }
}


/// Error text of a request that does not pick exactly one lookup (`None`
/// for a valid request).
pub fn route_error(r: SaveRoute) -> (msg: Option<&'static str>)
    ensures
        (match r {
            SaveRoute::BothGiven => msg matches Some(m) && m@ == "use_save: provide exactly one of name or selector"@,
            SaveRoute::NoneGiven => msg matches Some(m)
                && m@ == "use_save: provide name or selector (latest|latest_autosave|latest_named)"@,
            _ => msg is None,
        }),
{
    match r {
        SaveRoute::BothGiven => Some("use_save: provide exactly one of name or selector"),
        SaveRoute::NoneGiven => Some("use_save: provide name or selector (latest|latest_autosave|latest_named)"),
        _ => None,
    }
}

/// Where a catalog save lives.
#[derive(Debug, Clone, Copy, PartialEq, Eq, Structural)]
pub enum SaveLocation {
    Local,
    SteamCloud,
}

/// The parts of a catalog entry that identify one save file: stub name,
/// location, modification time (seconds and nanoseconds since the epoch)
/// and path.
#[derive(Debug, Clone, PartialEq, Eq)]
pub struct SaveKey {
    pub name: String,
    pub location: SaveLocation,
    pub mtime_secs: u64,
    pub mtime_nanos: u32,
    pub path: Option<String>,
}

/// Whether two entries name the same save file: all identifying parts agree.
pub open spec fn spec_same_entry(a: SaveKey, b: SaveKey) -> bool {
    &&& a.name@ == b.name@
    &&& a.location == b.location
    &&& a.mtime_secs == b.mtime_secs
    &&& a.mtime_nanos == b.mtime_nanos
    &&& match (a.path, b.path) {
        (Some(p), Some(q)) => p@ == q@,
        (None, None) => true,
        _ => false,
    }
}

/// See [`spec_same_entry`].
pub fn same_entry(a: &SaveKey, b: &SaveKey) -> (r: bool)
    ensures
        r == spec_same_entry(*a, *b),
{
    let paths = match (&a.path, &b.path) {
        (Some(p), Some(q)) => crate::text::str_eq(p.as_str(), q.as_str()),
        (None, None) => true,
        _ => false,
    };
    crate::text::str_eq(a.name.as_str(), b.name.as_str()) && a.location == b.location
        && a.mtime_secs == b.mtime_secs && a.mtime_nanos == b.mtime_nanos && paths
}

/// Whether the cached `latest.*` binding can serve the catalog's current
/// newest save: a binding is cached and it was loaded from that same save.
pub fn latest_cache_hit(cached: &Option<SaveKey>, newest: &SaveKey) -> (r: bool)
    ensures
        r == (*cached matches Some(c) && spec_same_entry(c, *newest)),
{
    match cached {
        Some(c) => same_entry(c, newest),
        None => false,
    }
}

} // verus!
