//! Locations and persisted settings of the shared global store.
//!
//! Everything lives under `~/.depot`:
//!   * `store/pnpm`: pnpm's content-addressable store (hard-links into projects)
//!   * `store/uv`: uv's global cache (hard-links into venvs)
//!   * `config.toml`, `registry.json`

use vstd::prelude::*;

use crate::scan::{default_root, home_or_dot};
use crate::text::{current_style, join, path_join, PathStyle};

verus! {

/// `.depot` under the root directory `root`.
pub open spec fn depot_dir(root: Seq<char>, style: PathStyle) -> Seq<char> {
    path_join(root, ".depot"@, style)
}

/// The store directory under the root directory `root`.
pub open spec fn store_dir(root: Seq<char>, style: PathStyle) -> Seq<char> {
    path_join(depot_dir(root, style), "store"@, style)
}

/// What a home directory lookup can give: no directory, or a non-empty
/// path.
pub open spec fn home_lookup(h: Option<Seq<char>>) -> bool {
    h matches Some(x) ==> x.len() > 0
}

/// depot's own directory under the root `root`: `root/.depot`.
pub fn config_dir_under(root: &str, style: PathStyle) -> (res: String)
    ensures
        res@ == depot_dir(root@, style),
{
    join(root, ".depot", style)
}

/// The shared store under the root `root`: `root/.depot/store`.
pub fn store_root_under(root: &str, style: PathStyle) -> (res: String)
    ensures
        res@ == store_dir(root@, style),
{
    let base = config_dir_under(root, style);
    join(base.as_str(), "store", style)
}

/// pnpm's store under the root `root`: `root/.depot/store/pnpm`.
pub fn pnpm_store_under(root: &str, style: PathStyle) -> (res: String)
    ensures
        res@ == path_join(store_dir(root@, style), "pnpm"@, style),
{
    let base = store_root_under(root, style);
    join(base.as_str(), "pnpm", style)
}

/// uv's cache under the root `root`: `root/.depot/store/uv`.
pub fn uv_cache_under(root: &str, style: PathStyle) -> (res: String)
    ensures
        res@ == path_join(store_dir(root@, style), "uv"@, style),
{
    let base = store_root_under(root, style);
    join(base.as_str(), "uv", style)
}

/// The hub settings file under the root `root`: `root/.depot/config.toml`.
pub fn config_path_under(root: &str, style: PathStyle) -> (res: String)
    ensures
        res@ == path_join(depot_dir(root@, style), "config.toml"@, style),
{
    let base = config_dir_under(root, style);
    join(base.as_str(), "config.toml", style)
}

/// The project registry under the root `root`: `root/.depot/registry.json`.
pub fn registry_path_under(root: &str, style: PathStyle) -> (res: String)
    ensures
        res@ == path_join(depot_dir(root@, style), "registry.json"@, style),
{
    let base = config_dir_under(root, style);
    join(base.as_str(), "registry.json", style)
}

/// The directory holding depot's own files: `.depot` in the home directory
/// (or in `.` when the home directory is unknown), joined in the platform's
/// path style. Which home and platform it is depends on the environment;
/// [`config_dir_under`] states the path for each root and style.
pub fn config_dir() -> (res: String)
    ensures
        exists|h: Option<Seq<char>>, style: PathStyle| home_lookup(h) && res@ == depot_dir(home_or_dot(h), style),
{
    let root = default_root();
    let style = current_style();
    let res = config_dir_under(root.as_str(), style);
    proof {
        let h = choose|h: Option<Seq<char>>| (h matches Some(x) ==> x.len() > 0) && root@ == home_or_dot(h);
        assert(home_lookup(h) && res@ == depot_dir(home_or_dot(h), style));
    }
    res
}

/// The root of the shared store, `~/.depot/store`.
pub fn store_root() -> (res: String)
    ensures
        exists|h: Option<Seq<char>>, style: PathStyle| home_lookup(h) && res@ == store_dir(home_or_dot(h), style),
{
    let root = default_root();
    let style = current_style();
    let res = store_root_under(root.as_str(), style);
    proof {
        let h = choose|h: Option<Seq<char>>| (h matches Some(x) ==> x.len() > 0) && root@ == home_or_dot(h);
        assert(home_lookup(h) && res@ == store_dir(home_or_dot(h), style));
    }
    res
}

/// pnpm's content-addressable store, `~/.depot/store/pnpm`.
pub fn pnpm_store() -> (res: String)
    ensures
        exists|h: Option<Seq<char>>, style: PathStyle|
            home_lookup(h) && res@ == path_join(store_dir(home_or_dot(h), style), "pnpm"@, style),
{
    let root = default_root();
    let style = current_style();
    let res = pnpm_store_under(root.as_str(), style);
    proof {
        let h = choose|h: Option<Seq<char>>| (h matches Some(x) ==> x.len() > 0) && root@ == home_or_dot(h);
        assert(home_lookup(h) && res@ == path_join(store_dir(home_or_dot(h), style), "pnpm"@, style));
    }
    res
}

/// uv's global cache, `~/.depot/store/uv`.
pub fn uv_cache() -> (res: String)
    ensures
        exists|h: Option<Seq<char>>, style: PathStyle|
            home_lookup(h) && res@ == path_join(store_dir(home_or_dot(h), style), "uv"@, style),
{
    let root = default_root();
    let style = current_style();
    let res = uv_cache_under(root.as_str(), style);
    proof {
        let h = choose|h: Option<Seq<char>>| (h matches Some(x) ==> x.len() > 0) && root@ == home_or_dot(h);
        assert(home_lookup(h) && res@ == path_join(store_dir(home_or_dot(h), style), "uv"@, style));
    }
    res
}

/// The hub settings file, `~/.depot/config.toml`.
pub fn config_path() -> (res: String)
    ensures
        exists|h: Option<Seq<char>>, style: PathStyle| home_lookup(h) && res@ == path_join(
            depot_dir(home_or_dot(h), style),
            "config.toml"@,
            style,
        ),
{
    let root = default_root();
    let style = current_style();
    let res = config_path_under(root.as_str(), style);
    proof {
        let h = choose|h: Option<Seq<char>>| (h matches Some(x) ==> x.len() > 0) && root@ == home_or_dot(h);
        assert(home_lookup(h) && res@ == path_join(depot_dir(home_or_dot(h), style), "config.toml"@, style));
    }
    res
}

/// The project registry file, `~/.depot/registry.json`.
pub fn registry_path() -> (res: String)
    ensures
        exists|h: Option<Seq<char>>, style: PathStyle| home_lookup(h) && res@ == path_join(
            depot_dir(home_or_dot(h), style),
            "registry.json"@,
            style,
        ),
{
    let root = default_root();
    let style = current_style();
    let res = registry_path_under(root.as_str(), style);
    proof {
        let h = choose|h: Option<Seq<char>>| (h matches Some(x) ==> x.len() > 0) && root@ == home_or_dot(h);
        assert(home_lookup(h) && res@ == path_join(depot_dir(home_or_dot(h), style), "registry.json"@, style));
    }
    res
}

/// Persisted hub settings (mostly a record of where the store points).
pub struct HubConfig {
    pub initialized: bool,
    pub pnpm_store: String,
    pub uv_cache: String,
}

} // verus!
