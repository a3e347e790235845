//! Where Capto keeps its files: settings, crash reports and the control
//! plane's lock file all live under `<config>/Capto`, the user's config
//! directory (the current directory when the platform reports none).
//!
//! A path is an opaque value of the operating system here: the functions
//! below state how they assemble it from the config directory and fixed
//! components, through named results of `std::path`, and say nothing of
//! the config directory itself, which depends on the environment.

use vstd::prelude::*;
use crate::ipc::ConfigPathInfo;

verus! {

/// What `Path::join` gives: `base` with `name` appended as a component.
pub uninterp spec fn joined_path(base: std::path::PathBuf, name: Seq<char>) -> std::path::PathBuf;

/// What `Path::parent` gives (as an owned path): `p` without its final
/// component, if it has one.
pub uninterp spec fn parent_of(p: std::path::PathBuf) -> Option<std::path::PathBuf>;

/// What `PathBuf::from` gives for a text.
pub uninterp spec fn path_from(text: Seq<char>) -> std::path::PathBuf;

/// What `Path::to_string_lossy` gives: the path's text, invalid Unicode
/// replaced.
pub uninterp spec fn lossy_text(p: std::path::PathBuf) -> Seq<char>;

/// The user's config directory, if the platform reports one
/// (`dirs::config_dir`); it depends on the environment, so nothing is
/// stated of it.
#[verifier::external_body]
fn config_dir() -> Option<std::path::PathBuf> {
    dirs::config_dir()
}

/// `PathBuf::from(text)`. Claimed: the result is the named path of `text`.
#[verifier::external_body]
fn path_from_text(text: &str) -> (r: std::path::PathBuf)
    ensures
        r == path_from(text@),
{
    std::path::PathBuf::from(text)
}

/// `base.join(name)`. Claimed: the result is the named join of the two.
#[verifier::external_body]
pub(crate) fn join_path(base: &std::path::PathBuf, name: &str) -> (r: std::path::PathBuf)
    ensures
        r == joined_path(*base, name@),
{
    base.join(name)
}

/// `p.parent()`, owned. Claimed: the result is the named parent of `p`.
#[verifier::external_body]
fn parent_path(p: &std::path::PathBuf) -> (r: Option<std::path::PathBuf>)
    ensures
        r == parent_of(*p),
{
    p.parent().map(|d| d.to_path_buf())
}

/// `p.to_string_lossy()`, owned. Claimed: the result is the named text of `p`.
#[verifier::external_body]
fn path_text(p: &std::path::PathBuf) -> (r: String)
    ensures
        r@ == lossy_text(*p),
{
    p.to_string_lossy().into_owned()
}

/// The file `name` in the `Capto` folder under `base`.
pub open spec fn capto_file(base: std::path::PathBuf, name: Seq<char>) -> std::path::PathBuf {
    joined_path(joined_path(base, "Capto"@), name)
}

/// The folder holding `p`, or the current directory when it has none.
pub open spec fn folder_of(p: std::path::PathBuf) -> std::path::PathBuf {
    match parent_of(p) {
        Some(d) => d,
        None => path_from("."@),
    }
}

/// `<config>/Capto`: the `Capto` folder under some base, which is the
/// user's config directory or, when the platform reports none, `"."`.
fn capto_dir() -> (r: std::path::PathBuf)
    ensures
        exists|base: std::path::PathBuf| r == joined_path(base, "Capto"@),
{
    let base = match config_dir() {
        Some(d) => d,
        None => path_from_text("."),
    };
    let r = join_path(&base, "Capto");
    assert(r == joined_path(base, "Capto"@));
    r
}

/// `<config>/Capto/settings.json`, where the settings are saved.
pub fn settings_path() -> (r: std::path::PathBuf)
    ensures
        exists|base: std::path::PathBuf| r == capto_file(base, "settings.json"@),
{
    let dir = capto_dir();
    let ghost base = choose|base: std::path::PathBuf| dir == joined_path(base, "Capto"@);
    let r = join_path(&dir, "settings.json");
    assert(r == capto_file(base, "settings.json"@));
    r
}

/// Where the settings file lives, as text for the control plane.
pub fn config_path() -> (r: ConfigPathInfo)
    ensures
        exists|base: std::path::PathBuf| r.path@ == lossy_text(capto_file(base, "settings.json"@)),
{
    let p = settings_path();
    let ghost base = choose|base: std::path::PathBuf| p == capto_file(base, "settings.json"@);
    let r = ConfigPathInfo { path: path_text(&p) };
    assert(r.path@ == lossy_text(capto_file(base, "settings.json"@)));
    r
}

/// `<config>/Capto/crashes`, the folder beside settings.json that holds
/// crash reports.
pub fn crash_dir() -> (r: std::path::PathBuf)
    ensures
        exists|base: std::path::PathBuf| r == joined_path(
            folder_of(capto_file(base, "settings.json"@)),
            "crashes"@,
        ),
{
    let settings = settings_path();
    let ghost base = choose|base: std::path::PathBuf| settings == capto_file(base, "settings.json"@);
    let dir = match parent_path(&settings) {
        Some(d) => d,
        None => path_from_text("."),
    };
    let r = join_path(&dir, "crashes");
    assert(r == joined_path(folder_of(capto_file(base, "settings.json"@)), "crashes"@));
    r
}

/// `<config>/Capto/cli-server.json`, the control plane's lock file.
pub fn lock_path() -> (r: std::path::PathBuf)
    ensures
        exists|base: std::path::PathBuf| r == capto_file(base, "cli-server.json"@),
{
    let dir = capto_dir();
    let ghost base = choose|base: std::path::PathBuf| dir == joined_path(base, "Capto"@);
    let r = join_path(&dir, "cli-server.json");
    assert(r == capto_file(base, "cli-server.json"@));
    r
}

} // verus!
