//! The fixed set of file and directory names that tree comparison skips
//! (version-control metadata, CI configuration, lockfiles, editor settings,
//! build-tool caches), and the drift decision over a list of differing paths.
//!
//! A path is given as its components; a whole path is skipped when any of its
//! components bears an ignored name, matching a recursive comparison that
//! excludes entries of that name at every directory level.

use vstd::prelude::*;

verus! {

/// Whether `n` is one of the file or directory names that tree comparison
/// skips.
pub open spec fn spec_is_ignored(n: Seq<char>) -> bool {
    ||| n == ".appveyor.yml"@
    ||| n == ".bazelci"@
    ||| n == ".bazelignore"@
    ||| n == ".bazelrc"@
    ||| n == ".bazelversion"@
    ||| n == ".buildkite"@
    ||| n == ".cargo"@
    ||| n == ".cargo-checksum.json"@
    ||| n == ".cargo_vcs_info.json"@
    ||| n == ".circleci"@
    ||| n == ".cirrus.yml"@
    ||| n == ".clang-format"@
    ||| n == ".clang-tidy"@
    ||| n == ".clippy.toml"@
    ||| n == ".clog.toml"@
    ||| n == ".codecov.yaml"@
    ||| n == ".codecov.yml"@
    ||| n == ".editorconfig"@
    ||| n == ".envrc"@
    ||| n == ".gcloudignore"@
    ||| n == ".gdbinit"@
    ||| n == ".git"@
    ||| n == ".git-blame-ignore-revs"@
    ||| n == ".git-ignore-revs"@
    ||| n == ".gitallowed"@
    ||| n == ".gitattributes"@
    ||| n == ".github"@
    ||| n == ".gitignore"@
    ||| n == ".idea"@
    ||| n == ".ignore"@
    ||| n == ".istanbul.yml"@
    ||| n == ".mailmap"@
    ||| n == ".md-inc.toml"@
    ||| n == ".mdl-style.rb"@
    ||| n == ".mdlrc"@
    ||| n == ".pylintrc"@
    ||| n == ".pylintrc-examples"@
    ||| n == ".pylintrc-tests"@
    ||| n == ".reuse"@
    ||| n == ".rspec"@
    ||| n == ".rustfmt.toml"@
    ||| n == ".shellcheckrc"@
    ||| n == ".standard-version"@
    ||| n == ".tarpaulin.toml"@
    ||| n == ".tokeignore"@
    ||| n == ".travis.yml"@
    ||| n == ".versionrc"@
    ||| n == ".vim"@
    ||| n == ".vscode"@
    ||| n == ".yapfignore"@
    ||| n == ".yardopts"@
    ||| n == "BUILD"@
    ||| n == "Cargo.lock"@
    ||| n == "Cargo.lock.saved"@
    ||| n == "Cargo.toml.orig"@
    ||| n == "OWNERS"@
    ||| n == "cargo2rulesmk.json"@
    ||| n == "Android.bp.orig"@
    ||| n == "cargo.metadata"@
    ||| n == "cargo.out"@
    ||| n == "target.tmp"@
}

/// Whether some component of the path `p` bears an ignored name.
pub open spec fn spec_path_ignored(p: Seq<Seq<char>>) -> bool {
    exists|i: int| 0 <= i < p.len() && spec_is_ignored(p[i])
}

/// Whether every differing path in `ds` is confined to ignored names, so
/// that the difference does not count as drift.
pub open spec fn spec_diffs_clean(ds: Seq<Seq<Seq<char>>>) -> bool {
    forall|i: int| 0 <= i < ds.len() ==> spec_path_ignored(#[trigger] ds[i])
}

fn lit_eq(n: &String, lit: &str) -> (r: bool)
    ensures
        r == (n@ == lit@),
{
    let s = String::from_str(lit);
    *n == s
}

/// Whether `n` is one of the file or directory names that tree comparison
/// skips.
pub fn is_ignored(n: &String) -> (r: bool)
    ensures
        r == spec_is_ignored(n@),
{
    let r = lit_eq(n, ".appveyor.yml") || lit_eq(n, ".bazelci") || lit_eq(n, ".bazelignore")
        || lit_eq(n, ".bazelrc") || lit_eq(n, ".bazelversion") || lit_eq(n, ".buildkite")
        || lit_eq(n, ".cargo") || lit_eq(n, ".cargo-checksum.json") || lit_eq(
        n,
        ".cargo_vcs_info.json",
    ) || lit_eq(n, ".circleci") || lit_eq(n, ".cirrus.yml") || lit_eq(n, ".clang-format")
        || lit_eq(n, ".clang-tidy") || lit_eq(n, ".clippy.toml") || lit_eq(n, ".clog.toml")
        || lit_eq(n, ".codecov.yaml") || lit_eq(n, ".codecov.yml") || lit_eq(n, ".editorconfig")
        || lit_eq(n, ".envrc") || lit_eq(n, ".gcloudignore") || lit_eq(n, ".gdbinit") || lit_eq(
        n,
        ".git",
    ) || lit_eq(n, ".git-blame-ignore-revs") || lit_eq(n, ".git-ignore-revs") || lit_eq(
        n,
        ".gitallowed",
    ) || lit_eq(n, ".gitattributes") || lit_eq(n, ".github") || lit_eq(n, ".gitignore") || lit_eq(
        n,
        ".idea",
    ) || lit_eq(n, ".ignore") || lit_eq(n, ".istanbul.yml") || lit_eq(n, ".mailmap") || lit_eq(
        n,
        ".md-inc.toml",
    ) || lit_eq(n, ".mdl-style.rb") || lit_eq(n, ".mdlrc") || lit_eq(n, ".pylintrc") || lit_eq(
        n,
        ".pylintrc-examples",
    ) || lit_eq(n, ".pylintrc-tests") || lit_eq(n, ".reuse") || lit_eq(n, ".rspec") || lit_eq(
        n,
        ".rustfmt.toml",
    ) || lit_eq(n, ".shellcheckrc") || lit_eq(n, ".standard-version") || lit_eq(
        n,
        ".tarpaulin.toml",
    ) || lit_eq(n, ".tokeignore") || lit_eq(n, ".travis.yml") || lit_eq(n, ".versionrc") || lit_eq(
        n,
        ".vim",
    ) || lit_eq(n, ".vscode") || lit_eq(n, ".yapfignore") || lit_eq(n, ".yardopts") || lit_eq(
        n,
        "BUILD",
    ) || lit_eq(n, "Cargo.lock") || lit_eq(n, "Cargo.lock.saved") || lit_eq(n, "Cargo.toml.orig")
        || lit_eq(n, "OWNERS") || lit_eq(n, "cargo2rulesmk.json") || lit_eq(n, "Android.bp.orig")
        || lit_eq(n, "cargo.metadata") || lit_eq(n, "cargo.out") || lit_eq(n, "target.tmp");
    r
}

/// Whether some component of the path `p` bears an ignored name.
pub fn path_is_ignored(p: &Vec<String>) -> (r: bool)
    ensures
        r == spec_path_ignored(p.deep_view()),
{
    let mut i: usize = 0;
    while i < p.len()
        invariant
            0 <= i <= p.len(),
            forall|k: int| 0 <= k < i ==> !spec_is_ignored(p.deep_view()[k]),
        decreases p.len() - i,
    {
        if is_ignored(&p[i]) {
            assert(spec_is_ignored(p.deep_view()[i as int]));
            return true;
        }
        i += 1;
    }
    false
}

/// Whether every differing path in `diffs` is confined to ignored names.
///
/// The paths are those a recursive, whitespace-insensitive comparison of the
/// two trees reports as differing, each split into its components.
pub fn diffs_clean(diffs: &Vec<Vec<String>>) -> (r: bool)
    ensures
        r == spec_diffs_clean(diffs.deep_view()),
{
    let mut i: usize = 0;
    while i < diffs.len()
        invariant
            0 <= i <= diffs.len(),
            forall|k: int| 0 <= k < i ==> spec_path_ignored(#[trigger] diffs.deep_view()[k]),
        decreases diffs.len() - i,
    {
        if !path_is_ignored(&diffs[i]) {
            assert(!spec_path_ignored(diffs.deep_view()[i as int]));
            return false;
        }
        i += 1;
    }
    true
}

} // verus!
