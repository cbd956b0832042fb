//! Per-path exclusion rules for diff filtering.
//!
//! A path is excluded when it contains any of a fixed set of plain
//! substrings: package-manager lockfiles, minified and bundled assets,
//! build-output directories (matched anywhere in the path, intentionally
//! broad), an auto-generated changelog, editor metadata directories,
//! OS artifacts, and source maps. There is no glob syntax, and matching
//! is case-sensitive. A suffix match is a substring match, so containment
//! alone decides.

use vstd::prelude::*;
use crate::text::{contains_seq, contains_str, to_chars};

verus! {

/// When a path is excluded from a diff: it contains one of the fixed
/// exclusion patterns as a substring.
pub open spec fn spec_should_skip(path: Seq<char>) -> bool {
    ||| contains_seq(path, "package-lock.json"@)
    ||| contains_seq(path, "yarn.lock"@)
    ||| contains_seq(path, "pnpm-lock.yaml"@)
    ||| contains_seq(path, "composer.lock"@)
    ||| contains_seq(path, "Gemfile.lock"@)
    ||| contains_seq(path, "poetry.lock"@)
    ||| contains_seq(path, "Pipfile.lock"@)
    ||| contains_seq(path, "go.sum"@)
    ||| contains_seq(path, ".min.js"@)
    ||| contains_seq(path, ".min.css"@)
    ||| contains_seq(path, ".bundle.js"@)
    ||| contains_seq(path, ".bundle.css"@)
    ||| contains_seq(path, "dist/"@)
    ||| contains_seq(path, "build/"@)
    ||| contains_seq(path, "output/"@)
    ||| contains_seq(path, "out/"@)
    ||| contains_seq(path, "CHANGELOG.md"@)
    ||| contains_seq(path, ".vscode/"@)
    ||| contains_seq(path, ".idea/"@)
    ||| contains_seq(path, ".DS_Store"@)
    ||| contains_seq(path, "Thumbs.db"@)
    ||| contains_seq(path, ".json.map"@)
    ||| contains_seq(path, ".js.map"@)
    ||| contains_seq(path, ".css.map"@)
}

/// Decides whether the hunks of the file at `file_path` should be dropped
/// from a diff: true exactly when the path holds one of the exclusion
/// patterns. Never fails; any path gets an answer.
pub fn should_skip_file(file_path: &str) -> (r: bool)
    ensures
        r == spec_should_skip(file_path@),
{
    let chars = to_chars(file_path);
    should_skip_path(&chars)
}

/// The same decision, taken on a path already split into characters.
pub fn should_skip_path(path: &Vec<char>) -> (r: bool)
    ensures
        r == spec_should_skip(path@),
{
    contains_str(path, "package-lock.json") || contains_str(path, "yarn.lock") || contains_str(
        path,
        "pnpm-lock.yaml",
    ) || contains_str(path, "composer.lock") || contains_str(path, "Gemfile.lock")
        || contains_str(path, "poetry.lock") || contains_str(path, "Pipfile.lock")
        || contains_str(path, "go.sum") || contains_str(path, ".min.js") || contains_str(
        path,
        ".min.css",
    ) || contains_str(path, ".bundle.js") || contains_str(path, ".bundle.css") || contains_str(
        path,
        "dist/",
    ) || contains_str(path, "build/") || contains_str(path, "output/") || contains_str(
        path,
        "out/",
    ) || contains_str(path, "CHANGELOG.md") || contains_str(path, ".vscode/") || contains_str(
        path,
        ".idea/",
    ) || contains_str(path, ".DS_Store") || contains_str(path, "Thumbs.db") || contains_str(
        path,
        ".json.map",
    ) || contains_str(path, ".js.map") || contains_str(path, ".css.map")
}

} // verus!
