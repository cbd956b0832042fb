use diff_analyzer::diff_filter::filter_large_generated_files;
use diff_analyzer::path_filter::should_skip_file;

#[test]
fn excludes_lockfiles_by_name() {
    assert!(should_skip_file("package-lock.json"));
    assert!(should_skip_file("yarn.lock"));
    assert!(should_skip_file("pnpm-lock.yaml"));
    assert!(should_skip_file("composer.lock"));
    assert!(should_skip_file("Gemfile.lock"));
    assert!(should_skip_file("poetry.lock"));
    assert!(should_skip_file("Pipfile.lock"));
    assert!(should_skip_file("go.sum"));
}

#[test]
fn excludes_generated_and_editor_artifacts() {
    assert!(should_skip_file("app.min.js"));
    assert!(should_skip_file("style.min.css"));
    assert!(should_skip_file("vendor.bundle.js"));
    assert!(should_skip_file("vendor.bundle.css"));
    assert!(should_skip_file("CHANGELOG.md"));
    assert!(should_skip_file(".vscode/settings.json"));
    assert!(should_skip_file(".idea/workspace.xml"));
    assert!(should_skip_file(".DS_Store"));
    assert!(should_skip_file("Thumbs.db"));
    assert!(should_skip_file("data.json.map"));
    assert!(should_skip_file("app.js.map"));
    assert!(should_skip_file("style.css.map"));
}

#[test]
fn build_directories_match_anywhere_in_the_path() {
    assert!(should_skip_file("dist/bundle.js"));
    assert!(should_skip_file("packages/web/dist/bundle.js"));
    assert!(should_skip_file("build/out.o"));
    assert!(should_skip_file("output/report.txt"));
    assert!(should_skip_file("out/main.rs"));
    // The match is a plain substring, so a directory merely ending in the
    // pattern is caught too: deliberately broad.
    assert!(should_skip_file("mydist/file.js"));
}

#[test]
fn ordinary_sources_are_kept() {
    assert!(!should_skip_file("src/app.js"));
    assert!(!should_skip_file("src/main.rs"));
    assert!(!should_skip_file("distant/file.js"));
    assert!(!should_skip_file("builder.rs"));
    assert!(!should_skip_file("package.json"));
    assert!(!should_skip_file(""));
}

#[test]
fn matching_is_case_sensitive() {
    assert!(!should_skip_file("changelog.md"));
    assert!(should_skip_file("docs/CHANGELOG.md"));
}

#[test]
fn diff_without_boundaries_passes_through_unchanged() {
    let raw = "hello\nworld";
    assert_eq!(filter_large_generated_files(raw), raw);
    let with_trailing = "hello\nworld\n";
    assert_eq!(filter_large_generated_files(with_trailing), with_trailing);
    assert_eq!(filter_large_generated_files(""), "");
    let garbage = "not a diff at all\n\njust text\n";
    assert_eq!(filter_large_generated_files(garbage), garbage);
}

#[test]
fn excluded_section_is_dropped_kept_section_survives() {
    // Scenario: the diff touches package-lock.json and src/app.js; the
    // lockfile section goes, the source section and the preamble stay.
    let raw = "preamble line\n\
        diff --git a/package-lock.json b/package-lock.json\n\
        index 111..222 100644\n\
        --- a/package-lock.json\n\
        +++ b/package-lock.json\n\
        +lots of generated noise\n\
        diff --git a/src/app.js b/src/app.js\n\
        index 333..444 100644\n\
        --- a/src/app.js\n\
        +++ b/src/app.js\n\
        +real change\n";
    let expected = "preamble line\n\
        diff --git a/src/app.js b/src/app.js\n\
        index 333..444 100644\n\
        --- a/src/app.js\n\
        +++ b/src/app.js\n\
        +real change\n";
    assert_eq!(filter_large_generated_files(raw), expected);
}

#[test]
fn diff_of_only_excluded_files_reduces_to_the_preamble() {
    let raw = "preamble\n\
        diff --git a/yarn.lock b/yarn.lock\n\
        +noise\n\
        diff --git a/dist/bundle.js b/dist/bundle.js\n\
        -noise\n";
    assert_eq!(filter_large_generated_files(raw), "preamble");
    let no_preamble = "diff --git a/yarn.lock b/yarn.lock\n+noise\n";
    assert_eq!(filter_large_generated_files(no_preamble), "");
}

#[test]
fn vcs_prefix_is_stripped_from_the_path() {
    // The post-change path is the fourth field, its b/ prefix taken off;
    // a lockfile under b/ is still recognised.
    let raw = "diff --git a/go.sum b/go.sum\n+x\ndiff --git a/src/lib.rs b/src/lib.rs\n+y\n";
    let expected = "diff --git a/src/lib.rs b/src/lib.rs\n+y\n";
    assert_eq!(filter_large_generated_files(raw), expected);
}

#[test]
fn boundary_with_too_few_fields_is_kept() {
    let raw = "diff --git\ncontext\n";
    assert_eq!(filter_large_generated_files(raw), raw);
}

#[test]
fn filtering_is_idempotent_on_a_mixed_diff() {
    let raw = "intro\n\
        diff --git a/build/gen.js b/build/gen.js\n\
        +generated\n\
        diff --git a/src/app.js b/src/app.js\n\
        +kept\n\
        context line\n";
    let once = filter_large_generated_files(raw);
    let twice = filter_large_generated_files(&once);
    assert_eq!(once, twice);
}

#[test]
fn exclusion_rests_on_the_post_change_path_alone() {
    // A file renamed away from an excluded pattern is judged by its
    // destination only.
    let renamed = "diff --git a/yarn.lock b/src/kept.js\n+now a source file\n";
    assert_eq!(filter_large_generated_files(renamed), renamed);
    let renamed_into = "diff --git a/src/was-source.js b/yarn.lock\n+now a lockfile\n";
    assert_eq!(filter_large_generated_files(renamed_into), "");
}
