use merlon::pack::{
    advance, commit_qualifies, contains_string, metadata_allow_list, patch_set, path_is_watched,
    plan_package, select_metadata, Args, CommitInfo, PackError, PackPlan, Stage, StageOutcome,
};

fn default_plan() -> PackPlan {
    plan_package(&None, "my-mod", "/mods/m", "/home/u", "abc123").unwrap()
}

#[test]
fn default_plan_resolves_every_path() {
    let plan = default_plan();
    assert_eq!(plan.output_name, "my-mod");
    assert_eq!(plan.output_path, "/home/u/my-mod.merlon");
    assert!(!plan.extension_warning);
    assert_eq!(plan.output_dir, "/mods/m/.merlon/packages/my-mod");
    assert_eq!(plan.patches_dir, "/mods/m/.merlon/packages/my-mod/patches");
    assert_eq!(plan.tar_path, "/mods/m/.merlon/packages/my-mod/patches.tar.bz2");
    assert_eq!(plan.encrypted_path, "/mods/m/.merlon/packages/my-mod/patches.enc");
    assert_eq!(plan.submodule_dir, "/mods/m/papermario");
    assert_eq!(plan.baserom_path, "/mods/m/papermario/ver/us/baserom.z64");
    assert_eq!(plan.revision_range, "abc123..HEAD");
}

#[test]
fn explicit_output_path_is_used_as_given() {
    let args = Args {
        output: Some("out/thing.zip".to_string()),
    };
    let plan = plan_package(&args.output, "my-mod", "/mods/m", "/home/u", "abc123").unwrap();
    assert_eq!(plan.output_name, "thing");
    assert_eq!(plan.output_path, "out/thing.zip");
    assert!(plan.extension_warning);
    assert_eq!(plan.output_dir, "/mods/m/.merlon/packages/thing");
}

#[test]
fn explicit_merlon_path_raises_no_warning() {
    let output = Some("out/thing.merlon".to_string());
    let plan = plan_package(&output, "my-mod", "/mods/m", "/home/u", "abc123").unwrap();
    assert!(!plan.extension_warning);
}

#[test]
fn empty_stem_is_rejected() {
    let output = Some("out/".to_string());
    let r = plan_package(&output, "my-mod", "/mods/m", "/home/u", "abc123");
    match r {
        Err(PackError::EmptyOutputName) => {}
        _ => panic!("expected the empty-output-name error"),
    }
}

#[test]
fn empty_package_name_is_rejected_without_explicit_path() {
    let r = plan_package(&None, "", "/mods/m", "/home/u", "abc123");
    match r {
        Err(e) => assert_eq!(e.message(), "output filename cannot be empty"),
        Ok(_) => panic!("expected an error"),
    }
}

#[test]
fn error_messages_name_the_stage_and_path() {
    assert_eq!(
        PackError::FormatPatchFailed {
            patches_dir: "p/patches".to_string()
        }
        .message(),
        "failed git format-patch to directory p/patches"
    );
    assert_eq!(
        PackError::NoCommits.message(),
        "no commits in papermario submodule - did you forget to `git commit` inside?"
    );
    assert_eq!(
        PackError::ArchiveFailed {
            tar_path: "p/patches.tar.bz2".to_string()
        }
        .message(),
        "failed to compress to tar p/patches.tar.bz2"
    );
    assert_eq!(
        PackError::EncryptFailed {
            encrypted_path: "p/patches.enc".to_string()
        }
        .message(),
        "failed to encrypt tar to p/patches.enc"
    );
    assert_eq!(
        PackError::PlaceFailed {
            output_path: "out.merlon".to_string()
        }
        .message(),
        "failed to write distributable to out.merlon"
    );
}

#[test]
fn successful_run_reaches_done() {
    let plan = default_plan();
    let s = Stage::Extract;
    let s = advance(
        s,
        &plan,
        &StageOutcome::Extracted {
            git_success: true,
            n_patches: 3,
        },
    );
    assert!(matches!(s, Stage::Bundle));
    let s = advance(s, &plan, &StageOutcome::Bundled);
    assert!(matches!(s, Stage::Archive));
    let s = advance(s, &plan, &StageOutcome::Archived { success: true });
    assert!(matches!(s, Stage::Encrypt));
    let s = advance(s, &plan, &StageOutcome::Encrypted { success: true });
    assert!(matches!(s, Stage::Place));
    let s = advance(s, &plan, &StageOutcome::Placed { success: true });
    assert!(matches!(s, Stage::Done));
}

#[test]
fn zero_patches_fail_with_no_commits() {
    let plan = default_plan();
    let s = advance(
        Stage::Extract,
        &plan,
        &StageOutcome::Extracted {
            git_success: true,
            n_patches: 0,
        },
    );
    match s {
        Stage::Failed(e) => assert_eq!(
            e.message(),
            "no commits in papermario submodule - did you forget to `git commit` inside?"
        ),
        _ => panic!("expected the run to fail"),
    }
}

#[test]
fn failed_extraction_names_the_patches_directory() {
    let plan = default_plan();
    let s = advance(
        Stage::Extract,
        &plan,
        &StageOutcome::Extracted {
            git_success: false,
            n_patches: 0,
        },
    );
    match s {
        Stage::Failed(e) => assert_eq!(
            e.message(),
            "failed git format-patch to directory /mods/m/.merlon/packages/my-mod/patches"
        ),
        _ => panic!("expected the run to fail"),
    }
}

#[test]
fn failure_absorbs_later_outcomes() {
    let plan = default_plan();
    let s = advance(
        Stage::Extract,
        &plan,
        &StageOutcome::Extracted {
            git_success: true,
            n_patches: 0,
        },
    );
    let s = advance(s, &plan, &StageOutcome::Bundled);
    let s = advance(s, &plan, &StageOutcome::Archived { success: true });
    assert!(matches!(s, Stage::Failed(PackError::NoCommits)));
}

#[test]
fn mismatched_outcome_leaves_the_stage() {
    let plan = default_plan();
    let s = advance(Stage::Extract, &plan, &StageOutcome::Bundled);
    assert!(matches!(s, Stage::Extract));
}

#[test]
fn watched_prefixes_cover_the_fixed_subtrees() {
    assert!(path_is_watched("src"));
    assert!(path_is_watched("src/main.c"));
    assert!(path_is_watched("include/a.h"));
    assert!(path_is_watched("assets/us/sprite.bin"));
    assert!(path_is_watched("ver/us/baserom.z64"));
    assert!(!path_is_watched("srcs/main.c"));
    assert!(!path_is_watched("ver"));
    assert!(!path_is_watched("docs/readme.md"));
}

fn commit(subject: &str, is_merge: bool, touched: &[&str]) -> CommitInfo {
    CommitInfo {
        subject: subject.to_string(),
        is_merge,
        touched_paths: touched.iter().map(|p| p.to_string()).collect(),
    }
}

#[test]
fn unwatched_commit_produces_no_patch() {
    let commits = vec![commit("docs only", false, &["docs/readme.md"])];
    assert!(!commit_qualifies(&commits[0]));
    assert!(patch_set(&commits).is_empty());
}

#[test]
fn mixed_commit_produces_one_patch_with_watched_changes_only() {
    let commits = vec![
        commit("docs only", false, &["docs/readme.md"]),
        commit("fix jump physics", false, &["src/world/physics.c", "docs/notes.md"]),
        commit("merge branch", true, &["src/world/physics.c"]),
    ];
    let patches = patch_set(&commits);
    assert_eq!(patches.len(), 1);
    assert_eq!(patches[0].subject, "fix jump physics");
    assert_eq!(patches[0].changed_paths, vec!["src/world/physics.c".to_string()]);
}

#[test]
fn merge_commit_is_excluded() {
    let commits = vec![commit("merge branch", true, &["src/a.c"])];
    assert!(!commit_qualifies(&commits[0]));
    assert!(patch_set(&commits).is_empty());
}

#[test]
fn patch_set_keeps_commit_order() {
    let commits = vec![
        commit("first", false, &["src/a.c"]),
        commit("second", false, &["include/b.h"]),
    ];
    let patches = patch_set(&commits);
    assert_eq!(patches.len(), 2);
    assert_eq!(patches[0].subject, "first");
    assert_eq!(patches[1].subject, "second");
}

#[test]
fn allow_list_holds_the_ten_names() {
    let allow = metadata_allow_list();
    assert_eq!(
        allow,
        vec![
            "merlon.toml".to_string(),
            "README.md".to_string(),
            "README.txt".to_string(),
            "README".to_string(),
            "LICENSE.md".to_string(),
            "LICENSE.txt".to_string(),
            "LICENSE".to_string(),
            "CONTRIBUTING.md".to_string(),
            "CONTRIBUTING.txt".to_string(),
            "CONTRIBUTING".to_string(),
        ]
    );
}

#[test]
fn metadata_selection_keeps_only_allow_listed_files() {
    let present = vec![
        "README.md".to_string(),
        "evil.txt".to_string(),
        "merlon.toml".to_string(),
    ];
    let selected = select_metadata(&present);
    assert_eq!(
        selected,
        vec!["merlon.toml".to_string(), "README.md".to_string()]
    );
}

#[test]
fn metadata_selection_of_unrelated_files_is_empty() {
    let present = vec!["notes.txt".to_string(), "build.log".to_string()];
    assert!(select_metadata(&present).is_empty());
}

#[test]
fn contains_string_finds_exact_matches_only() {
    let v = vec!["README".to_string(), "LICENSE".to_string()];
    assert!(contains_string(&v, &"README".to_string()));
    assert!(!contains_string(&v, &"README.md".to_string()));
}
