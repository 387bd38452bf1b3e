//! The packaging pipeline: plan resolution, stage sequencing, patch-set
//! selection and metadata bundling.
//!
//! The pipeline is strictly sequential: extract patches, bundle metadata,
//! archive, encrypt, place. Each stage is gated on the success of the
//! previous one, and any failure aborts the whole run. This module decides
//! what each stage must do and how its outcome moves the pipeline on; the
//! surrounding binary performs the file-system and process work.

use vstd::prelude::*;
use vstd::string::StrSliceExecFns;
use vstd::string::StringExecFns;
use crate::text::spec_string_views;
use crate::text::spec_path_stem;
use crate::text::spec_path_extension;
use crate::text::spec_join;
use crate::text::spec_with_extension;
use crate::text::file_stem;
use crate::text::extension;
use crate::text::join;
use crate::text::with_extension;

verus! {

/// Arguments of the packaging command: at most an explicit output path.
pub struct Args {
    /// The output file to write to. When absent, the default is
    /// `NAME.merlon` in the current directory, where `NAME` is the name of
    /// the mod package.
    pub output: Option<String>,
}

/// A fatal error of the packaging pipeline.
#[derive(Debug)]
pub enum PackError {
    /// The resolved output name is empty.
    EmptyOutputName,
    /// The patch extraction into the named directory failed.
    FormatPatchFailed { patches_dir: String },
    /// Extraction yielded no patch at all.
    NoCommits,
    /// Compressing the bundle into the named archive failed.
    ArchiveFailed { tar_path: String },
    /// Encrypting the archive to the named file failed.
    EncryptFailed { encrypted_path: String },
    /// Writing the artifact to the named output path failed.
    PlaceFailed { output_path: String },
}

/// The message each pipeline error is reported with.
pub open spec fn spec_error_message(e: PackError) -> Seq<char> {
    match e {
        PackError::EmptyOutputName => "output filename cannot be empty"@,
        PackError::FormatPatchFailed { patches_dir } => "failed git format-patch to directory "@
            + patches_dir@,
        PackError::NoCommits
            => "no commits in papermario submodule - did you forget to `git commit` inside?"@,
        PackError::ArchiveFailed { tar_path } => "failed to compress to tar "@ + tar_path@,
        PackError::EncryptFailed { encrypted_path } => "failed to encrypt tar to "@
            + encrypted_path@,
        PackError::PlaceFailed { output_path } => "failed to write distributable to "@
            + output_path@,
    }
}

impl PackError {
    /// The human-readable message for this error.
    pub fn message(&self) -> (r: String)
        ensures
            r@ == spec_error_message(*self),
    {
        match self {
            PackError::EmptyOutputName => "output filename cannot be empty".to_owned(),
            PackError::FormatPatchFailed { patches_dir } => "failed git format-patch to directory "
                .to_owned()
                .concat(patches_dir.as_str()),
            PackError::NoCommits =>
                "no commits in papermario submodule - did you forget to `git commit` inside?"
                .to_owned(),
            PackError::ArchiveFailed { tar_path } => "failed to compress to tar ".to_owned()
                .concat(tar_path.as_str()),
            PackError::EncryptFailed { encrypted_path } => "failed to encrypt tar to ".to_owned()
                .concat(encrypted_path.as_str()),
            PackError::PlaceFailed { output_path } => "failed to write distributable to "
                .to_owned()
                .concat(output_path.as_str()),
        }
    }
}

/// The resolved paths and names a packaging run works with.
pub struct PackPlan {
    /// The logical package name of the artifact.
    pub output_name: String,
    /// Where the artifact is placed.
    pub output_path: String,
    /// Whether the output path's extension differs from `merlon`; a
    /// warning, never a failure.
    pub extension_warning: bool,
    /// The staging directory of this run.
    pub output_dir: String,
    /// Where the patch files are extracted to.
    pub patches_dir: String,
    /// The compressed archive of the bundle.
    pub tar_path: String,
    /// The encrypted archive.
    pub encrypted_path: String,
    /// The vendored source subtree the patches are extracted from.
    pub submodule_dir: String,
    /// The base binary asset whose bytes are the encryption password.
    pub baserom_path: String,
    /// The commit range handed to patch extraction.
    pub revision_range: String,
}

/// The view of an optional string argument.
pub open spec fn spec_opt_view(o: Option<String>) -> Option<Seq<char>> {
    match o {
        Some(s) => Some(s@),
        None => None,
    }
}

/// The logical package name: the file stem of an explicit output path,
/// else the package's own name.
pub open spec fn spec_output_name(output: Option<Seq<char>>, package_name: Seq<char>) -> Seq<
    char,
> {
    match output {
        Some(p) => spec_path_stem(p),
        None => package_name,
    }
}

/// The resolved output path: an explicit path is used as given; otherwise
/// the artifact goes to `<current_dir>/<package_name>.merlon`.
pub open spec fn spec_output_path(
    output: Option<Seq<char>>,
    package_name: Seq<char>,
    current_dir: Seq<char>,
) -> Seq<char> {
    match output {
        Some(p) => p,
        None => spec_with_extension(spec_join(current_dir, package_name), "merlon"@),
    }
}

/// Resolves a packaging run's plan from the command arguments and the
/// project's descriptor. Fails exactly when the logical output name comes
/// out empty; an extension other than `merlon` only sets the warning flag.
pub fn plan_package(
    output: &Option<String>,
    package_name: &str,
    mod_dir_path: &str,
    current_dir: &str,
    base_commit: &str,
) -> (r: Result<PackPlan, PackError>)
    ensures
        ({
            let name = spec_output_name(spec_opt_view(*output), package_name@);
            match r {
                Ok(plan) => name.len() > 0 && plan.output_name@ == name && plan.output_path@
                    == spec_output_path(spec_opt_view(*output), package_name@, current_dir@)
                    && plan.extension_warning == (spec_path_extension(plan.output_path@)
                    != "merlon"@) && plan.output_dir@ == spec_join(
                    spec_join(spec_join(mod_dir_path@, ".merlon"@), "packages"@),
                    name,
                ) && plan.patches_dir@ == spec_join(plan.output_dir@, "patches"@)
                    && plan.tar_path@ == spec_join(plan.output_dir@, "patches.tar.bz2"@)
                    && plan.encrypted_path@ == spec_join(plan.output_dir@, "patches.enc"@)
                    && plan.submodule_dir@ == spec_join(mod_dir_path@, "papermario"@)
                    && plan.baserom_path@ == spec_join(plan.submodule_dir@, "ver/us/baserom.z64"@)
                    && plan.revision_range@ == base_commit@ + "..HEAD"@,
                Err(e) => e == PackError::EmptyOutputName && name.len() == 0,
            }
        }),
{
    let output_name = match output {
        Some(p) => file_stem(p.as_str()),
        None => package_name.to_owned(),
    };
    if output_name.as_str().unicode_len() == 0 {
        return Err(PackError::EmptyOutputName);
    }
    let output_path = match output {
        Some(p) => p.clone(),
        None => with_extension(join(current_dir, package_name).as_str(), "merlon"),
    };
    let ext = extension(output_path.as_str());
    let extension_warning = !(ext == "merlon".to_owned());
    let output_dir = join(
        join(join(mod_dir_path, ".merlon").as_str(), "packages").as_str(),
        output_name.as_str(),
    );
    let patches_dir = join(output_dir.as_str(), "patches");
    let tar_path = join(output_dir.as_str(), "patches.tar.bz2");
    let encrypted_path = join(output_dir.as_str(), "patches.enc");
    let submodule_dir = join(mod_dir_path, "papermario");
    let baserom_path = join(submodule_dir.as_str(), "ver/us/baserom.z64");
    let revision_range = base_commit.to_owned().concat("..HEAD");
    Ok(
        PackPlan {
            output_name,
            output_path,
            extension_warning,
            output_dir,
            patches_dir,
            tar_path,
            encrypted_path,
            submodule_dir,
            baserom_path,
            revision_range,
        },
    )
}

/// The pipeline's position: the stage whose work is next, or a terminal
/// state.
pub enum Stage {
    /// Extract one patch per qualifying commit into the patches
    /// directory.
    Extract,
    /// Copy the allow-listed metadata files beside the patches.
    Bundle,
    /// Compress the bundle into the archive.
    Archive,
    /// Encrypt the archive with the base asset's bytes as password.
    Encrypt,
    /// Copy the encrypted artifact to the output path.
    Place,
    /// The artifact was placed.
    Done,
    /// The run aborted with this error.
    Failed(PackError),
}

/// What the binary reports back after performing a stage's work.
pub enum StageOutcome {
    /// Patch extraction ran; `n_patches` patch files were produced.
    Extracted { git_success: bool, n_patches: usize },
    /// The metadata files present were copied.
    Bundled,
    /// Archiving ran.
    Archived { success: bool },
    /// Encryption ran.
    Encrypted { success: bool },
    /// Placing the artifact ran.
    Placed { success: bool },
}

/// How a stage's outcome moves the pipeline on. An outcome that does not
/// belong to the current stage leaves it unchanged; a terminal state
/// absorbs every outcome.
pub open spec fn spec_advance(stage: Stage, plan: PackPlan, outcome: StageOutcome) -> Stage {
    match stage {
        Stage::Extract => match outcome {
            StageOutcome::Extracted { git_success, n_patches } => if !git_success {
                Stage::Failed(PackError::FormatPatchFailed { patches_dir: plan.patches_dir })
            } else if n_patches == 0 {
                Stage::Failed(PackError::NoCommits)
            } else {
                Stage::Bundle
            },
            _ => stage,
        },
        Stage::Bundle => match outcome {
            StageOutcome::Bundled => Stage::Archive,
            _ => stage,
        },
        Stage::Archive => match outcome {
            StageOutcome::Archived { success } => if success {
                Stage::Encrypt
            } else {
                Stage::Failed(PackError::ArchiveFailed { tar_path: plan.tar_path })
            },
            _ => stage,
        },
        Stage::Encrypt => match outcome {
            StageOutcome::Encrypted { success } => if success {
                Stage::Place
            } else {
                Stage::Failed(PackError::EncryptFailed { encrypted_path: plan.encrypted_path })
            },
            _ => stage,
        },
        Stage::Place => match outcome {
            StageOutcome::Placed { success } => if success {
                Stage::Done
            } else {
                Stage::Failed(PackError::PlaceFailed { output_path: plan.output_path })
            },
            _ => stage,
        },
        Stage::Done => Stage::Done,
        Stage::Failed(e) => Stage::Failed(e),
    }
}

/// Moves the pipeline on by one stage outcome, as `spec_advance` gives
/// it.
pub fn advance(stage: Stage, plan: &PackPlan, outcome: &StageOutcome) -> (next: Stage)
    ensures
        next == spec_advance(stage, *plan, *outcome),
{
    match stage {
        Stage::Extract => match outcome {
            StageOutcome::Extracted { git_success, n_patches } => {
                if !*git_success {
                    Stage::Failed(
                        PackError::FormatPatchFailed { patches_dir: plan.patches_dir.clone() },
                    )
                } else if *n_patches == 0 {
                    Stage::Failed(PackError::NoCommits)
                } else {
                    Stage::Bundle
                }
            },
            _ => Stage::Extract,
        },
        Stage::Bundle => match outcome {
            StageOutcome::Bundled => Stage::Archive,
            _ => Stage::Bundle,
        },
        Stage::Archive => match outcome {
            StageOutcome::Archived { success } => {
                if *success {
                    Stage::Encrypt
                } else {
                    Stage::Failed(PackError::ArchiveFailed { tar_path: plan.tar_path.clone() })
                }
            },
            _ => Stage::Archive,
        },
        Stage::Encrypt => match outcome {
            StageOutcome::Encrypted { success } => {
                if *success {
                    Stage::Place
                } else {
                    Stage::Failed(
                        PackError::EncryptFailed { encrypted_path: plan.encrypted_path.clone() },
                    )
                }
            },
            _ => Stage::Encrypt,
        },
        Stage::Place => match outcome {
            StageOutcome::Placed { success } => {
                if *success {
                    Stage::Done
                } else {
                    Stage::Failed(PackError::PlaceFailed { output_path: plan.output_path.clone() })
                }
            },
            _ => Stage::Place,
        },
        Stage::Done => Stage::Done,
        Stage::Failed(e) => Stage::Failed(e),
    }
}

/// The stage the pipeline reaches after a whole run of outcomes, oldest
/// first.
pub open spec fn spec_run(stage: Stage, plan: PackPlan, outcomes: Seq<StageOutcome>) -> Stage
    decreases outcomes.len(),
{
    if outcomes.len() == 0 {
        stage
    } else {
        spec_run(spec_advance(stage, plan, outcomes[0]), plan, outcomes.drop_first())
    }
}

/// A failed pipeline stays failed: no later outcome revives a run.
pub proof fn lemma_failed_is_absorbing(e: PackError, plan: PackPlan, outcomes: Seq<StageOutcome>)
    ensures
        spec_run(Stage::Failed(e), plan, outcomes) == Stage::Failed(e),
    decreases outcomes.len(),
{
    if outcomes.len() > 0 {
        lemma_failed_is_absorbing(e, plan, outcomes.drop_first());
    }
}

/// Empty history is rejected: when extraction yields zero patch files,
/// the run never completes, so no artifact is produced; when the
/// extraction process itself succeeded, the run fails with the
/// no-commits error.
pub proof fn lemma_empty_history_rejected(
    plan: PackPlan,
    outcomes: Seq<StageOutcome>,
    git_success: bool,
)
    requires
        outcomes.len() > 0,
        outcomes[0] == (StageOutcome::Extracted { git_success, n_patches: 0 }),
    ensures
        spec_run(Stage::Extract, plan, outcomes) != Stage::Done,
        git_success ==> spec_run(Stage::Extract, plan, outcomes) == Stage::Failed(
            PackError::NoCommits,
        ),
{
    if git_success {
        lemma_failed_is_absorbing(PackError::NoCommits, plan, outcomes.drop_first());
    } else {
        lemma_failed_is_absorbing(
            PackError::FormatPatchFailed { patches_dir: plan.patches_dir },
            plan,
            outcomes.drop_first(),
        );
    }
}

/// Whether path `p` lies under the watched prefix `pre`: it is the prefix
/// itself, or a path inside it.
pub open spec fn spec_under_prefix(p: Seq<char>, pre: Seq<char>) -> bool {
    p == pre || (p.len() > pre.len() && p.take(pre.len() as int) == pre && p[pre.len() as int]
        == '/')
}

/// Whether a changed path lies under one of the watched subtrees.
pub open spec fn spec_path_is_watched(p: Seq<char>) -> bool {
    spec_under_prefix(p, "src"@) || spec_under_prefix(p, "include"@) || spec_under_prefix(
        p,
        "assets"@,
    ) || spec_under_prefix(p, "ver/us"@)
}

/// Whether path `p` lies under the prefix `pre`, as `spec_under_prefix`
/// gives it.
pub fn under_prefix(p: &str, pre: &str) -> (b: bool)
    ensures
        b == spec_under_prefix(p@, pre@),
{
    let np: usize = p.unicode_len();
    let npre: usize = pre.unicode_len();
    if np < npre {
        return false;
    }
    let mut i: usize = 0;
    while i < npre
        invariant
            np == p@.len(),
            npre == pre@.len(),
            npre <= np,
            0 <= i <= npre,
            forall|j: int| 0 <= j < i ==> p@[j] == pre@[j],
        decreases npre - i,
    {
        if p.get_char(i) != pre.get_char(i) {
            return false;
        }
        i = i + 1;
    }
    proof {
        assert(p@.take(npre as int) =~= pre@);
    }
    if np == npre {
        proof {
            assert(p@ =~= pre@);
        }
        true
    } else {
        p.get_char(npre) == '/'
    }
}

/// Whether a changed path lies under one of the watched subtrees, as
/// `spec_path_is_watched` gives it.
pub fn path_is_watched(p: &str) -> (b: bool)
    ensures
        b == spec_path_is_watched(p@),
{
    under_prefix(p, "src") || under_prefix(p, "include") || under_prefix(p, "assets")
        || under_prefix(p, "ver/us")
}

/// A commit of the history slice, as patch extraction sees it: its
/// subject line, whether it is a merge, and the paths it touches.
pub struct CommitInfo {
    /// The commit's subject line, kept verbatim as the patch file name's
    /// basis.
    pub subject: String,
    /// Whether the commit is a merge; merges are excluded.
    pub is_merge: bool,
    /// The paths the commit touches.
    pub touched_paths: Vec<String>,
}

/// A patch file of the extracted set: one qualifying commit, restricted
/// to its watched changes.
pub struct PatchFile {
    /// The subject line of the commit the patch was cut from.
    pub subject: String,
    /// The watched paths the patch changes.
    pub changed_paths: Vec<String>,
}

/// Whether a commit produces a patch: it is no merge and touches at
/// least one watched path.
pub open spec fn spec_commit_qualifies(c: CommitInfo) -> bool {
    !c.is_merge && exists|i: int|
        0 <= i < c.touched_paths@.len() && spec_path_is_watched(#[trigger] c.touched_paths@[i]@)
}

/// The watched paths of a changed-path list, in order.
pub open spec fn spec_watched_subset(ps: Seq<Seq<char>>) -> Seq<Seq<char>>
    decreases ps.len(),
{
    if ps.len() == 0 {
        Seq::<Seq<char>>::empty()
    } else {
        spec_watched_subset(ps.drop_last()) + (if spec_path_is_watched(ps.last()) {
            seq![ps.last()]
        } else {
            Seq::<Seq<char>>::empty()
        })
    }
}

/// The qualifying commits of a history slice, oldest first.
pub open spec fn spec_qualifying(cs: Seq<CommitInfo>) -> Seq<CommitInfo>
    decreases cs.len(),
{
    if cs.len() == 0 {
        Seq::<CommitInfo>::empty()
    } else {
        spec_qualifying(cs.drop_last()) + (if spec_commit_qualifies(cs.last()) {
            seq![cs.last()]
        } else {
            Seq::<CommitInfo>::empty()
        })
    }
}

/// Whether a commit produces a patch, as `spec_commit_qualifies` gives
/// it.
pub fn commit_qualifies(c: &CommitInfo) -> (b: bool)
    ensures
        b == spec_commit_qualifies(*c),
{
    if c.is_merge {
        return false;
    }
    let n = c.touched_paths.len();
    let mut i: usize = 0;
    while i < n
        invariant
            !c.is_merge,
            n == c.touched_paths@.len(),
            0 <= i <= n,
            forall|j: int| 0 <= j < i ==> !spec_path_is_watched(c.touched_paths@[j]@),
        decreases n - i,
    {
        if path_is_watched(c.touched_paths[i].as_str()) {
            proof {
                assert(spec_path_is_watched(c.touched_paths@[i as int]@));
                assert(spec_commit_qualifies(*c));
            }
            return true;
        }
        i = i + 1;
    }
    false
}

/// The watched paths of a changed-path list, in order, as
/// `spec_watched_subset` gives them.
pub fn watched_paths(ps: &Vec<String>) -> (r: Vec<String>)
    ensures
        spec_string_views(r@) == spec_watched_subset(spec_string_views(ps@)),
{
    let ghost views = spec_string_views(ps@);
    let mut r: Vec<String> = Vec::new();
    let n = ps.len();
    let mut i: usize = 0;
    proof {
        assert(spec_string_views(r@) =~= spec_watched_subset(views.take(0)));
    }
    while i < n
        invariant
            n == ps@.len(),
            0 <= i <= n,
            views == spec_string_views(ps@),
            spec_string_views(r@) == spec_watched_subset(views.take(i as int)),
        decreases n - i,
    {
        proof {
            assert(views.take(i + 1).drop_last() =~= views.take(i as int));
            assert(views.take(i + 1).last() == views[i as int]);
            assert(views[i as int] == ps@[i as int]@);
        }
        if path_is_watched(ps[i].as_str()) {
            r.push(ps[i].clone());
        }
        proof {
            assert(spec_string_views(r@) =~~= spec_watched_subset(views.take(i + 1)));
        }
        i = i + 1;
    }
    proof {
        assert(views.take(n as int) =~= views);
    }
    r
}

/// Cuts the patch set from a history slice, oldest first: one patch per
/// qualifying commit, carrying the commit's subject and only its watched
/// changes.
pub fn patch_set(commits: &Vec<CommitInfo>) -> (r: Vec<PatchFile>)
    ensures
        r@.len() == spec_qualifying(commits@).len(),
        forall|i: int|
            0 <= i < r@.len() ==> r@[i].subject == spec_qualifying(commits@)[i].subject
                && spec_string_views(r@[i].changed_paths@) == spec_watched_subset(
                spec_string_views(spec_qualifying(commits@)[i].touched_paths@),
            ),
{
    let mut r: Vec<PatchFile> = Vec::new();
    let n = commits.len();
    let mut i: usize = 0;
    while i < n
        invariant
            n == commits@.len(),
            0 <= i <= n,
            r@.len() == spec_qualifying(commits@.take(i as int)).len(),
            forall|j: int|
                0 <= j < r@.len() ==> r@[j].subject == spec_qualifying(
                    commits@.take(i as int),
                )[j].subject && spec_string_views(r@[j].changed_paths@) == spec_watched_subset(
                    spec_string_views(spec_qualifying(commits@.take(i as int))[j].touched_paths@),
                ),
        decreases n - i,
    {
        proof {
            assert(commits@.take(i + 1).drop_last() =~= commits@.take(i as int));
            assert(commits@.take(i + 1).last() == commits@[i as int]);
        }
        let c = &commits[i];
        if commit_qualifies(c) {
            let changed = watched_paths(&c.touched_paths);
            r.push(PatchFile { subject: c.subject.clone(), changed_paths: changed });
        }
        proof {
            assert(spec_qualifying(commits@.take(i + 1)) =~= spec_qualifying(
                commits@.take(i as int),
            ) + (if spec_commit_qualifies(commits@[i as int]) {
                seq![commits@[i as int]]
            } else {
                Seq::<CommitInfo>::empty()
            }));
        }
        i = i + 1;
    }
    proof {
        assert(commits@.take(n as int) =~= commits@);
    }
    r
}

/// A commit touching only unwatched paths produces no patch: appending
/// it to the history leaves the qualifying commits unchanged.
pub proof fn lemma_unwatched_commit_excluded(cs: Seq<CommitInfo>, c: CommitInfo)
    requires
        forall|i: int|
            0 <= i < c.touched_paths@.len() ==> !spec_path_is_watched(c.touched_paths@[i]@),
    ensures
        spec_qualifying(cs.push(c)) == spec_qualifying(cs),
{
    assert(!spec_commit_qualifies(c));
    assert(cs.push(c).drop_last() =~= cs);
    assert(spec_qualifying(cs.push(c)) =~= spec_qualifying(cs));
}

/// A non-merge commit touching at least one watched path produces
/// exactly one patch, and that patch carries only watched paths: its
/// changes are the watched subset of the commit's touched paths.
pub proof fn lemma_mixed_commit_produces_one_patch(cs: Seq<CommitInfo>, c: CommitInfo)
    requires
        !c.is_merge,
        exists|i: int|
            0 <= i < c.touched_paths@.len() && spec_path_is_watched(c.touched_paths@[i]@),
    ensures
        spec_qualifying(cs.push(c)) == spec_qualifying(cs).push(c),
        forall|j: int|
            #![auto]
            0 <= j < spec_watched_subset(spec_string_views(c.touched_paths@)).len()
                ==> spec_path_is_watched(
                spec_watched_subset(spec_string_views(c.touched_paths@))[j],
            ),
{
    assert(spec_commit_qualifies(c));
    assert(cs.push(c).drop_last() =~= cs);
    assert(spec_qualifying(cs.push(c)) =~= spec_qualifying(cs).push(c));
    lemma_watched_subset_is_watched(spec_string_views(c.touched_paths@));
}

/// Every path of a watched subset is watched.
pub proof fn lemma_watched_subset_is_watched(ps: Seq<Seq<char>>)
    ensures
        forall|j: int|
            #![auto]
            0 <= j < spec_watched_subset(ps).len() ==> spec_path_is_watched(
                spec_watched_subset(ps)[j],
            ),
    decreases ps.len(),
{
    if ps.len() > 0 {
        lemma_watched_subset_is_watched(ps.drop_last());
        let s = spec_watched_subset(ps);
        let prefix = spec_watched_subset(ps.drop_last());
        assert forall|j: int| 0 <= j < s.len() implies spec_path_is_watched(s[j]) by {
            if j < prefix.len() {
                assert(s[j] == prefix[j]);
            } else {
                assert(spec_path_is_watched(ps.last()));
                assert(s[j] == ps.last());
            }
        }
    }
}

/// The fixed allow-list of metadata file names bundled beside the
/// patches.
pub open spec fn spec_allow_list() -> Seq<Seq<char>> {
    seq![
        "merlon.toml"@,
        "README.md"@,
        "README.txt"@,
        "README"@,
        "LICENSE.md"@,
        "LICENSE.txt"@,
        "LICENSE"@,
        "CONTRIBUTING.md"@,
        "CONTRIBUTING.txt"@,
        "CONTRIBUTING"@,
    ]
}

/// Whether a file name is on the metadata allow-list.
pub open spec fn spec_is_metadata_name(n: Seq<char>) -> bool {
    exists|i: int| 0 <= i < spec_allow_list().len() && spec_allow_list()[i] == n
}

/// The allow-listed names among `present`, in allow-list order,
/// considering the first `k` entries of the allow-list.
pub open spec fn spec_selected_up_to(present: Seq<Seq<char>>, k: int) -> Seq<Seq<char>>
    decreases k,
{
    if k <= 0 {
        Seq::<Seq<char>>::empty()
    } else {
        spec_selected_up_to(present, k - 1) + (if present.contains(spec_allow_list()[k - 1]) {
            seq![spec_allow_list()[k - 1]]
        } else {
            Seq::<Seq<char>>::empty()
        })
    }
}

/// The metadata files to bundle: the allow-listed names among `present`,
/// in allow-list order.
pub open spec fn spec_metadata_selection(present: Seq<Seq<char>>) -> Seq<Seq<char>> {
    spec_selected_up_to(present, spec_allow_list().len() as int)
}

/// The metadata allow-list, in order.
pub fn metadata_allow_list() -> (r: Vec<String>)
    ensures
        r@.len() == spec_allow_list().len(),
        forall|i: int| 0 <= i < r@.len() ==> r@[i]@ == spec_allow_list()[i],
{
    let mut r: Vec<String> = Vec::new();
    r.push("merlon.toml".to_owned());
    r.push("README.md".to_owned());
    r.push("README.txt".to_owned());
    r.push("README".to_owned());
    r.push("LICENSE.md".to_owned());
    r.push("LICENSE.txt".to_owned());
    r.push("LICENSE".to_owned());
    r.push("CONTRIBUTING.md".to_owned());
    r.push("CONTRIBUTING.txt".to_owned());
    r.push("CONTRIBUTING".to_owned());
    r
}

/// Whether one of the strings of `v` reads as `s`.
pub fn contains_string(v: &Vec<String>, s: &String) -> (b: bool)
    ensures
        b == spec_string_views(v@).contains(s@),
{
    let n = v.len();
    let mut i: usize = 0;
    while i < n
        invariant
            n == v@.len(),
            0 <= i <= n,
            forall|j: int| 0 <= j < i ==> v@[j]@ != s@,
        decreases n - i,
    {
        if v[i] == *s {
            proof {
                assert(spec_string_views(v@)[i as int] == s@);
            }
            return true;
        }
        i = i + 1;
    }
    proof {
        assert forall|j: int| 0 <= j < spec_string_views(v@).len() implies spec_string_views(
            v@,
        )[j] != s@ by {
            assert(spec_string_views(v@)[j] == v@[j]@);
        }
    }
    false
}

/// Selects the metadata files to bundle: each allow-listed name present
/// in the project root, in allow-list order; anything else is left
/// behind.
pub fn select_metadata(present: &Vec<String>) -> (r: Vec<String>)
    ensures
        spec_string_views(r@) == spec_metadata_selection(spec_string_views(present@)),
{
    let ghost pviews = spec_string_views(present@);
    let allow = metadata_allow_list();
    let mut r: Vec<String> = Vec::new();
    let n = allow.len();
    let mut k: usize = 0;
    proof {
        assert(spec_string_views(r@) =~= spec_selected_up_to(pviews, 0));
    }
    while k < n
        invariant
            n == spec_allow_list().len(),
            n == allow@.len(),
            0 <= k <= n,
            pviews == spec_string_views(present@),
            forall|i: int| 0 <= i < allow@.len() ==> allow@[i]@ == spec_allow_list()[i],
            spec_string_views(r@) == spec_selected_up_to(pviews, k as int),
        decreases n - k,
    {
        if contains_string(present, &allow[k]) {
            r.push(allow[k].clone());
        }
        proof {
            assert(spec_string_views(r@) =~~= spec_selected_up_to(pviews, k + 1));
        }
        k = k + 1;
    }
    r
}

/// Only allow-listed names are bundled: a name off the allow-list never
/// appears in the metadata selection, whatever is present.
pub proof fn lemma_metadata_only_allow_listed(present: Seq<Seq<char>>, n: Seq<char>)
    requires
        !spec_is_metadata_name(n),
    ensures
        !spec_metadata_selection(present).contains(n),
{
    lemma_selected_off_list(present, n, spec_allow_list().len() as int);
}

/// A name off the allow-list is not in any selection prefix.
proof fn lemma_selected_off_list(present: Seq<Seq<char>>, n: Seq<char>, k: int)
    requires
        !spec_is_metadata_name(n),
        k <= spec_allow_list().len(),
    ensures
        !spec_selected_up_to(present, k).contains(n),
    decreases k,
{
    if k > 0 {
        lemma_selected_off_list(present, n, k - 1);
        assert(spec_allow_list()[k - 1] != n);
        if spec_selected_up_to(present, k).contains(n) {
            let i = choose|i: int|
                0 <= i < spec_selected_up_to(present, k).len() && spec_selected_up_to(
                    present,
                    k,
                )[i] == n;
            assert(spec_selected_up_to(present, k - 1).contains(n) || spec_allow_list()[k - 1]
                == n);
        }
    }
}

/// An allow-listed name that is present is bundled: it appears in the
/// metadata selection.
pub proof fn lemma_metadata_present_included(present: Seq<Seq<char>>, n: Seq<char>)
    requires
        spec_is_metadata_name(n),
        present.contains(n),
    ensures
        spec_metadata_selection(present).contains(n),
{
    let i = choose|i: int| 0 <= i < spec_allow_list().len() && spec_allow_list()[i] == n;
    lemma_selected_includes(present, n, i, spec_allow_list().len() as int);
}

/// A present allow-list entry below `k` is in the selection prefix of
/// depth `k`.
proof fn lemma_selected_includes(present: Seq<Seq<char>>, n: Seq<char>, i: int, k: int)
    requires
        0 <= i < k <= spec_allow_list().len(),
        spec_allow_list()[i] == n,
        present.contains(n),
    ensures
        spec_selected_up_to(present, k).contains(n),
    decreases k,
{
    if i == k - 1 {
        let s = spec_selected_up_to(present, k);
        let prefix = spec_selected_up_to(present, k - 1);
        assert(s == prefix + seq![n]);
        assert(s[prefix.len() as int] == n);
    } else {
        lemma_selected_includes(present, n, i, k - 1);
        let prefix = spec_selected_up_to(present, k - 1);
        let j = choose|j: int| 0 <= j < prefix.len() && prefix[j] == n;
        assert(spec_selected_up_to(present, k)[j] == n);
    }
}

/// An output path whose extension is not `merlon` still packages: the
/// plan resolves (its logical name is the path's non-empty stem) and only
/// the warning flag is set.
pub proof fn lemma_extension_mismatch_warns(
    p: Seq<char>,
    package_name: Seq<char>,
    current_dir: Seq<char>,
)
    requires
        spec_path_stem(p).len() > 0,
        spec_path_extension(p) != "merlon"@,
    ensures
        spec_output_name(Some(p), package_name).len() > 0,
        spec_output_path(Some(p), package_name, current_dir) == p,
        spec_path_extension(spec_output_path(Some(p), package_name, current_dir)) != "merlon"@,
{
}

} // verus!
