//! The rename planner: decides for one candidate path whether it is skipped
//! (directories, names that already carry a stamp) or renamed, and computes
//! the new name `YYYYMMDD_HHMMSS_` + normalized file name.

use vstd::prelude::*;
use crate::errors::RenameError;
use crate::normalize::nfkc_of;
use crate::normalize::normalize_path;
use crate::pathname::dir_prefix_of;
use crate::pathname::file_name_of;
use crate::pathname::split_file_name;
use crate::timestamp::LocalTimeParts;
use crate::timestamp::format_timestamp;
use crate::timestamp::has_timestamp_prefix;
use crate::timestamp::is_timestamp_prefixed;
use crate::timestamp::local_time_of_epoch;
use crate::timestamp::stamp_chars;
use crate::timestamp::lemma_stamp_is_prefix;
use crate::timestamp::time_parts_in_range;
use crate::walk::CandidateEntry;

verus! {

/// The decision for one path. `target_path` is `None` when nothing is to be
/// done: the path is a directory, or its name already carries a stamp.
#[derive(Debug)]
pub struct RenamePlan {
    pub source_path: String,
    pub target_path: Option<String>,
}

/// The NFKC normalization of a path's file name: what the idempotency check
/// inspects and what a new name is built from.
pub open spec fn normalized_name(path: Seq<char>) -> Seq<char> {
    nfkc_of(file_name_of(path))
}

/// The idempotency check: the path's normalized file name already starts with
/// a stamp.
pub open spec fn already_stamped(path: Seq<char>) -> bool {
    is_timestamp_prefixed(normalized_name(path))
}

/// The new file name planned for `path`: the stamp for `t`, then the
/// normalized original name.
pub open spec fn planned_name(path: Seq<char>, t: LocalTimeParts) -> Seq<char> {
    stamp_chars(t) + normalized_name(path)
}

/// The full planned target path: the original directory prefix, the new name.
pub open spec fn planned_target(path: Seq<char>, t: LocalTimeParts) -> Seq<char> {
    dir_prefix_of(path) + planned_name(path, t)
}

/// Plans one candidate whose creation time has already been converted to
/// local calendar fields (`None` when it could not be read or converted).
pub fn plan_with_parts(path: &str, is_directory: bool, created: Option<LocalTimeParts>) -> (r:
    Result<RenamePlan, RenameError>)
    ensures
        r matches Ok(p) ==> p.source_path@ == path@,
        is_directory ==> (r matches Ok(p) && p.target_path is None),
        !is_directory && already_stamped(path@) ==> (r matches Ok(p) && p.target_path is None),
        !is_directory && !already_stamped(path@) ==> match created {
            None => r == Err::<RenamePlan, RenameError>(RenameError::MetadataReadError),
            Some(t) => {
                if time_parts_in_range(t) {
                    r matches Ok(p) && p.target_path matches Some(tp) && tp@ == planned_target(
                        path@,
                        t,
                    )
                } else {
                    r == Err::<RenamePlan, RenameError>(RenameError::MetadataReadError)
                }
            },
        },
{
    if is_directory {
        return Ok(RenamePlan { source_path: path.to_owned(), target_path: None });
    }
    let (dir, name) = split_file_name(path);
    let normalized = normalize_path(name.as_str());
    if has_timestamp_prefix(normalized.as_str()) {
        return Ok(RenamePlan { source_path: path.to_owned(), target_path: None });
    }
    match created {
        None => Err(RenameError::MetadataReadError),
        Some(t) => {
            match format_timestamp(&t) {
                None => Err(RenameError::MetadataReadError),
                Some(stamp) => {
                    let mut target = dir;
                    target.append(stamp.as_str());
                    target.append(normalized.as_str());
                    assert(target@ == planned_target(path@, t));
                    Ok(
                        RenamePlan {
                            source_path: path.to_owned(),
                            target_path: Some(target),
                        },
                    )
                },
            }
        },
    }
}

/// What any plan for one candidate must look like, whatever calendar fields
/// the local-time conversion yielded for it: skips are decided by the path
/// alone; a missing creation time gives exactly the metadata error; a rename
/// target is the stamp of in-range fields plus the normalized name.
pub open spec fn plan_outcome_admissible(
    r: Result<RenamePlan, RenameError>,
    path: Seq<char>,
    is_directory: bool,
    created_epoch_secs: Option<i64>,
) -> bool {
    &&& (r matches Ok(p) ==> p.source_path@ == path)
    &&& (is_directory ==> (r matches Ok(p) && p.target_path is None))
    &&& (!is_directory && already_stamped(path) ==> (r matches Ok(p) && p.target_path is None))
    &&& (!is_directory && !already_stamped(path) && created_epoch_secs is None ==> r == Err::<
        RenamePlan,
        RenameError,
    >(RenameError::MetadataReadError))
    &&& (!is_directory && !already_stamped(path) && created_epoch_secs is Some ==> r == Err::<
        RenamePlan,
        RenameError,
    >(RenameError::MetadataReadError) || (exists|t: LocalTimeParts|
        time_parts_in_range(t) && (r matches Ok(p) && p.target_path matches Some(tp) && tp@
            == planned_target(path, t))))
}

/// Plans one candidate from its creation time as seconds since the Unix
/// epoch, `None` when the metadata read failed. The conversion to local time
/// depends on the machine's time zone, so the target name is pinned down only
/// up to the calendar fields that conversion yielded.
pub fn generate_new_name_with_timestamp(
    path: &str,
    is_directory: bool,
    created_epoch_secs: Option<i64>,
) -> (r: Result<RenamePlan, RenameError>)
    ensures
        plan_outcome_admissible(r, path@, is_directory, created_epoch_secs),
{
    let parts = match created_epoch_secs {
        None => None,
        Some(secs) => local_time_of_epoch(secs),
    };
    plan_with_parts(path, is_directory, parts)
}

/// Plans a whole listing. Each entry is planned from its own path and
/// creation time alone, so one entry's failure (say, unreadable metadata)
/// leaves every other entry's plan exactly what it would have been: the batch
/// never aborts on a single file.
pub fn plan_batch(entries: &Vec<CandidateEntry>, created: &Vec<Option<i64>>) -> (r: Vec<
    Result<RenamePlan, RenameError>,
>)
    requires
        entries@.len() == created@.len(),
    ensures
        r@.len() == entries@.len(),
        forall|i: int|
            0 <= i < r@.len() ==> plan_outcome_admissible(
                #[trigger] r@[i],
                entries@[i]@.path,
                entries@[i]@.is_directory,
                created@[i],
            ),
{
    let n = entries.len();
    let mut out: Vec<Result<RenamePlan, RenameError>> = Vec::new();
    let mut i: usize = 0;
    while i < n
        invariant
            0 <= i <= n,
            n == entries@.len(),
            n == created@.len(),
            out@.len() == i,
            forall|k: int|
                0 <= k < i ==> plan_outcome_admissible(
                    #[trigger] out@[k],
                    entries@[k]@.path,
                    entries@[k]@.is_directory,
                    created@[k],
                ),
        decreases n - i,
    {
        let entry = &entries[i];
        let plan = generate_new_name_with_timestamp(
            entry.path.as_str(),
            entry.is_directory,
            created[i],
        );
        out.push(plan);
        i = i + 1;
    }
    out
}

/// Idempotence of renaming. A planned new name is the stamp followed by the
/// already-normalized original name; whenever normalization leaves that
/// produced name unchanged (ASCII stamps are normalization-inert, and the rest
/// is already in NFKC), a second run's idempotency check recognizes it and
/// plans no rename.
pub proof fn lemma_rename_idempotent(p: Seq<char>, path: Seq<char>, t: LocalTimeParts)
    requires
        file_name_of(p) == planned_name(path, t),
        nfkc_of(file_name_of(p)) == file_name_of(p),
    ensures
        already_stamped(p),
{
    lemma_stamp_is_prefix(t, normalized_name(path));
}

/// Normalization equivalence: two paths whose file names are different
/// encodings of the same text (equal under NFKC) are planned the same new
/// name.
pub proof fn lemma_normalization_equivalence(a: Seq<char>, b: Seq<char>, t: LocalTimeParts)
    requires
        nfkc_of(file_name_of(a)) == nfkc_of(file_name_of(b)),
    ensures
        planned_name(a, t) == planned_name(b, t),
{
}

} // verus!
