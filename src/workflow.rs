use crate::category::BackupRepo;
use crate::config::{bucket_spec, endpoint_spec, no_bucket_message, same_config, Config};
use crate::discovery::RepositoryScanner;
use crate::errors::{is_fatal_spec, BackupServiceError};
use crate::selection::{item_view, selectable_upto, RepositorySelectionItem};
use crate::snapshots::{json_u64_field, json_u64_field_of, snapshot_views, RepositoryData, SnapshotInfo};
use crate::text::{chars_of, contains_str, seq_contains, split_lines, split_on, substring, trim_leading};
use vstd::prelude::*;

verus! {

/// Runs the command-line tools with the service's settings.
#[derive(Debug, Clone)]
pub struct CommandExecutor {
    config: Config,
}

impl CommandExecutor {
    /// The executor's settings.
    pub closed spec fn config_view(&self) -> Config {
        self.config
    }

    /// An executor working with `config`.
    pub fn new(config: Config) -> (r: Result<Self, BackupServiceError>)
        ensures
            r matches Ok(e) && e.config_view() == config,
    {
        Ok(CommandExecutor { config })
    }

    /// The executor's settings.
    pub fn config(&self) -> (r: &Config)
        ensures
            *r == self.config_view(),
    {
        &self.config
    }

    /// The arguments that point the S3 tool at the configured endpoint.
    pub fn get_s3_endpoint_args(&self) -> (r: Result<Vec<String>, BackupServiceError>)
        ensures
            r matches Ok(v) && v@.len() == 2 && v@[0]@ == "--endpoint-url"@ && v@[1]@
                == endpoint_spec(
                self.config_view().restic_repo_base@,
                self.config_view().aws_s3_endpoint@,
            ),
    {
        let endpoint = self.config.s3_endpoint()?;
        let mut v: Vec<String> = Vec::new();
        v.push(String::from_str("--endpoint-url"));
        v.push(endpoint);
        Ok(v)
    }
}

/// Runs restic against one repository.
#[derive(Debug, Clone)]
pub struct ResticCommandExecutor {
    executor: CommandExecutor,
    repo_url: String,
}

impl ResticCommandExecutor {
    /// The repository worked on.
    pub closed spec fn repo_url_view(&self) -> Seq<char> {
        self.repo_url@
    }

    /// The settings used.
    pub closed spec fn config_view(&self) -> Config {
        self.executor.config_view()
    }

    /// An executor for the repository at `repo_url`.
    pub fn new(config: Config, repo_url: String) -> (r: Result<Self, BackupServiceError>)
        ensures
            r matches Ok(e) && e.config_view() == config && e.repo_url_view() == repo_url@,
    {
        let executor = CommandExecutor::new(config)?;
        Ok(ResticCommandExecutor { executor, repo_url })
    }

    /// The tool runner used.
    pub fn executor(&self) -> (r: &CommandExecutor)
        ensures
            r.config_view() == self.config_view(),
    {
        &self.executor
    }

    /// The repository worked on.
    pub fn repo_url(&self) -> (r: &str)
        ensures
            r@ == self.repo_url_view(),
    {
        self.repo_url.as_str()
    }
}

/// The address that `aws s3 ls` lists for a prefix of a bucket.
pub open spec fn listing_url_spec(bucket: Seq<char>, prefix: Seq<char>) -> Seq<char> {
    if prefix.len() == 0 {
        "s3://"@ + bucket + "/"@
    } else {
        "s3://"@ + bucket + "/"@ + prefix + "/"@
    }
}

/// Lists the store's directories.
#[derive(Debug, Clone)]
pub struct S3CommandExecutor {
    executor: CommandExecutor,
}

impl S3CommandExecutor {
    /// The settings used.
    pub closed spec fn config_view(&self) -> Config {
        self.executor.config_view()
    }

    /// A lister working with `config`.
    pub fn new(config: Config) -> (r: Result<Self, BackupServiceError>)
        ensures
            r matches Ok(e) && e.config_view() == config,
    {
        let executor = CommandExecutor::new(config)?;
        Ok(S3CommandExecutor { executor })
    }

    /// The tool runner used.
    pub fn executor(&self) -> (r: &CommandExecutor)
        ensures
            r.config_view() == self.config_view(),
    {
        &self.executor
    }

    /// The address to list for a prefix of the configured bucket.
    pub fn listing_url(&self, prefix: &str) -> (r: Result<String, BackupServiceError>)
        ensures
            match bucket_spec(self.config_view().restic_repo_base@) {
                Some(b) => r matches Ok(u) && u@ == listing_url_spec(b, prefix@),
                None => r matches Err(BackupServiceError::ConfigurationError(m)) && m@
                    == no_bucket_message(self.config_view().restic_repo_base@),
            },
    {
        let bucket = self.executor.config.s3_bucket()?;
        let url = String::from_str("s3://").concat(bucket.as_str()).concat("/");
        if prefix.unicode_len() == 0 {
            Ok(url)
        } else {
            Ok(url.concat(prefix).concat("/"))
        }
    }
}

/// The line of restic's backup output that reports a saved snapshot.
pub open spec fn is_saved_line(l: Seq<char>) -> bool {
    seq_contains(l, "snapshot"@) && seq_contains(l, "saved"@)
}

/// Restic's backup output reports a saved snapshot.
pub open spec fn backup_saved_spec(output: Seq<char>) -> bool {
    seq_contains(output, "snapshot"@) && seq_contains(output, "saved"@)
}

/// Whether restic's backup output reports a saved snapshot.
pub fn backup_saved(output: &str) -> (b: bool)
    ensures
        b == backup_saved_spec(output@),
{
    contains_str(output, "snapshot") && contains_str(output, "saved")
}

/// Whether restic's backup output reports files that could not be read.
pub fn backup_skipped_files(output: &str) -> (b: bool)
    ensures
        b == seq_contains(output@, "at least one source file could not be read"@),
{
    contains_str(output, "at least one source file could not be read")
}

/// The characters that `char::is_whitespace` accepts (Unicode `White_Space`).
pub open spec fn is_space(c: char) -> bool {
    ('\u{9}' <= c <= '\u{d}') || c == ' ' || c == '\u{85}' || c == '\u{a0}' || c == '\u{1680}'
        || ('\u{2000}' <= c <= '\u{200a}') || c == '\u{2028}' || c == '\u{2029}' || c == '\u{202f}'
        || c == '\u{205f}' || c == '\u{3000}'
}

/// Whether `c` is white space.
pub fn is_space_char(c: char) -> (b: bool)
    ensures
        b == is_space(c),
{
    ('\u{9}' <= c && c <= '\u{d}') || c == ' ' || c == '\u{85}' || c == '\u{a0}' || c
        == '\u{1680}' || ('\u{2000}' <= c && c <= '\u{200a}') || c == '\u{2028}' || c
        == '\u{2029}' || c == '\u{202f}' || c == '\u{205f}' || c == '\u{3000}'
}

/// The first position at or after `i` that holds no white space (or the end).
pub open spec fn skip_space(l: Seq<char>, i: int) -> int
    decreases l.len() - i,
{
    if i < 0 || i >= l.len() || !is_space(l[i]) {
        i
    } else {
        skip_space(l, i + 1)
    }
}

/// The first position at or after `i` that holds white space (or the end).
pub open spec fn skip_word(l: Seq<char>, i: int) -> int
    decreases l.len() - i,
{
    if i < 0 || i >= l.len() || is_space(l[i]) {
        i
    } else {
        skip_word(l, i + 1)
    }
}

/// The second word of a line, words being separated by white space.
pub open spec fn second_word(l: Seq<char>) -> Option<Seq<char>> {
    let a = skip_space(l, 0);
    let b = skip_word(l, a);
    let c = skip_space(l, b);
    let d = skip_word(l, c);
    if c == d {
        None
    } else {
        Some(l.subrange(c, d))
    }
}

/// The first of `lines`, from `i` on, that reports a saved snapshot.
pub open spec fn first_saved_from(lines: Seq<Seq<char>>, i: int) -> Option<Seq<char>>
    decreases lines.len() - i,
{
    if i < 0 || i >= lines.len() {
        None
    } else if is_saved_line(lines[i]) {
        Some(lines[i])
    } else {
        first_saved_from(lines, i + 1)
    }
}

/// The id of the snapshot that restic's backup output reports as saved: the
/// second word of the first line that mentions a saved snapshot.
pub open spec fn saved_snapshot_id(output: Seq<char>) -> Option<Seq<char>> {
    match first_saved_from(split_on(output, '\n'), 0) {
        Some(l) => second_word(l),
        None => None,
    }
}

/// Moves past white space (`space`) or past a word (`!space`) from `i`.
fn skip_run(l: &Vec<char>, i: usize, space: bool) -> (r: usize)
    requires
        i <= l@.len(),
    ensures
        space ==> r == skip_space(l@, i as int),
        !space ==> r == skip_word(l@, i as int),
        i <= r <= l@.len(),
{
    let mut j = i;
    while j < l.len() && is_space_char(l[j]) == space
        invariant
            i <= j <= l@.len(),
            space ==> skip_space(l@, i as int) == skip_space(l@, j as int),
            !space ==> skip_word(l@, i as int) == skip_word(l@, j as int),
        decreases l@.len() - j,
    {
        j += 1;
    }
    j
}

/// The second word of a line.
fn second_word_of(line: &str) -> (r: Option<String>)
    ensures
        match r {
            Some(w) => second_word(line@) == Some(w@),
            None => second_word(line@) is None,
        },
{
    let l = crate::text::chars_of(line);
    let a = skip_run(&l, 0, true);
    let b = skip_run(&l, a, false);
    let c = skip_run(&l, b, true);
    let d = skip_run(&l, c, false);
    if c == d {
        None
    } else {
        Some(substring(line, c, d))
    }
}

/// Manages a backup of the configured paths and of the paths given on the command line.
pub struct BackupWorkflow {
    config: Config,
    additional_paths: Vec<String>,
}

impl BackupWorkflow {
    /// The settings used.
    pub closed spec fn config_view(&self) -> Config {
        self.config
    }

    /// The paths given besides the configured ones.
    pub closed spec fn additional_view(&self) -> Seq<String> {
        self.additional_paths@
    }

    /// A backup of `config`'s paths and of `additional_paths`.
    pub fn new(config: Config, additional_paths: Vec<String>) -> (r: Result<Self, BackupServiceError>)
        ensures
            r matches Ok(w) && w.config_view() == config && w.additional_view()
                == additional_paths@,
    {
        Ok(BackupWorkflow { config, additional_paths })
    }

    /// The settings used.
    pub fn config(&self) -> (r: &Config)
        ensures
            *r == self.config_view(),
    {
        &self.config
    }

    /// The paths to back up, before any check on disk: the configured ones,
    /// then those given on the command line, then the container volumes found.
    pub fn candidate_paths(&self, volumes: Vec<String>) -> (r: Vec<String>)
        ensures
            r@ == self.config_view().backup_paths@ + self.additional_view() + volumes@,
    {
        let mut all = self.config.backup_paths.clone();
        let mut extra = self.additional_paths.clone();
        all.append(&mut extra);
        let mut vols = volumes;
        all.append(&mut vols);
        all
    }

    /// The id of the snapshot that restic's backup output reports as saved.
    pub fn extract_snapshot_id(&self, output: &str) -> (r: Option<String>)
        ensures
            match r {
                Some(id) => saved_snapshot_id(output@) == Some(id@),
                None => saved_snapshot_id(output@) is None,
            },
    {
        let lines = split_lines(output);
        let ghost lv = split_on(output@, '\n');
        let mut k: usize = 0;
        while k < lines.len()
            invariant
                k <= lines@.len(),
                lines@.map_values(|x: String| x@) == lv,
                lv == split_on(output@, '\n'),
                first_saved_from(lv, 0) == first_saved_from(lv, k as int),
            decreases lines@.len() - k,
        {
            let line = lines[k].as_str();
            proof {
                assert(line@ == lv[k as int]);
            }
            if contains_str(line, "snapshot") && contains_str(line, "saved") {
                return second_word_of(line);
            }
            k += 1;
        }
        None
    }
}

/// The total size that restic's `stats --json` output reports; 0 when it reports none.
pub open spec fn total_size_spec(output: Seq<char>) -> u64 {
    match json_u64_field_of(output, "total_size"@) {
        Some(n) => n,
        None => 0,
    }
}

/// The total size that restic's `stats --json` output reports; 0 when it reports none.
pub fn stats_total_size(output: &str) -> (r: u64)
    ensures
        r == total_size_spec(output@),
{
    match json_u64_field(output, "total_size") {
        Some(n) => n,
        None => 0,
    }
}

/// Whether a repository exists, from the outcome of listing its snapshots: a
/// missing repository is an answer, any other failure is handed on.
pub fn repository_presence(outcome: Result<String, BackupServiceError>) -> (r: Result<bool, BackupServiceError>)
    ensures
        outcome is Ok ==> r == Ok::<bool, BackupServiceError>(true),
        (outcome matches Err(e) && e is RepositoryNotFound) ==> r == Ok::<bool, BackupServiceError>(false),
        (outcome matches Err(e) && !(e is RepositoryNotFound)) ==> r == Err::<bool, BackupServiceError>(
            outcome->Err_0,
        ),
{
    match outcome {
        Ok(_) => Ok(true),
        Err(BackupServiceError::RepositoryNotFound(_)) => Ok(false),
        Err(e) => Err(e),
    }
}

/// How a batch of per-repository operations ended.
#[derive(Debug, Clone, Copy, PartialEq, Eq, Structural)]
pub enum BatchOutcome {
    /// Every repository was handled.
    Completed,
    /// Some repositories were handled and some skipped.
    Partial,
    /// Repositories were skipped and none was handled: a failure, not a no-op.
    Failed,
}

/// How a batch ended that handled `done` repositories and skipped `skipped`.
pub open spec fn batch_outcome_spec(done: nat, skipped: nat) -> BatchOutcome {
    if done == 0 && skipped > 0 {
        BatchOutcome::Failed
    } else if skipped > 0 {
        BatchOutcome::Partial
    } else {
        BatchOutcome::Completed
    }
}

/// How a batch ended that handled `done` repositories and skipped `skipped`.
pub fn summarize_batch(done: usize, skipped: usize) -> (r: BatchOutcome)
    ensures
        r == batch_outcome_spec(done as nat, skipped as nat),
{
    if done == 0 && skipped > 0 {
        BatchOutcome::Failed
    } else if skipped > 0 {
        BatchOutcome::Partial
    } else {
        BatchOutcome::Completed
    }
}

/// The running count of a batch of per-repository operations.
#[derive(Debug, Clone, Copy, PartialEq, Eq, Structural)]
pub struct BatchTally {
    pub done: usize,
    pub skipped: usize,
}

impl BatchTally {
    /// A batch with nothing handled yet.
    pub fn new() -> (t: Self)
        ensures
            t.done == 0 && t.skipped == 0,
    {
        BatchTally { done: 0, skipped: 0 }
    }

    /// Takes in the outcome of one repository's operation. A fatal failure is
    /// handed back, to abort the whole batch, and counts nothing; any other
    /// failure counts the repository as skipped.
    pub fn record(&mut self, outcome: Result<(), BackupServiceError>) -> (r: Result<(), BackupServiceError>)
        requires
            old(self).done < usize::MAX,
            old(self).skipped < usize::MAX,
        ensures
            match outcome {
                Ok(_) => r is Ok && final(self).done == old(self).done + 1 && final(self).skipped
                    == old(self).skipped,
                Err(e) => if is_fatal_spec(e) {
                    r == Err::<(), BackupServiceError>(e) && *final(self) == *old(self)
                } else {
                    r is Ok && final(self).done == old(self).done && final(self).skipped
                        == old(self).skipped + 1
                },
            },
    {
        match outcome {
            Ok(_) => {
                self.done = self.done + 1;
                Ok(())
            },
            Err(e) => {
                if e.is_fatal() {
                    Err(e)
                } else {
                    self.skipped = self.skipped + 1;
                    Ok(())
                }
            },
        }
    }

    /// Counts one repository as skipped.
    pub fn skip(&mut self)
        requires
            old(self).skipped < usize::MAX,
        ensures
            final(self).done == old(self).done && final(self).skipped == old(self).skipped + 1,
    {
        self.skipped = self.skipped + 1;
    }

    /// How the batch ended.
    pub fn outcome(&self) -> (r: BatchOutcome)
        ensures
            r == batch_outcome_spec(self.done as nat, self.skipped as nat),
    {
        summarize_batch(self.done, self.skipped)
    }
}

/// Where restore puts the files of `native` below the directory `dest`.
pub open spec fn restored_path_spec(dest: Seq<char>, native: Seq<char>) -> Seq<char> {
    dest + "/"@ + trim_leading(native, '/')
}

/// Where restore puts the files of the native path `native` below the directory `dest`.
pub fn restored_path(dest: &str, native: &str) -> (r: String)
    ensures
        r@ == restored_path_spec(dest@, native@),
{
    let nv = chars_of(native);
    let n = nv.len();
    let mut i: usize = 0;
    proof {
        assert(native@.skip(0) =~= native@);
    }
    while i < n && nv[i] == '/'
        invariant
            n == nv@.len(),
            nv@ == native@,
            i <= n,
            trim_leading(native@, '/') == trim_leading(native@.skip(i as int), '/'),
        decreases n - i,
    {
        proof {
            assert(native@.skip(i as int).skip(1) =~= native@.skip(i + 1));
        }
        i += 1;
    }
    proof {
        assert(native@.skip(i as int) =~= native@.subrange(i as int, n as int));
    }
    String::from_str(dest).concat("/").concat(substring(native, i, n).as_str())
}

/// Manages an interactive restore, with the choices that were given up front.
pub struct RestoreWorkflow {
    config: Config,
    host_opt: Option<String>,
    path_opt: Option<String>,
    timestamp_opt: Option<String>,
}

impl RestoreWorkflow {
    /// The settings used.
    pub closed spec fn config_view(&self) -> Config {
        self.config
    }

    /// The choices given up front: host, path and time.
    pub closed spec fn options_view(&self) -> (Option<String>, Option<String>, Option<String>) {
        (self.host_opt, self.path_opt, self.timestamp_opt)
    }

    /// A restore with the given choices.
    pub fn new(
        config: Config,
        host_opt: Option<String>,
        path_opt: Option<String>,
        timestamp_opt: Option<String>,
    ) -> (r: Result<Self, BackupServiceError>)
        ensures
            r matches Ok(w) && w.config_view() == config && w.options_view() == (
                host_opt,
                path_opt,
                timestamp_opt,
            ),
    {
        Ok(RestoreWorkflow { config, host_opt, path_opt, timestamp_opt })
    }

    /// The settings used.
    pub fn config(&self) -> (r: &Config)
        ensures
            *r == self.config_view(),
    {
        &self.config
    }

    /// The host chosen up front.
    pub fn host_opt(&self) -> (r: &Option<String>)
        ensures
            *r == self.options_view().0,
    {
        &self.host_opt
    }

    /// The path chosen up front.
    pub fn path_opt(&self) -> (r: &Option<String>)
        ensures
            *r == self.options_view().1,
    {
        &self.path_opt
    }

    /// The time chosen up front.
    pub fn timestamp_opt(&self) -> (r: &Option<String>)
        ensures
            *r == self.options_view().2,
    {
        &self.timestamp_opt
    }
}

/// A copy of a snapshot record.
fn copy_snapshot(s: &SnapshotInfo) -> (r: SnapshotInfo)
    ensures
        r@ == s@,
{
    SnapshotInfo { time: s.time, path: s.path.clone(), id: s.id.clone() }
}

/// The snapshots of every repository, flattened in order.
pub open spec fn all_snapshots_spec(data: Seq<RepositoryData>) -> Seq<(i64, Seq<char>, Seq<char>)>
    decreases data.len(),
{
    if data.len() == 0 {
        Seq::empty()
    } else {
        all_snapshots_spec(data.drop_last()) + snapshot_views(data.last().snapshots@)
    }
}

/// Collects repositories and their snapshots for reporting and restoring.
pub struct RepositoryOperations {
    config: Config,
    scanner: RepositoryScanner,
}

impl RepositoryOperations {
    /// The settings used.
    pub closed spec fn config_view(&self) -> Config {
        self.config
    }

    /// The scanner used.
    pub closed spec fn scanner_view(&self) -> RepositoryScanner {
        self.scanner
    }

    /// Operations working with `config`.
    pub fn new(config: Config) -> (r: Result<Self, BackupServiceError>)
        ensures
            r matches Ok(o) && o.config_view() == config && same_config(
                o.scanner_view().config_view(),
                config,
            ),
    {
        let scanner = RepositoryScanner::new(config.duplicate())?;
        Ok(RepositoryOperations { config, scanner })
    }

    /// The settings used.
    pub fn config(&self) -> (r: &Config)
        ensures
            *r == self.config_view(),
    {
        &self.config
    }

    /// The scanner used.
    pub fn scanner(&self) -> (r: &RepositoryScanner)
        ensures
            *r == self.scanner_view(),
    {
        &self.scanner
    }

    /// One record per repository: its native path and its snapshot count, in order.
    pub fn convert_to_backup_repos(&self, repo_data: Vec<RepositoryData>) -> (r: Result<
        Vec<BackupRepo>,
        BackupServiceError,
    >)
        ensures
            r matches Ok(v) && v@.len() == repo_data@.len() && forall|k: int|
                0 <= k < v@.len() ==> v@[k].native_path@ == repo_data@[k].info.native_path@
                    && v@[k].snapshot_count == repo_data@[k].snapshot_count,
    {
        let mut out: Vec<BackupRepo> = Vec::new();
        let mut k: usize = 0;
        while k < repo_data.len()
            invariant
                k <= repo_data@.len(),
                out@.len() == k,
                forall|j: int|
                    0 <= j < k ==> out@[j].native_path@ == repo_data@[j].info.native_path@
                        && out@[j].snapshot_count == repo_data@[j].snapshot_count,
            decreases repo_data@.len() - k,
        {
            let d = &repo_data[k];
            let repo = BackupRepo::new(d.info.native_path.clone())?;
            let repo = repo.with_count(d.snapshot_count)?;
            out.push(repo);
            k += 1;
        }
        Ok(out)
    }

    /// The snapshots of every repository, flattened in order.
    pub fn extract_all_snapshots(&self, repo_data: &Vec<RepositoryData>) -> (r: Vec<SnapshotInfo>)
        ensures
            snapshot_views(r@) == all_snapshots_spec(repo_data@),
    {
        let mut out: Vec<SnapshotInfo> = Vec::new();
        let mut k: usize = 0;
        while k < repo_data.len()
            invariant
                k <= repo_data@.len(),
                snapshot_views(out@) == all_snapshots_spec(repo_data@.take(k as int)),
            decreases repo_data@.len() - k,
        {
            let snaps = &repo_data[k].snapshots;
            let ghost base = out@;
            let mut j: usize = 0;
            while j < snaps.len()
                invariant
                    j <= snaps@.len(),
                    *snaps == repo_data@[k as int].snapshots,
                    snapshot_views(out@) == snapshot_views(base) + snapshot_views(
                        snaps@.take(j as int),
                    ),
                decreases snaps@.len() - j,
            {
                let ghost before = out@;
                out.push(copy_snapshot(&snaps[j]));
                proof {
                    assert(snapshot_views(out@) =~= snapshot_views(before).push(snaps@[j as int]@));
                    assert(snapshot_views(snaps@.take(j + 1)) =~= snapshot_views(
                        snaps@.take(j as int),
                    ).push(snaps@[j as int]@));
                }
                j += 1;
            }
            proof {
                assert(snaps@.take(snaps@.len() as int) =~= snaps@);
                assert(repo_data@.take(k + 1).drop_last() =~= repo_data@.take(k as int));
            }
            k += 1;
        }
        proof {
            assert(repo_data@.take(repo_data@.len() as int) =~= repo_data@);
        }
        out
    }

    /// The repositories that have snapshots, in order, as items offered for restore.
    pub fn convert_to_selection_items(&self, repo_data: Vec<RepositoryData>) -> (r: Result<
        Vec<RepositorySelectionItem>,
        BackupServiceError,
    >)
        ensures
            r matches Ok(v) && v@.map_values(|i: RepositorySelectionItem| item_view(i))
                == selectable_upto(repo_data@, repo_data@.len() as int),
    {
        let ghost all = repo_data@;
        let n = repo_data.len();
        let mut rest = repo_data;
        let mut out: Vec<RepositorySelectionItem> = Vec::new();
        let mut k: usize = 0;
        while k < n
            invariant
                n == all.len(),
                all == repo_data@,
                k <= n,
                rest@ == all.skip(k as int),
                out@.map_values(|i: RepositorySelectionItem| item_view(i)) == selectable_upto(
                    all,
                    k as int,
                ),
            decreases n - k,
        {
            let d = rest.remove(0);
            proof {
                assert(d == all[k as int]);
                assert(rest@ =~= all.skip(k + 1));
            }
            if d.snapshots.len() > 0 {
                let ghost before = out@;
                out.push(
                    RepositorySelectionItem {
                        path: d.info.native_path,
                        repo_subpath: d.info.repo_subpath,
                        category: d.info.category,
                        snapshots: d.snapshots,
                    },
                );
                proof {
                    assert(out@.map_values(|i: RepositorySelectionItem| item_view(i)) =~= before.map_values(
                        |i: RepositorySelectionItem| item_view(i),
                    ).push(item_view(out@.last())));
                }
            }
            k += 1;
        }
        Ok(out)
    }
}

} // verus!
