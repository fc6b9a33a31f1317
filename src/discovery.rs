use crate::category::volumes_root;
use crate::codec::{decode_spec, PathMapper};
use crate::config::{base_path_spec, same_config, Config};
use crate::errors::{is_fatal_spec, BackupServiceError};
use crate::snapshots::SnapshotCollector;
use vstd::prelude::*;

verus! {

/// One backup repository found in the store.
#[derive(Debug, Clone)]
pub struct RepositoryInfo {
    pub native_path: String,
    pub repo_subpath: String,
    pub category: String,
}

/// A repository as (native path, repository key, category name).
pub type RepoView = (Seq<char>, Seq<char>, Seq<char>);

impl View for RepositoryInfo {
    type V = RepoView;

    open spec fn view(&self) -> RepoView {
        (self.native_path@, self.repo_subpath@, self.category@)
    }
}

/// The views of a list of strings.
pub open spec fn str_views(v: Seq<String>) -> Seq<Seq<char>> {
    v.map_values(|s: String| s@)
}

/// The views of a list of repositories.
pub open spec fn repo_views(v: Seq<RepositoryInfo>) -> Seq<RepoView> {
    v.map_values(|r: RepositoryInfo| r@)
}

/// The repository kept for directory `leaf` of `user`'s home.
pub open spec fn user_repo(user: Seq<char>, leaf: Seq<char>) -> RepoView {
    (
        "/home/"@ + user + "/"@ + decode_spec(leaf),
        "user_home/"@ + user + "/"@ + leaf,
        "user_home"@,
    )
}

/// The repository kept for a whole container volume.
pub open spec fn volume_repo(volume: Seq<char>) -> RepoView {
    (volumes_root() + volume, "docker_volume/"@ + volume, "docker_volume"@)
}

/// A repository initialized inside a container volume's own repository.
pub open spec fn nested_repo(volume: Seq<char>, name: Seq<char>) -> RepoView {
    (
        volumes_root() + volume + "/"@ + name,
        "docker_volume/"@ + volume + "/"@ + name,
        "docker_volume"@,
    )
}

/// The repository kept for a system path.
pub open spec fn system_repo(leaf: Seq<char>) -> RepoView {
    ("/"@ + decode_spec(leaf), "system/"@ + leaf, "system"@)
}

/// A directory that the backup engine keeps inside every repository.
pub open spec fn is_engine_dir(name: Seq<char>) -> bool {
    name == "data"@ || name == "index"@ || name == "keys"@ || name == "snapshots"@ || name
        == "locks"@
}

/// Keeps the entries that are not the engine's own directories.
pub open spec fn keeps_entry() -> spec_fn(Seq<char>) -> bool {
    |n: Seq<char>| !is_engine_dir(n)
}

/// The nested repositories that the entries of a volume's repository stand for.
pub open spec fn nested_repos(volume: Seq<char>, entries: Seq<Seq<char>>) -> Seq<RepoView> {
    entries.filter(keeps_entry()).map_values(|n: Seq<char>| nested_repo(volume, n))
}

/// Concatenates strings.
fn join3(a: &str, b: &str, c: &str) -> (r: String)
    ensures
        r@ == a@ + b@ + c@,
{
    String::from_str(a).concat(b).concat(c)
}

/// The repository kept for directory `leaf` of `user`'s home.
pub fn user_home_repository(user: &str, leaf: &str) -> (r: RepositoryInfo)
    ensures
        r@ == user_repo(user@, leaf@),
{
    let native = PathMapper::s3_to_native_path(leaf);
    RepositoryInfo {
        native_path: join3("/home/", user, "/").concat(native.as_str()),
        repo_subpath: join3("user_home/", user, "/").concat(leaf),
        category: String::from_str("user_home"),
    }
}

/// The repository kept for a whole container volume.
pub fn docker_volume_repository(volume: &str) -> (r: RepositoryInfo)
    ensures
        r@ == volume_repo(volume@),
{
    RepositoryInfo {
        native_path: String::from_str("/mnt/docker-data/volumes/").concat(volume),
        repo_subpath: String::from_str("docker_volume/").concat(volume),
        category: String::from_str("docker_volume"),
    }
}

/// A repository initialized inside a container volume's own repository.
pub fn nested_volume_repository(volume: &str, name: &str) -> (r: RepositoryInfo)
    ensures
        r@ == nested_repo(volume@, name@),
{
    RepositoryInfo {
        native_path: join3("/mnt/docker-data/volumes/", volume, "/").concat(name),
        repo_subpath: join3("docker_volume/", volume, "/").concat(name),
        category: String::from_str("docker_volume"),
    }
}

/// The repository kept for a system path.
pub fn system_repository(leaf: &str) -> (r: RepositoryInfo)
    ensures
        r@ == system_repo(leaf@),
{
    let native = PathMapper::s3_to_native_path(leaf);
    RepositoryInfo {
        native_path: String::from_str("/").concat(native.as_str()),
        repo_subpath: String::from_str("system/").concat(leaf),
        category: String::from_str("system"),
    }
}

/// Whether `name` is a directory that the backup engine keeps inside every repository.
pub fn is_engine_directory(name: &str) -> (b: bool)
    ensures
        b == is_engine_dir(name@),
{
    let v = crate::text::chars_of(name);
    crate::text::equals_str(&v, "data") || crate::text::equals_str(&v, "index")
        || crate::text::equals_str(&v, "keys") || crate::text::equals_str(&v, "snapshots")
        || crate::text::equals_str(&v, "locks")
}

/// The nested repositories that the entries listed inside a volume's repository
/// stand for: every entry but the engine's own directories.
pub fn nested_repositories(volume: &str, entries: &Vec<String>) -> (r: Vec<RepositoryInfo>)
    ensures
        repo_views(r@) == nested_repos(volume@, str_views(entries@)),
{
    let mut out: Vec<RepositoryInfo> = Vec::new();
    let mut i: usize = 0;
    while i < entries.len()
        invariant
            i <= entries@.len(),
            repo_views(out@) == nested_repos(volume@, str_views(entries@.take(i as int))),
        decreases entries@.len() - i,
    {
        let e = &entries[i];
        let ghost prev = out@;
        let ghost ev = str_views(entries@.take(i as int));
        proof {
            assert(str_views(entries@.take(i + 1)) =~= ev.push(e@));
            ev.lemma_filter_push(e@, keeps_entry());
            assert(keeps_entry()(e@) == !is_engine_dir(e@));
        }
        if !is_engine_directory(e.as_str()) {
            out.push(nested_volume_repository(volume, e.as_str()));
            proof {
                assert(repo_views(out@) =~= repo_views(prev).push(nested_repo(volume@, e@)));
                assert(ev.push(e@).filter(keeps_entry()) == ev.filter(keeps_entry()).push(e@));
                assert(ev.filter(keeps_entry()).push(e@).map_values(|n: Seq<char>| nested_repo(volume@, n))
                    =~= ev.filter(keeps_entry()).map_values(|n: Seq<char>| nested_repo(volume@, n)).push(
                    nested_repo(volume@, e@),
                ));
            }
        } else {
            proof {
                assert(ev.push(e@).filter(keeps_entry()) == ev.filter(keeps_entry()));
            }
        }
        i += 1;
    }
    proof {
        assert(entries@.take(entries@.len() as int) =~= entries@);
    }
    out
}

/// The listings that a discovery scan asks for.
#[derive(Debug, Clone, Copy, PartialEq, Eq, Structural)]
pub enum ListingKind {
    /// The users that have home repositories.
    Users,
    /// The repositories of one user's home.
    UserLeaves,
    /// The container volumes that have repositories.
    Volumes,
    /// The entries of one volume's repository.
    VolumeEntries,
    /// The system-path repositories.
    SystemLeaves,
}

/// One listing asked for: `name` is the user or volume listed, empty for the
/// listing of a whole category.
#[derive(Debug, Clone)]
pub struct ListingRequest {
    pub kind: ListingKind,
    pub name: String,
}

/// A listing request as (kind, name).
pub open spec fn request_view(r: ListingRequest) -> (ListingKind, Seq<char>) {
    (r.kind, r.name@)
}

/// The views of a list of listing requests.
pub open spec fn request_views(v: Seq<ListingRequest>) -> Seq<(ListingKind, Seq<char>)> {
    v.map_values(|r: ListingRequest| request_view(r))
}

/// The store prefix listed for a request, below `root` (the host's prefix).
pub open spec fn request_prefix(root: Seq<char>, kind: ListingKind, name: Seq<char>) -> Seq<char> {
    match kind {
        ListingKind::Users => root + "/user_home"@,
        ListingKind::UserLeaves => root + "/user_home/"@ + name,
        ListingKind::Volumes => root + "/docker_volume"@,
        ListingKind::VolumeEntries => root + "/docker_volume/"@ + name,
        ListingKind::SystemLeaves => root + "/system"@,
    }
}

/// The listings that the entries of a listing lead to.
pub open spec fn requests_from(kind: ListingKind, entries: Seq<Seq<char>>) -> Seq<
    (ListingKind, Seq<char>),
> {
    match kind {
        ListingKind::Users => entries.map_values(|u: Seq<char>| (ListingKind::UserLeaves, u)),
        ListingKind::Volumes => entries.map_values(|v: Seq<char>| (ListingKind::VolumeEntries, v)),
        _ => Seq::empty(),
    }
}

/// The repositories that the entries of a listing stand for.
pub open spec fn repos_from(kind: ListingKind, name: Seq<char>, entries: Seq<Seq<char>>) -> Seq<
    RepoView,
> {
    match kind {
        ListingKind::Users => Seq::empty(),
        ListingKind::UserLeaves => entries.map_values(|l: Seq<char>| user_repo(name, l)),
        ListingKind::Volumes => entries.map_values(|v: Seq<char>| volume_repo(v)),
        ListingKind::VolumeEntries => nested_repos(name, entries),
        ListingKind::SystemLeaves => entries.map_values(|l: Seq<char>| system_repo(l)),
    }
}

/// The entries that a listing outcome stands for: a failed listing that is not
/// fatal lists nothing.
pub open spec fn outcome_entries(outcome: Result<Vec<String>, BackupServiceError>) -> Seq<Seq<char>> {
    match outcome {
        Ok(v) => str_views(v@),
        Err(_) => Seq::empty(),
    }
}

/// The listing failed in a way that must stop the scan.
pub open spec fn outcome_is_fatal(outcome: Result<Vec<String>, BackupServiceError>) -> bool {
    match outcome {
        Ok(_) => false,
        Err(e) => is_fatal_spec(e),
    }
}

/// A discovery of every repository of one host. It asks for one listing at a
/// time (`next_request`), is told what came of it (`feed`), and in the end
/// yields every repository found, or the failure that stopped it.
pub struct DiscoveryScan {
    root: String,
    pending: Vec<ListingRequest>,
    next: usize,
    found: Vec<RepositoryInfo>,
    failure: Option<BackupServiceError>,
}

impl DiscoveryScan {
    /// The host's prefix in the store.
    pub closed spec fn root_view(&self) -> Seq<char> {
        self.root@
    }

    /// Every listing asked for so far, answered or not.
    pub closed spec fn requests(&self) -> Seq<(ListingKind, Seq<char>)> {
        request_views(self.pending@)
    }

    /// How many listings have been answered.
    pub closed spec fn answered(&self) -> int {
        self.next as int
    }

    /// The repositories found so far.
    pub closed spec fn found_view(&self) -> Seq<RepoView> {
        repo_views(self.found@)
    }

    /// The fatal failure that stopped the scan, if one did.
    pub closed spec fn failure_view(&self) -> Option<BackupServiceError> {
        self.failure
    }

    /// No more than the listings asked for have been answered.
    pub closed spec fn wf(&self) -> bool {
        self.next <= self.pending@.len()
    }

    /// The scan has a listing outstanding.
    pub open spec fn waiting(&self) -> bool {
        self.wf() && self.failure_view() is None && self.answered() < self.requests().len()
    }

    /// A scan of the host whose prefix in the store is `root`; it begins with
    /// the listing of each category.
    pub fn new(root: String) -> (s: Self)
        ensures
            s.wf(),
            s.root_view() == root@,
            s.requests() == seq![
                (ListingKind::Users, Seq::<char>::empty()),
                (ListingKind::Volumes, Seq::<char>::empty()),
                (ListingKind::SystemLeaves, Seq::<char>::empty()),
            ],
            s.answered() == 0,
            s.found_view() == Seq::<RepoView>::empty(),
            s.failure_view() is None,
    {
        let mut pending: Vec<ListingRequest> = Vec::new();
        pending.push(ListingRequest { kind: ListingKind::Users, name: String::new() });
        pending.push(ListingRequest { kind: ListingKind::Volumes, name: String::new() });
        pending.push(ListingRequest { kind: ListingKind::SystemLeaves, name: String::new() });
        let s = DiscoveryScan { root, pending, next: 0, found: Vec::new(), failure: None };
        proof {
            assert(s.requests() =~= seq![
                (ListingKind::Users, Seq::<char>::empty()),
                (ListingKind::Volumes, Seq::<char>::empty()),
                (ListingKind::SystemLeaves, Seq::<char>::empty()),
            ]);
            assert(s.found_view() =~= Seq::<RepoView>::empty());
        }
        s
    }

    /// The prefix to list next; `None` once the scan is over.
    pub fn next_request(&self) -> (r: Option<String>)
        requires
            self.wf(),
        ensures
            self.waiting() ==> (r matches Some(p) && p@ == request_prefix(
                self.root_view(),
                self.requests()[self.answered()].0,
                self.requests()[self.answered()].1,
            )),
            !self.waiting() ==> r is None,
    {
        if self.failure.is_some() || self.next >= self.pending.len() {
            return None;
        }
        let req = &self.pending[self.next];
        let root = self.root.as_str();
        let p = match req.kind {
            ListingKind::Users => String::from_str(root).concat("/user_home"),
            ListingKind::UserLeaves => join3(root, "/user_home/", req.name.as_str()),
            ListingKind::Volumes => String::from_str(root).concat("/docker_volume"),
            ListingKind::VolumeEntries => join3(root, "/docker_volume/", req.name.as_str()),
            ListingKind::SystemLeaves => String::from_str(root).concat("/system"),
        };
        Some(p)
    }

    /// Takes in what came of the outstanding listing. A fatal failure stops the
    /// scan; any other failure counts as an empty listing.
    pub fn feed(&mut self, outcome: Result<Vec<String>, BackupServiceError>)
        requires
            old(self).waiting(),
        ensures
            final(self).wf(),
            final(self).root_view() == old(self).root_view(),
            outcome_is_fatal(outcome) ==> final(self).failure_view() == Some(outcome->Err_0)
                && final(self).found_view() == old(self).found_view(),
            !outcome_is_fatal(outcome) ==> {
                let head = old(self).requests()[old(self).answered()];
                let entries = outcome_entries(outcome);
                &&& final(self).failure_view() is None
                &&& final(self).answered() == old(self).answered() + 1
                &&& final(self).requests() == old(self).requests() + requests_from(head.0, entries)
                &&& final(self).found_view() == old(self).found_view() + repos_from(
                    head.0,
                    head.1,
                    entries,
                )
            },
    {
        let count = self.pending.len();
        let kind = self.pending[self.next].kind;
        let name = self.pending[self.next].name.clone();
        let ghost head = self.requests()[self.next as int];
        proof {
            assert(head == request_view(self.pending@[self.next as int]));
        }
        let entries = match outcome {
            Ok(v) => v,
            Err(e) => {
                if e.is_fatal() {
                    self.failure = Some(e);
                    return ;
                }
                Vec::new()
            },
        };
        let ghost ev = str_views(entries@);
        proof {
            if entries@.len() == 0 {
                assert(ev =~= Seq::<Seq<char>>::empty());
            }
        }
        self.next = self.next + 1;
        match kind {
            ListingKind::Users => {
                push_requests(&mut self.pending, ListingKind::UserLeaves, &entries);
                proof {
                    assert(requests_from(kind, ev) =~= ev.map_values(
                        |u: Seq<char>| (ListingKind::UserLeaves, u),
                    ));
                    assert(repos_from(kind, name@, ev) =~= Seq::<RepoView>::empty());
                    assert(self.found_view() =~= old(self).found_view() + repos_from(
                        kind,
                        name@,
                        ev,
                    ));
                }
            },
            ListingKind::Volumes => {
                push_requests(&mut self.pending, ListingKind::VolumeEntries, &entries);
                push_volume_repos(&mut self.found, &entries);
            },
            ListingKind::UserLeaves => {
                push_user_repos(&mut self.found, name.as_str(), &entries);
                proof {
                    assert(self.requests() =~= old(self).requests() + requests_from(kind, ev));
                }
            },
            ListingKind::VolumeEntries => {
                let nested = nested_repositories(name.as_str(), &entries);
                append_repos(&mut self.found, nested);
                proof {
                    assert(self.requests() =~= old(self).requests() + requests_from(kind, ev));
                }
            },
            ListingKind::SystemLeaves => {
                push_system_repos(&mut self.found, &entries);
                proof {
                    assert(self.requests() =~= old(self).requests() + requests_from(kind, ev));
                }
            },
        }
    }

    /// The repositories found, or the fatal failure that stopped the scan.
    pub fn finish(self) -> (r: Result<Vec<RepositoryInfo>, BackupServiceError>)
        requires
            self.wf(),
            !self.waiting(),
        ensures
            self.failure_view() matches Some(e) ==> r == Err::<Vec<RepositoryInfo>, _>(e),
            self.failure_view() is None ==> (r matches Ok(v) && repo_views(v@)
                == self.found_view()),
    {
        match self.failure {
            Some(e) => Err(e),
            None => Ok(self.found),
        }
    }
}

/// Appends one request of `kind` for each entry.
fn push_requests(pending: &mut Vec<ListingRequest>, kind: ListingKind, entries: &Vec<String>)
    ensures
        final(pending)@.len() >= old(pending)@.len(),
        request_views(final(pending)@) == request_views(old(pending)@) + str_views(entries@).map_values(
            |e: Seq<char>| (kind, e),
        ),
{
    let mut i: usize = 0;
    while i < entries.len()
        invariant
            pending@.len() >= old(pending)@.len(),
            i <= entries@.len(),
            request_views(pending@) == request_views(old(pending)@) + str_views(
                entries@.take(i as int),
            ).map_values(|e: Seq<char>| (kind, e)),
        decreases entries@.len() - i,
    {
        let ghost prev = pending@;
        pending.push(ListingRequest { kind, name: entries[i].clone() });
        proof {
            assert(request_views(pending@) =~= request_views(prev).push((kind, entries@[i as int]@)));
            assert(str_views(entries@.take(i + 1)).map_values(|e: Seq<char>| (kind, e)) =~= str_views(
                entries@.take(i as int),
            ).map_values(|e: Seq<char>| (kind, e)).push((kind, entries@[i as int]@)));
        }
        i += 1;
    }
    proof {
        assert(entries@.take(entries@.len() as int) =~= entries@);
    }
}

/// Appends the repositories of `user`'s home directories.
fn push_user_repos(found: &mut Vec<RepositoryInfo>, user: &str, entries: &Vec<String>)
    ensures
        repo_views(final(found)@) == repo_views(old(found)@) + str_views(entries@).map_values(
            |l: Seq<char>| user_repo(user@, l),
        ),
{
    let mut i: usize = 0;
    while i < entries.len()
        invariant
            i <= entries@.len(),
            repo_views(found@) == repo_views(old(found)@) + str_views(
                entries@.take(i as int),
            ).map_values(|l: Seq<char>| user_repo(user@, l)),
        decreases entries@.len() - i,
    {
        let ghost prev = found@;
        found.push(user_home_repository(user, entries[i].as_str()));
        proof {
            assert(repo_views(found@) =~= repo_views(prev).push(user_repo(user@, entries@[i as int]@)));
            assert(str_views(entries@.take(i + 1)).map_values(|l: Seq<char>| user_repo(user@, l))
                =~= str_views(entries@.take(i as int)).map_values(
                |l: Seq<char>| user_repo(user@, l),
            ).push(user_repo(user@, entries@[i as int]@)));
        }
        i += 1;
    }
    proof {
        assert(entries@.take(entries@.len() as int) =~= entries@);
    }
}

/// Appends the repositories of whole container volumes.
fn push_volume_repos(found: &mut Vec<RepositoryInfo>, entries: &Vec<String>)
    ensures
        repo_views(final(found)@) == repo_views(old(found)@) + str_views(entries@).map_values(
            |v: Seq<char>| volume_repo(v),
        ),
{
    let mut i: usize = 0;
    while i < entries.len()
        invariant
            i <= entries@.len(),
            repo_views(found@) == repo_views(old(found)@) + str_views(
                entries@.take(i as int),
            ).map_values(|v: Seq<char>| volume_repo(v)),
        decreases entries@.len() - i,
    {
        let ghost prev = found@;
        found.push(docker_volume_repository(entries[i].as_str()));
        proof {
            assert(repo_views(found@) =~= repo_views(prev).push(volume_repo(entries@[i as int]@)));
            assert(str_views(entries@.take(i + 1)).map_values(|v: Seq<char>| volume_repo(v))
                =~= str_views(entries@.take(i as int)).map_values(
                |v: Seq<char>| volume_repo(v),
            ).push(volume_repo(entries@[i as int]@)));
        }
        i += 1;
    }
    proof {
        assert(entries@.take(entries@.len() as int) =~= entries@);
    }
}

/// Appends the repositories of system paths.
fn push_system_repos(found: &mut Vec<RepositoryInfo>, entries: &Vec<String>)
    ensures
        repo_views(final(found)@) == repo_views(old(found)@) + str_views(entries@).map_values(
            |l: Seq<char>| system_repo(l),
        ),
{
    let mut i: usize = 0;
    while i < entries.len()
        invariant
            i <= entries@.len(),
            repo_views(found@) == repo_views(old(found)@) + str_views(
                entries@.take(i as int),
            ).map_values(|l: Seq<char>| system_repo(l)),
        decreases entries@.len() - i,
    {
        let ghost prev = found@;
        found.push(system_repository(entries[i].as_str()));
        proof {
            assert(repo_views(found@) =~= repo_views(prev).push(system_repo(entries@[i as int]@)));
            assert(str_views(entries@.take(i + 1)).map_values(|l: Seq<char>| system_repo(l))
                =~= str_views(entries@.take(i as int)).map_values(
                |l: Seq<char>| system_repo(l),
            ).push(system_repo(entries@[i as int]@)));
        }
        i += 1;
    }
    proof {
        assert(entries@.take(entries@.len() as int) =~= entries@);
    }
}

/// Appends `more` to `found`.
fn append_repos(found: &mut Vec<RepositoryInfo>, more: Vec<RepositoryInfo>)
    ensures
        repo_views(final(found)@) == repo_views(old(found)@) + repo_views(more@),
{
    let mut more = more;
    let ghost m = more@;
    found.append(&mut more);
    proof {
        assert(repo_views(found@) =~= repo_views(old(found)@) + repo_views(m));
    }
}

/// Once a fatal failure has stopped a scan, the scan asks for no more listings
/// and its result is that failure: nothing found before it is handed out.
pub proof fn lemma_fatal_failure_ends_scan(s: DiscoveryScan, e: BackupServiceError)
    requires
        s.wf(),
        s.failure_view() == Some(e),
    ensures
        !s.waiting(),
{
}

/// The host's prefix in the store, below the bucket.
pub open spec fn host_root_spec(base_path: Seq<char>, hostname: Seq<char>) -> Seq<char> {
    if base_path.len() == 0 {
        hostname
    } else {
        base_path + "/"@ + hostname
    }
}

/// Finds the repositories kept in the store, and their snapshots.
pub struct RepositoryScanner {
    config: Config,
    snapshot_collector: SnapshotCollector,
}

impl RepositoryScanner {
    /// The scanner's settings.
    pub closed spec fn config_view(&self) -> Config {
        self.config
    }

    /// The collector of snapshot records that the scanner uses.
    pub closed spec fn collector_view(&self) -> SnapshotCollector {
        self.snapshot_collector
    }

    /// A scanner working with `config`.
    pub fn new(config: Config) -> (r: Result<Self, BackupServiceError>)
        ensures
            r matches Ok(s) && s.config_view() == config && same_config(
                s.collector_view().config_view(),
                config,
            ),
    {
        let snapshot_collector = SnapshotCollector::new(config.duplicate())?;
        Ok(RepositoryScanner { config, snapshot_collector })
    }

    /// The scanner's settings.
    pub fn config(&self) -> (r: &Config)
        ensures
            *r == self.config_view(),
    {
        &self.config
    }

    /// The collector of snapshot records that the scanner uses.
    pub fn snapshot_collector(&self) -> (r: &SnapshotCollector)
        ensures
            *r == self.collector_view(),
    {
        &self.snapshot_collector
    }

    /// The store prefix of one category of a host's repositories.
    pub fn build_s3_path(&self, hostname: &str, category: &str) -> (r: Result<String, BackupServiceError>)
        ensures
            r matches Ok(p) && p@ == host_root_spec(
                base_path_spec(self.config_view().restic_repo_base@),
                hostname@,
            ) + "/"@ + category@,
    {
        let root = self.host_root(hostname)?;
        Ok(join3(root.as_str(), "/", category))
    }

    /// The host's prefix in the store, below the bucket.
    pub fn host_root(&self, hostname: &str) -> (r: Result<String, BackupServiceError>)
        ensures
            r matches Ok(p) && p@ == host_root_spec(
                base_path_spec(self.config_view().restic_repo_base@),
                hostname@,
            ),
    {
        let base_path = self.config.s3_base_path()?;
        if base_path.as_str().unicode_len() == 0 {
            Ok(String::from_str(hostname))
        } else {
            Ok(join3(base_path.as_str(), "/", hostname))
        }
    }

    /// A discovery scan of every repository of `hostname`.
    pub fn start_discovery(&self, hostname: &str) -> (r: Result<DiscoveryScan, BackupServiceError>)
        ensures
            r matches Ok(s) && s.wf() && s.root_view() == host_root_spec(
                base_path_spec(self.config_view().restic_repo_base@),
                hostname@,
            ) && s.answered() == 0 && s.requests() == seq![
                (ListingKind::Users, Seq::<char>::empty()),
                (ListingKind::Volumes, Seq::<char>::empty()),
                (ListingKind::SystemLeaves, Seq::<char>::empty()),
            ] && s.found_view() == Seq::<RepoView>::empty() && s.failure_view() is None,
    {
        let root = self.host_root(hostname)?;
        Ok(DiscoveryScan::new(root))
    }
}

} // verus!
