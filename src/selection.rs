use crate::category::{classify, classify_spec, BackupRepo, Category};
use crate::errors::BackupServiceError;
use crate::size::{decimal, push_decimal};
use crate::snapshots::{snapshot_views, RepositoryData, SnapshotInfo};
use crate::text::{chars_of, equals_str};
use crate::windows::{insert_desc, strictly_decreasing};
use vstd::arithmetic::div_mod::lemma_mod_multiples_vanish;
use vstd::prelude::*;

verus! {

/// Checks on the paths given for backup.
pub struct PathUtilities;

/// An entry of the container-volumes directory that is no volume.
pub open spec fn is_volume_store_entry(name: Seq<char>) -> bool {
    name == "backingFsBlockDev"@ || name == "metadata.db"@
}

/// The paths, among the first `n`, that exist.
pub open spec fn existing_upto(paths: Seq<String>, exists: Seq<bool>, n: int) -> Seq<Seq<char>>
    decreases n,
{
    if n <= 0 {
        Seq::empty()
    } else if exists[n - 1] {
        existing_upto(paths, exists, n - 1).push(paths[n - 1]@)
    } else {
        existing_upto(paths, exists, n - 1)
    }
}

impl PathUtilities {
    /// Whether a directory found among the container volumes is a volume.
    pub fn is_docker_volume_name(name: &str) -> (b: bool)
        ensures
            b == !is_volume_store_entry(name@),
    {
        let v = chars_of(name);
        !(equals_str(&v, "backingFsBlockDev") || equals_str(&v, "metadata.db"))
    }

    /// The paths that exist, in order; `exists[k]` tells whether `paths[k]` does.
    pub fn validate_and_filter_paths(paths: Vec<String>, exists: &Vec<bool>) -> (r: Result<
        Vec<String>,
        BackupServiceError,
    >)
        requires
            paths@.len() == exists@.len(),
        ensures
            r matches Ok(v) && v@.map_values(|s: String| s@) == existing_upto(
                paths@,
                exists@,
                paths@.len() as int,
            ),
    {
        let ghost all = paths@;
        let n = paths.len();
        let mut rest = paths;
        let mut valid: Vec<String> = Vec::new();
        let mut k: usize = 0;
        while k < n
            invariant
                n == all.len(),
                all == paths@,
                all.len() == exists@.len(),
                k <= n,
                rest@ == all.skip(k as int),
                valid@.map_values(|s: String| s@) == existing_upto(all, exists@, k as int),
            decreases n - k,
        {
            let p = rest.remove(0);
            proof {
                assert(p == all[k as int]);
                assert(rest@ =~= all.skip(k + 1));
            }
            if exists[k] {
                let ghost before = valid@;
                valid.push(p);
                proof {
                    assert(valid@.map_values(|s: String| s@) =~= before.map_values(
                        |s: String| s@,
                    ).push(all[k as int]@));
                }
            }
            k += 1;
        }
        Ok(valid)
    }
}

/// The host to restore from.
#[derive(Debug, Clone)]
pub struct HostSelection {
    pub selected_host: String,
}

/// The message given when the store holds no host.
pub open spec fn no_hosts_message() -> Seq<char> {
    "No hosts found in backup repository"@
}

/// The host chosen before any question is asked: with no host in the store,
/// an error; else the one given, if any; else `None`, to be asked.
pub fn preselect_host(available_hosts: &Vec<String>, host_opt: Option<String>) -> (r: Result<
    Option<HostSelection>,
    BackupServiceError,
>)
    ensures
        available_hosts@.len() == 0 ==> (r matches Err(BackupServiceError::ConfigurationError(m))
            && m@ == no_hosts_message()),
        available_hosts@.len() > 0 && host_opt is Some ==> (r matches Ok(Some(sel))
            && sel.selected_host@ == host_opt->Some_0@),
        available_hosts@.len() > 0 && host_opt is None ==> r matches Ok(None),
{
    if available_hosts.len() == 0 {
        return Err(
            BackupServiceError::ConfigurationError(
                String::from_str("No hosts found in backup repository"),
            ),
        );
    }
    match host_opt {
        Some(h) => Ok(Some(HostSelection { selected_host: h })),
        None => Ok(None),
    }
}

/// The index of the host to offer first: the first listed that is the current
/// host, else 0.
pub fn host_default_index(hosts: &Vec<String>, current: &str) -> (r: usize)
    ensures
        (exists|k: int| 0 <= k < hosts@.len() && hosts@[k]@ == current@) ==> {
            &&& r < hosts@.len()
            &&& hosts@[r as int]@ == current@
            &&& forall|j: int| 0 <= j < r ==> hosts@[j]@ != current@
        },
        !(exists|k: int| 0 <= k < hosts@.len() && hosts@[k]@ == current@) ==> r == 0,
{
    let cv = chars_of(current);
    let mut k: usize = 0;
    while k < hosts.len()
        invariant
            k <= hosts@.len(),
            cv@ == current@,
            forall|j: int| 0 <= j < k ==> hosts@[j]@ != current@,
        decreases hosts@.len() - k,
    {
        let hv = chars_of(hosts[k].as_str());
        if equals_str(&hv, current) {
            return k;
        }
        k += 1;
    }
    0
}

/// A repository offered for restore, with its snapshots.
#[derive(Debug, Clone)]
pub struct RepositorySelectionItem {
    pub path: String,
    pub repo_subpath: String,
    pub category: String,
    pub snapshots: Vec<SnapshotInfo>,
}

/// The indices, in order, of the items whose path is `path`.
pub fn items_with_path(items: &Vec<RepositorySelectionItem>, path: &str) -> (r: Vec<usize>)
    ensures
        forall|j: int| 0 <= j < r@.len() ==> r@[j] < items@.len() && items@[r@[j] as int].path@ == path@,
        forall|k: int| 0 <= k < items@.len() && items@[k].path@ == path@ ==> r@.contains(k as usize),
        forall|i: int, j: int| 0 <= i < j < r@.len() ==> r@[i] < r@[j],
{
    let mut out: Vec<usize> = Vec::new();
    let mut k: usize = 0;
    while k < items.len()
        invariant
            k <= items@.len(),
            forall|j: int| 0 <= j < out@.len() ==> out@[j] < k && items@[out@[j] as int].path@ == path@,
            forall|q: int| 0 <= q < k && items@[q].path@ == path@ ==> out@.contains(q as usize),
            forall|i: int, j: int| 0 <= i < j < out@.len() ==> out@[i] < out@[j],
        decreases items@.len() - k,
    {
        let pv = chars_of(items[k].path.as_str());
        if equals_str(&pv, path) {
            let ghost before = out@;
            out.push(k);
            proof {
                assert forall|q: int| 0 <= q < k + 1 && items@[q].path@ == path@ implies out@.contains(
                    q as usize,
                ) by {
                    if q < k {
                        let idx = choose|idx: int| 0 <= idx < before.len() && before[idx] == q as usize;
                        assert(out@[idx] == q as usize);
                    } else {
                        assert(out@[before.len() as int] == q as usize);
                    }
                }
            }
        } else {
            proof {
                assert forall|q: int| 0 <= q < k + 1 && items@[q].path@ == path@ implies out@.contains(
                    q as usize,
                ) by {}
            }
        }
        k += 1;
    }
    out
}

/// The message given when no repository is chosen.
pub open spec fn none_selected_message() -> Seq<char> {
    "No repositories selected"@
}

/// A choice of repositories, as indices, that must not be empty.
pub fn require_selection(chosen: Vec<usize>) -> (r: Result<Vec<usize>, BackupServiceError>)
    ensures
        chosen@.len() == 0 ==> (r matches Err(BackupServiceError::ConfigurationError(m)) && m@
            == none_selected_message()),
        chosen@.len() > 0 ==> (r matches Ok(v) && v@ == chosen@),
{
    if chosen.len() == 0 {
        Err(BackupServiceError::ConfigurationError(String::from_str("No repositories selected")))
    } else {
        Ok(chosen)
    }
}

/// The repositories chosen before any question is asked: with a path given,
/// the items with that path (an error when there is none); else `None`, to be asked.
pub fn preselect_repositories(items: &Vec<RepositorySelectionItem>, path_opt: &Option<String>) -> (r:
    Result<Option<Vec<usize>>, BackupServiceError>)
    ensures
        path_opt is None ==> r matches Ok(None),
        path_opt matches Some(p) ==> {
            let matching = exists|k: int| 0 <= k < items@.len() && items@[k].path@ == p@;
            &&& !matching ==> (r matches Err(BackupServiceError::ConfigurationError(m)) && m@
                == none_selected_message())
            &&& matching ==> (r matches Ok(Some(v)) && (forall|j: int|
                0 <= j < v@.len() ==> v@[j] < items@.len() && items@[v@[j] as int].path@ == p@)
                && (forall|k: int|
                0 <= k < items@.len() && items@[k].path@ == p@ ==> v@.contains(k as usize))
                && (forall|i: int, j: int| 0 <= i < j < v@.len() ==> v@[i] < v@[j]))
        },
{
    match path_opt {
        None => Ok(None),
        Some(p) => {
            let chosen = items_with_path(items, p.as_str());
            proof {
                if exists|k: int| 0 <= k < items@.len() && items@[k].path@ == p@ {
                    let k = choose|k: int| 0 <= k < items@.len() && items@[k].path@ == p@;
                    assert(chosen@.contains(k as usize));
                }
                if chosen@.len() > 0 {
                    assert(items@[chosen@[0] as int].path@ == p@);
                }
            }
            match require_selection(chosen) {
                Ok(v) => Ok(Some(v)),
                Err(e) => Err(e),
            }
        },
    }
}

/// The indices, in order, of the items of a category (named as in repository keys).
pub fn items_in_category(items: &Vec<RepositorySelectionItem>, category: &str) -> (r: Vec<usize>)
    ensures
        forall|j: int|
            0 <= j < r@.len() ==> r@[j] < items@.len() && items@[r@[j] as int].category@ == category@,
        forall|k: int|
            0 <= k < items@.len() && items@[k].category@ == category@ ==> r@.contains(k as usize),
        forall|i: int, j: int| 0 <= i < j < r@.len() ==> r@[i] < r@[j],
{
    let mut out: Vec<usize> = Vec::new();
    let mut k: usize = 0;
    while k < items.len()
        invariant
            k <= items@.len(),
            forall|j: int|
                0 <= j < out@.len() ==> out@[j] < k && items@[out@[j] as int].category@ == category@,
            forall|q: int| 0 <= q < k && items@[q].category@ == category@ ==> out@.contains(q as usize),
            forall|i: int, j: int| 0 <= i < j < out@.len() ==> out@[i] < out@[j],
        decreases items@.len() - k,
    {
        let cv = chars_of(items[k].category.as_str());
        if equals_str(&cv, category) {
            let ghost before = out@;
            out.push(k);
            proof {
                assert forall|q: int|
                    0 <= q < k + 1 && items@[q].category@ == category@ implies out@.contains(
                    q as usize,
                ) by {
                    if q < k {
                        let idx = choose|idx: int| 0 <= idx < before.len() && before[idx] == q as usize;
                        assert(out@[idx] == q as usize);
                    } else {
                        assert(out@[before.len() as int] == q as usize);
                    }
                }
            }
        }
        k += 1;
    }
    out
}

/// The repositories with snapshots, in order, as items offered for restore.
pub open spec fn selectable_upto(data: Seq<RepositoryData>, n: int) -> Seq<
    (Seq<char>, Seq<char>, Seq<char>, Seq<(i64, Seq<char>, Seq<char>)>),
>
    decreases n,
{
    if n <= 0 {
        Seq::empty()
    } else if data[n - 1].snapshots@.len() > 0 {
        selectable_upto(data, n - 1).push(
            (
                data[n - 1].info.native_path@,
                data[n - 1].info.repo_subpath@,
                data[n - 1].info.category@,
                snapshot_views(data[n - 1].snapshots@),
            ),
        )
    } else {
        selectable_upto(data, n - 1)
    }
}

/// An item offered for restore, as (path, key, category, snapshots).
pub open spec fn item_view(i: RepositorySelectionItem) -> (
    Seq<char>,
    Seq<char>,
    Seq<char>,
    Seq<(i64, Seq<char>, Seq<char>)>,
) {
    (i.path@, i.repo_subpath@, i.category@, snapshot_views(i.snapshots@))
}

/// The indices of a list of repositories, grouped by category, each group in order.
#[derive(Debug, Clone)]
pub struct CategoryGroups {
    pub user_home: Vec<usize>,
    pub docker_volume: Vec<usize>,
    pub system: Vec<usize>,
}

/// The indices, in order, of the repositories among the first `n` whose path
/// is of category `c`.
pub open spec fn indices_of_category(repos: Seq<BackupRepo>, c: Category, n: int) -> Seq<usize>
    decreases n,
{
    if n <= 0 {
        Seq::empty()
    } else if classify_spec(repos[n - 1].native_path@) == c {
        indices_of_category(repos, c, n - 1).push((n - 1) as usize)
    } else {
        indices_of_category(repos, c, n - 1)
    }
}

/// `s` padded with spaces on the right to `w` characters.
pub open spec fn padded(s: Seq<char>, w: nat) -> Seq<char> {
    if s.len() >= w {
        s
    } else {
        s + Seq::new((w - s.len()) as nat, |i: int| ' ')
    }
}

/// The line that shows one backed-up path.
pub open spec fn entry_line(r: BackupRepo) -> Seq<char> {
    "  "@ + padded(r.native_path@, 50) + " - "@ + decimal(r.snapshot_count as nat) + " snapshots"@
}

/// The lines that show one category's paths.
pub open spec fn section_lines(title: Seq<char>, repos: Seq<BackupRepo>, idx: Seq<usize>) -> Seq<
    Seq<char>,
> {
    seq![Seq::<char>::empty(), title + " ("@ + decimal(idx.len()) + " paths):"@] + if idx.len()
        == 0 {
        seq!["  None"@]
    } else {
        idx.map_values(|k: usize| entry_line(repos[k as int]))
    }
}

/// The summary of backed-up paths, by category.
pub open spec fn paths_summary(repos: Seq<BackupRepo>) -> Seq<Seq<char>> {
    seq![Seq::<char>::empty(), "BACKUP PATHS SUMMARY:"@, "===================="@] + section_lines(
        "User Home"@,
        repos,
        indices_of_category(repos, Category::UserHome, repos.len() as int),
    ) + section_lines(
        "Docker Volumes"@,
        repos,
        indices_of_category(repos, Category::DockerVolume, repos.len() as int),
    ) + section_lines(
        "System"@,
        repos,
        indices_of_category(repos, Category::System, repos.len() as int),
    )
}

/// The line that shows one backed-up path.
fn entry_text(r: &BackupRepo) -> (s: String)
    ensures
        s@ == entry_line(*r),
{
    let mut out = String::from_str("  ");
    out.append(r.native_path.as_str());
    let n = r.native_path.as_str().unicode_len();
    let mut i = n;
    proof {
        assert(out@ =~= "  "@ + r.native_path@ + Seq::new((i - n) as nat, |j: int| ' '));
    }
    while i < 50
        invariant
            n == r.native_path@.len(),
            n <= i,
            i <= 50 || i == n,
            out@ == "  "@ + r.native_path@ + Seq::new((i - n) as nat, |j: int| ' '),
        decreases 50 - i,
    {
        out.append(" ");
        proof {
            reveal_strlit(" ");
            assert(out@ =~= "  "@ + r.native_path@ + Seq::new((i + 1 - n) as nat, |j: int| ' '));
        }
        i += 1;
    }
    proof {
        if n >= 50 {
            assert(Seq::new((i - n) as nat, |j: int| ' ') =~= Seq::<char>::empty());
            assert(out@ =~= "  "@ + padded(r.native_path@, 50));
        } else {
            assert(out@ =~= "  "@ + padded(r.native_path@, 50));
        }
    }
    out.append(" - ");
    push_decimal(&mut out, r.snapshot_count as u128);
    out.append(" snapshots");
    out
}

/// Appends the lines that show one category's paths.
fn push_section(lines: &mut Vec<String>, title: &str, repos: &Vec<BackupRepo>, idx: &Vec<usize>)
    requires
        forall|j: int| 0 <= j < idx@.len() ==> idx@[j] < repos@.len(),
    ensures
        final(lines)@.map_values(|x: String| x@) == old(lines)@.map_values(|x: String| x@)
            + section_lines(title@, repos@, idx@),
{
    let ghost start = old(lines)@.map_values(|x: String| x@);
    lines.push(String::new());
    let mut head = String::from_str(title);
    head.append(" (");
    push_decimal(&mut head, idx.len() as u128);
    head.append(" paths):");
    lines.push(head);
    let ghost top = seq![Seq::<char>::empty(), title@ + " ("@ + decimal(idx@.len()) + " paths):"@];
    proof {
        assert(lines@.map_values(|x: String| x@) =~= start + top);
    }
    if idx.len() == 0 {
        lines.push(String::from_str("  None"));
        proof {
            assert(lines@.map_values(|x: String| x@) =~= start + section_lines(title@, repos@, idx@));
        }
        return ;
    }
    let mut j: usize = 0;
    while j < idx.len()
        invariant
            forall|q: int| 0 <= q < idx@.len() ==> idx@[q] < repos@.len(),
            j <= idx@.len(),
            lines@.map_values(|x: String| x@) == start + top + idx@.take(j as int).map_values(
                |k: usize| entry_line(repos@[k as int]),
            ),
        decreases idx@.len() - j,
    {
        let ghost before = lines@;
        lines.push(entry_text(&repos[idx[j]]));
        proof {
            assert(idx@.take(j + 1).map_values(|k: usize| entry_line(repos@[k as int])) =~= idx@.take(
                j as int,
            ).map_values(|k: usize| entry_line(repos@[k as int])).push(
                entry_line(repos@[idx@[j as int] as int]),
            ));
            assert(lines@.map_values(|x: String| x@) =~= before.map_values(|x: String| x@).push(
                entry_line(repos@[idx@[j as int] as int]),
            ));
        }
        j += 1;
    }
    proof {
        assert(idx@.take(idx@.len() as int) =~= idx@);
        assert(lines@.map_values(|x: String| x@) =~= start + section_lines(title@, repos@, idx@));
    }
}

/// Every index in `indices_of_category(repos, c, n)` is below `n`.
proof fn lemma_indices_below(repos: Seq<BackupRepo>, c: Category, n: int)
    requires
        n <= repos.len(),
        n <= usize::MAX,
    ensures
        forall|j: int|
            0 <= j < indices_of_category(repos, c, n).len() ==> indices_of_category(repos, c, n)[j]
                < n,
    decreases n,
{
    if n > 0 {
        lemma_indices_below(repos, c, n - 1);
        let prev = indices_of_category(repos, c, n - 1);
        let cur = indices_of_category(repos, c, n);
        assert forall|j: int| 0 <= j < cur.len() implies cur[j] < n by {
            if classify_spec(repos[n - 1].native_path@) == c {
                assert(cur == prev.push((n - 1) as usize));
                if j < prev.len() {
                    assert(cur[j] == prev[j]);
                }
            } else {
                assert(cur == prev);
            }
        }
    }
}

/// The start of the minute that holds instant `t` (nanoseconds since the epoch).
pub open spec fn minute_start_spec(t: int) -> int {
    t - t % 60_000_000_000
}

/// The start of the minute that holds instant `t`.
fn minute_start(t: i64) -> (r: i64)
    requires
        t >= i64::MIN + 60_000_000_000,
    ensures
        r == minute_start_spec(t as int),
{
    // Shifting by a multiple of a minute keeps the remainder and makes the
    // operand non-negative, where `%` is the floor remainder.
    let shift: i128 = 60_000_000_000 * 268435456;
    let x = ((t as i128) + shift) as u128;
    let m = (x % 60_000_000_000) as i128;
    proof {
        lemma_mod_multiples_vanish(268435456, t as int, 60_000_000_000);
    }
    ((t as i128) - m) as i64
}

/// The snapshots taken within one minute: the minute's start and the
/// snapshots' indices, in order.
#[derive(Debug, Clone)]
pub struct TimeGroup {
    pub minute: i64,
    pub snapshots: Vec<usize>,
}

/// Some snapshot was taken in the minute that begins at `m`.
pub open spec fn has_minute(s: Seq<SnapshotInfo>, m: int) -> bool {
    exists|k: int| 0 <= k < s.len() && minute_start_spec(s[k].time as int) == m
}

/// Some group is that of the minute that begins at `m`.
pub open spec fn has_group(g: Seq<TimeGroup>, m: int) -> bool {
    exists|i: int| 0 <= i < g.len() && g[i].minute == m
}

/// `v` lists, in increasing order, exactly the snapshots taken in the minute
/// that begins at `m`.
pub open spec fn lists_minute(s: Seq<SnapshotInfo>, m: int, v: Seq<usize>) -> bool {
    &&& forall|j: int| 0 <= j < v.len() ==> v[j] < s.len() && minute_start_spec(s[v[j] as int].time as int) == m
    &&& forall|k: int| 0 <= k < s.len() && minute_start_spec(s[k].time as int) == m ==> v.contains(k as usize)
    &&& forall|i: int, j: int| 0 <= i < j < v.len() ==> v[i] < v[j]
}

/// The indices, in order, of the snapshots taken in the minute that begins at `m`.
fn in_minute(snapshots: &Vec<SnapshotInfo>, m: i64) -> (r: Vec<usize>)
    requires
        forall|k: int| 0 <= k < snapshots@.len() ==> snapshots@[k].time >= i64::MIN + 60_000_000_000,
    ensures
        lists_minute(snapshots@, m as int, r@),
{
    let mut out: Vec<usize> = Vec::new();
    let mut k: usize = 0;
    while k < snapshots.len()
        invariant
            k <= snapshots@.len(),
            forall|q: int| 0 <= q < snapshots@.len() ==> snapshots@[q].time >= i64::MIN + 60_000_000_000,
            forall|j: int| 0 <= j < out@.len() ==> out@[j] < k && minute_start_spec(
                snapshots@[out@[j] as int].time as int,
            ) == m,
            forall|q: int| 0 <= q < k && minute_start_spec(snapshots@[q].time as int) == m ==> out@.contains(q as usize),
            forall|i: int, j: int| 0 <= i < j < out@.len() ==> out@[i] < out@[j],
        decreases snapshots@.len() - k,
    {
        if minute_start(snapshots[k].time) == m {
            let ghost before = out@;
            out.push(k);
            proof {
                assert forall|q: int| 0 <= q < k + 1 && minute_start_spec(snapshots@[q].time as int) == m implies out@.contains(
                    q as usize,
                ) by {
                    if q < k {
                        let idx = choose|idx: int| 0 <= idx < before.len() && before[idx] == q as usize;
                        assert(out@[idx] == q as usize);
                    } else {
                        assert(out@[before.len() as int] == q as usize);
                    }
                }
            }
        }
        k += 1;
    }
    out
}

/// Summaries of backed-up paths for display.
pub struct DisplayFormatter;

impl DisplayFormatter {
    /// The snapshots grouped by the minute they were taken in, newest minute
    /// first; each group lists its snapshots in order.
    pub fn group_snapshots_by_time(snapshots: &Vec<SnapshotInfo>) -> (r: Result<
        Vec<TimeGroup>,
        BackupServiceError,
    >)
        requires
            forall|k: int| 0 <= k < snapshots@.len() ==> snapshots@[k].time >= i64::MIN + 60_000_000_000,
        ensures
            r is Ok,
            r matches Ok(g) ==> forall|i: int, j: int|
                0 <= i < j < g@.len() ==> g@[i].minute > g@[j].minute,
            r matches Ok(g) ==> forall|m: i64|
                has_group(g@, m as int) <==> has_minute(snapshots@, m as int),
            r matches Ok(g) ==> forall|i: int|
                0 <= i < g@.len() ==> lists_minute(snapshots@, g@[i].minute as int, g@[i].snapshots@),
    {
        let mut keys: Vec<i64> = Vec::new();
        let mut k: usize = 0;
        while k < snapshots.len()
            invariant
                k <= snapshots@.len(),
                forall|q: int| 0 <= q < snapshots@.len() ==> snapshots@[q].time >= i64::MIN + 60_000_000_000,
                strictly_decreasing(keys@),
                forall|x: i64| keys@.contains(x) <==> has_minute(snapshots@.take(k as int), x as int),
            decreases snapshots@.len() - k,
        {
            let m = minute_start(snapshots[k].time);
            insert_desc(&mut keys, m);
            proof {
                let next = snapshots@.take(k + 1);
                let prev = snapshots@.take(k as int);
                assert forall|x: i64| keys@.contains(x) <==> has_minute(next, x as int) by {
                    if has_minute(prev, x as int) {
                        let q = choose|q: int| 0 <= q < prev.len() && minute_start_spec(prev[q].time as int) == x;
                        assert(next[q] == prev[q]);
                    }
                    if x == m {
                        assert(next[k as int] == snapshots@[k as int]);
                    }
                    if has_minute(next, x as int) {
                        let q = choose|q: int| 0 <= q < next.len() && minute_start_spec(next[q].time as int) == x;
                        if q < k {
                            assert(prev[q] == next[q]);
                        }
                    }
                }
            }
            k += 1;
        }
        proof {
            assert(snapshots@.take(snapshots@.len() as int) =~= snapshots@);
        }
        let mut groups: Vec<TimeGroup> = Vec::new();
        let mut i: usize = 0;
        while i < keys.len()
            invariant
                i <= keys@.len(),
                forall|q: int| 0 <= q < snapshots@.len() ==> snapshots@[q].time >= i64::MIN + 60_000_000_000,
                groups@.len() == i,
                strictly_decreasing(keys@),
                forall|x: i64| keys@.contains(x) <==> has_minute(snapshots@, x as int),
                forall|j: int| 0 <= j < i ==> groups@[j].minute == keys@[j] && lists_minute(
                    snapshots@,
                    keys@[j] as int,
                    groups@[j].snapshots@,
                ),
            decreases keys@.len() - i,
        {
            let m = keys[i];
            groups.push(TimeGroup { minute: m, snapshots: in_minute(snapshots, m) });
            i += 1;
        }
        proof {
            assert forall|a: int, b: int| 0 <= a < b < groups@.len() implies groups@[a].minute
                > groups@[b].minute by {
                assert(keys@[a] > keys@[b]);
            }
            assert forall|a: int| 0 <= a < groups@.len() implies lists_minute(
                snapshots@,
                groups@[a].minute as int,
                groups@[a].snapshots@,
            ) by {
                assert(groups@[a].minute == keys@[a]);
            }
            assert forall|m: i64| has_group(groups@, m as int) <==> has_minute(snapshots@, m as int) by {
                if has_group(groups@, m as int) {
                    let i = choose|i: int| 0 <= i < groups@.len() && groups@[i].minute == m;
                    assert(keys@[i] == m);
                    assert(keys@.contains(m));
                }
                if has_minute(snapshots@, m as int) {
                    assert(keys@.contains(m));
                    let i = choose|i: int| 0 <= i < keys@.len() && keys@[i] == m;
                    assert(groups@[i].minute == m);
                }
            }
        }
        Ok(groups)
    }

    /// The repositories grouped by the category of their paths, each group in order.
    pub fn group_repos_by_category(repos: &Vec<BackupRepo>) -> (r: Result<
        CategoryGroups,
        BackupServiceError,
    >)
        ensures
            r matches Ok(g) && g.user_home@ == indices_of_category(
                repos@,
                Category::UserHome,
                repos@.len() as int,
            ) && g.docker_volume@ == indices_of_category(
                repos@,
                Category::DockerVolume,
                repos@.len() as int,
            ) && g.system@ == indices_of_category(repos@, Category::System, repos@.len() as int),
    {
        let mut g = CategoryGroups { user_home: Vec::new(), docker_volume: Vec::new(), system: Vec::new() };
        let mut k: usize = 0;
        while k < repos.len()
            invariant
                k <= repos@.len(),
                g.user_home@ == indices_of_category(repos@, Category::UserHome, k as int),
                g.docker_volume@ == indices_of_category(repos@, Category::DockerVolume, k as int),
                g.system@ == indices_of_category(repos@, Category::System, k as int),
            decreases repos@.len() - k,
        {
            match classify(repos[k].native_path.as_str()) {
                Category::UserHome => g.user_home.push(k),
                Category::DockerVolume => g.docker_volume.push(k),
                Category::System => g.system.push(k),
            }
            k += 1;
        }
        Ok(g)
    }

    /// The lines of the summary of backed-up paths: each category with its
    /// number of paths, then each path with its number of snapshots.
    pub fn display_backup_paths_summary(repos: &Vec<BackupRepo>) -> (r: Result<
        Vec<String>,
        BackupServiceError,
    >)
        ensures
            r matches Ok(v) && v@.map_values(|x: String| x@) == paths_summary(repos@),
    {
        let groups = Self::group_repos_by_category(repos)?;
        let count = repos.len();
        proof {
            lemma_indices_below(repos@, Category::UserHome, repos@.len() as int);
            lemma_indices_below(repos@, Category::DockerVolume, repos@.len() as int);
            lemma_indices_below(repos@, Category::System, repos@.len() as int);
        }
        let mut lines: Vec<String> = Vec::new();
        lines.push(String::new());
        lines.push(String::from_str("BACKUP PATHS SUMMARY:"));
        lines.push(String::from_str("===================="));
        proof {
            assert(lines@.map_values(|x: String| x@) =~= seq![
                Seq::<char>::empty(),
                "BACKUP PATHS SUMMARY:"@,
                "===================="@,
            ]);
        }
        push_section(&mut lines, "User Home", repos, &groups.user_home);
        push_section(&mut lines, "Docker Volumes", repos, &groups.docker_volume);
        push_section(&mut lines, "System", repos, &groups.system);
        proof {
            assert(lines@.map_values(|x: String| x@) =~= paths_summary(repos@));
        }
        Ok(lines)
    }
}

} // verus!
