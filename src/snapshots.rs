use crate::config::Config;
use crate::discovery::{RepoView, RepositoryInfo};
use crate::errors::{is_fatal_spec, BackupServiceError};
use vstd::prelude::*;

verus! {

/// One snapshot of a repository: its short id, when it was taken
/// (nanoseconds since the Unix epoch, UTC) and the native path it holds.
#[derive(Debug, Clone, PartialEq)]
pub struct SnapshotInfo {
    pub time: i64,
    pub path: String,
    pub id: String,
}

impl View for SnapshotInfo {
    type V = (i64, Seq<char>, Seq<char>);

    open spec fn view(&self) -> (i64, Seq<char>, Seq<char>) {
        (self.time, self.path@, self.id@)
    }
}

/// The string values that `serde_json` reads at keys `first` and `second` of each
/// element of the JSON array in `text` (no elements when `text` is no JSON array).
pub uninterp spec fn json_string_fields_of(text: Seq<char>, first: Seq<char>, second: Seq<char>) -> Seq<
    (Option<Seq<char>>, Option<Seq<char>>),
>;

/// Relies on `serde_json::from_str` reading `text` as an array of values (an
/// error, taken as no elements, when it is not one), and on indexing a value by
/// key, which gives `Null` for a missing key, with `Value::as_str`, which gives
/// the string held or nothing.
#[verifier::external_body]
fn json_string_fields(text: &str, first: &str, second: &str) -> (r: Vec<(Option<String>, Option<String>)>)
    ensures
        r.deep_view() == json_string_fields_of(text@, first@, second@),
{
    let values: Vec<serde_json::Value> = serde_json::from_str(text).unwrap_or_default();
    values.iter().map(
        |v| (v[first].as_str().map(|s| s.to_string()), v[second].as_str().map(|s| s.to_string())),
    ).collect()
}

/// The unsigned integer that `serde_json` reads at key `key` of the JSON
/// object in `text`; `None` when `text` is no JSON value or holds no such integer there.
pub uninterp spec fn json_u64_field_of(text: Seq<char>, key: Seq<char>) -> Option<u64>;

/// Relies on `serde_json::from_str` reading `text` as a value (an error, taken
/// as no value), on indexing by key, which gives `Null` for a missing key, and
/// on `Value::as_u64`, which gives the unsigned integer held or nothing.
#[verifier::external_body]
pub(crate) fn json_u64_field(text: &str, key: &str) -> (r: Option<u64>)
    ensures
        r == json_u64_field_of(text@, key@),
{
    let value: serde_json::Value = serde_json::from_str(text).unwrap_or_default();
    value[key].as_u64()
}

/// The instant that `chrono` reads in a text, in nanoseconds since the Unix
/// epoch, UTC; `None` when the text names no instant, or one that 64 bits of
/// nanoseconds cannot hold.
pub uninterp spec fn utc_nanos_of(text: Seq<char>) -> Option<i64>;

/// Relies on `chrono`'s `FromStr` for `DateTime<Utc>` and on
/// `DateTime::timestamp_nanos_opt`: the instant named by the text, in
/// nanoseconds, or nothing when it is out of the range of `i64`.
#[verifier::external_body]
fn parse_utc_nanos(text: &str) -> (r: Option<i64>)
    ensures
        r == utc_nanos_of(text@),
{
    text.parse::<chrono::DateTime<chrono::Utc>>().ok().and_then(|t| t.timestamp_nanos_opt())
}

/// The message given for a text that names no instant.
pub open spec fn bad_time_message(text: Seq<char>) -> Seq<char> {
    "Cannot read a UTC instant from: "@ + text
}

/// The instant (nanoseconds since the Unix epoch) named by a restore time
/// given by the user, e.g. `2025-01-15T10:30:00Z`.
pub fn parse_restore_time(text: &str) -> (r: Result<i64, BackupServiceError>)
    ensures
        match utc_nanos_of(text@) {
            Some(t) => r == Ok::<i64, BackupServiceError>(t),
            None => r matches Err(BackupServiceError::ConfigurationError(m)) && m@
                == bad_time_message(text@),
        },
{
    match parse_utc_nanos(text) {
        Some(t) => Ok(t),
        None => Err(
            BackupServiceError::ConfigurationError(
                String::from_str("Cannot read a UTC instant from: ").concat(text),
            ),
        ),
    }
}

/// The snapshots among records of (time, short id) of a repository at `path`:
/// the records with both, in order.
pub open spec fn readable_records(recs: Seq<(Option<i64>, Option<Seq<char>>)>, path: Seq<char>) -> Seq<
    (i64, Seq<char>, Seq<char>),
>
    decreases recs.len(),
{
    if recs.len() == 0 {
        Seq::empty()
    } else {
        let prev = readable_records(recs.drop_last(), path);
        match recs.last() {
            (Some(t), Some(id)) => prev.push((t, path, id)),
            _ => prev,
        }
    }
}

/// The views of a list of snapshots.
pub open spec fn snapshot_views(v: Seq<SnapshotInfo>) -> Seq<(i64, Seq<char>, Seq<char>)> {
    v.map_values(|x: SnapshotInfo| x@)
}

/// The snapshots of a repository at `native_path`, from its records of
/// (time, short id): records that lack either are dropped.
pub fn snapshots_from_records(records: &Vec<(Option<i64>, Option<String>)>, native_path: &str) -> (r:
    Vec<SnapshotInfo>)
    ensures
        snapshot_views(r@) == readable_records(records.deep_view(), native_path@),
{
    let mut out: Vec<SnapshotInfo> = Vec::new();
    let mut k: usize = 0;
    while k < records.len()
        invariant
            k <= records@.len(),
            snapshot_views(out@) == readable_records(records.deep_view().take(k as int), native_path@),
        decreases records@.len() - k,
    {
        proof {
            assert(records.deep_view().take(k + 1).drop_last() =~= records.deep_view().take(k as int));
            assert(records.deep_view().take(k + 1).last() == records.deep_view()[k as int]);
        }
        match &records[k] {
            (Some(t), Some(id)) => {
                let ghost before = out@;
                out.push(SnapshotInfo { time: *t, path: String::from_str(native_path), id: id.clone() });
                proof {
                    assert(snapshot_views(out@) =~= snapshot_views(before).push(out@.last()@));
                }
            },
            _ => {},
        }
        k += 1;
    }
    proof {
        assert(records.deep_view().take(records@.len() as int) =~= records.deep_view());
    }
    out
}

/// The records of (time, short id) read from restic's `snapshots --json` output.
pub open spec fn timed_records(text: Seq<char>) -> Seq<(Option<i64>, Option<Seq<char>>)> {
    json_string_fields_of(text, "time"@, "short_id"@).map_values(
        |f: (Option<Seq<char>>, Option<Seq<char>>)|
            (
                match f.0 {
                    Some(t) => utc_nanos_of(t),
                    None => None,
                },
                f.1,
            ),
    )
}

/// How many records restic's `snapshots --json` output lists, and the
/// snapshots of the repository at `native_path` that can be read from them;
/// records with no readable time or no short id are dropped.
pub fn read_snapshot_records(output: &str, native_path: &str) -> (r: (usize, Vec<SnapshotInfo>))
    ensures
        r.0 == json_string_fields_of(output@, "time"@, "short_id"@).len(),
        snapshot_views(r.1@) == readable_records(timed_records(output@), native_path@),
{
    let fields = json_string_fields(output, "time", "short_id");
    let mut records: Vec<(Option<i64>, Option<String>)> = Vec::new();
    let mut k: usize = 0;
    while k < fields.len()
        invariant
            k <= fields@.len(),
            records.deep_view() == timed_records(output@).take(k as int),
            fields.deep_view() == json_string_fields_of(output@, "time"@, "short_id"@),
        decreases fields@.len() - k,
    {
        let time = match &fields[k].0 {
            Some(t) => parse_utc_nanos(t.as_str()),
            None => None,
        };
        let id = match &fields[k].1 {
            Some(i) => Some(i.clone()),
            None => None,
        };
        let ghost before = records.deep_view();
        records.push((time, id));
        proof {
            assert(records.deep_view() =~= before.push(records.deep_view().last()));
            assert(timed_records(output@).take(k + 1) =~= timed_records(output@).take(k as int).push(
                timed_records(output@)[k as int],
            ));
        }
        k += 1;
    }
    proof {
        assert(timed_records(output@).take(fields@.len() as int) =~= timed_records(output@));
    }
    let count = fields.len();
    (count, snapshots_from_records(&records, native_path))
}

/// A repository together with its snapshots.
#[derive(Debug, Clone)]
pub struct RepositoryData {
    pub info: RepositoryInfo,
    pub snapshots: Vec<SnapshotInfo>,
    pub snapshot_count: usize,
}

/// What was learnt of one repository's snapshots: how many records the engine
/// listed, and those of them that could be read.
pub type SnapshotOutcome = Result<(usize, Vec<SnapshotInfo>), BackupServiceError>;

/// A repository with its snapshots, as (repository, record count, snapshots).
pub open spec fn data_view(d: RepositoryData) -> (RepoView, usize, Seq<SnapshotInfo>) {
    (d.info@, d.snapshot_count, d.snapshots@)
}

/// The repositories, among the first `n`, that are kept: those whose lookup
/// succeeded with at least one snapshot record.
pub open spec fn kept_upto(
    infos: Seq<RepositoryInfo>,
    outcomes: Seq<SnapshotOutcome>,
    n: int,
) -> Seq<(RepoView, usize, Seq<SnapshotInfo>)>
    decreases n,
{
    if n <= 0 {
        Seq::empty()
    } else {
        let prev = kept_upto(infos, outcomes, n - 1);
        match outcomes[n - 1] {
            Ok((c, s)) => if c > 0 {
                prev.push((infos[n - 1]@, c, s@))
            } else {
                prev
            },
            Err(_) => prev,
        }
    }
}

/// The lookup failed in a way that must stop the whole operation.
pub open spec fn fatal_outcome(o: SnapshotOutcome) -> bool {
    match o {
        Ok(_) => false,
        Err(e) => is_fatal_spec(e),
    }
}

/// The lookup of some repository failed fatally.
pub open spec fn any_fatal(outcomes: Seq<SnapshotOutcome>) -> bool {
    exists|k: int| 0 <= k < outcomes.len() && fatal_outcome(outcomes[k])
}

/// The lookup at `k` is the first that failed fatally.
pub open spec fn first_fatal_at(outcomes: Seq<SnapshotOutcome>, k: int) -> bool {
    &&& 0 <= k < outcomes.len()
    &&& fatal_outcome(outcomes[k])
    &&& forall|j: int| 0 <= j < k ==> !fatal_outcome(outcomes[j])
}

/// Gathers the snapshot lookups of the repositories of a host, one outcome per
/// repository in the same order. A fatal failure of any lookup aborts the whole
/// operation with the first such failure; any other failure drops that
/// repository, as does a lookup that found no snapshot.
pub fn collect_repository_data(
    infos: Vec<RepositoryInfo>,
    outcomes: Vec<SnapshotOutcome>,
) -> (r: Result<Vec<RepositoryData>, BackupServiceError>)
    requires
        infos@.len() == outcomes@.len(),
    ensures
        any_fatal(outcomes@) ==> exists|k: int|
            first_fatal_at(outcomes@, k) && r == Err::<Vec<RepositoryData>, _>(outcomes@[k]->Err_0),
        !any_fatal(outcomes@) ==> (r matches Ok(v) && v@.map_values(|d: RepositoryData| data_view(d))
            == kept_upto(infos@, outcomes@, infos@.len() as int)),
{
    let ghost all_infos = infos@;
    let ghost all_outcomes = outcomes@;
    let n = infos.len();
    let mut rest_infos = infos;
    let mut rest_outcomes = outcomes;
    let mut kept: Vec<RepositoryData> = Vec::new();
    let mut k: usize = 0;
    while k < n
        invariant
            n == all_infos.len(),
            all_infos == infos@,
            all_outcomes == outcomes@,
            all_infos.len() == all_outcomes.len(),
            k <= n,
            rest_infos@ == all_infos.skip(k as int),
            rest_outcomes@ == all_outcomes.skip(k as int),
            forall|j: int| 0 <= j < k ==> !fatal_outcome(all_outcomes[j]),
            kept@.map_values(|d: RepositoryData| data_view(d)) == kept_upto(
                all_infos,
                all_outcomes,
                k as int,
            ),
        decreases n - k,
    {
        let info = rest_infos.remove(0);
        let outcome = rest_outcomes.remove(0);
        proof {
            assert(info == all_infos[k as int]);
            assert(outcome == all_outcomes[k as int]);
            assert(rest_infos@ =~= all_infos.skip(k + 1));
            assert(rest_outcomes@ =~= all_outcomes.skip(k + 1));
        }
        match outcome {
            Err(e) => {
                if e.is_fatal() {
                    proof {
                        assert(fatal_outcome(all_outcomes[k as int]));
                        assert(first_fatal_at(all_outcomes, k as int));
                        assert(any_fatal(all_outcomes));
                        assert(all_outcomes[k as int]->Err_0 == e);
                    }
                    return Err(e);
                }
            },
            Ok((count, snapshots)) => {
                if count > 0 {
                    let ghost prev = kept@;
                    kept.push(RepositoryData { info, snapshots, snapshot_count: count });
                    proof {
                        assert(kept@.map_values(|d: RepositoryData| data_view(d)) =~= prev.map_values(
                            |d: RepositoryData| data_view(d),
                        ).push(data_view(kept@.last())));
                    }
                }
            },
        }
        k += 1;
    }
    proof {
        assert(!any_fatal(all_outcomes));
    }
    Ok(kept)
}

/// Reads the snapshot records of repositories.
#[derive(Debug, Clone)]
pub struct SnapshotCollector {
    config: Config,
}

impl SnapshotCollector {
    /// The collector's settings.
    pub closed spec fn config_view(&self) -> Config {
        self.config
    }

    /// A collector working with `config`.
    pub fn new(config: Config) -> (r: Result<Self, BackupServiceError>)
        ensures
            r matches Ok(s) && s.config_view() == config,
    {
        Ok(SnapshotCollector { config })
    }

    /// The collector's settings.
    pub fn config(&self) -> (r: &Config)
        ensures
            *r == self.config_view(),
    {
        &self.config
    }
}

} // verus!
