use crate::snapshots::SnapshotInfo;
use vstd::arithmetic::div_mod::lemma_mod_multiples_vanish;
use vstd::prelude::*;

verus! {

/// The length of a time window (five minutes), in nanoseconds.
pub const WINDOW_NANOS: i64 = 300_000_000_000;

/// The start of the window that holds instant `t` (nanoseconds since the epoch).
pub open spec fn window_start_spec(t: int) -> int {
    t - t % 300_000_000_000
}

/// Instant `t` lies in the window that begins at `start`.
pub open spec fn in_window(t: int, start: int) -> bool {
    start <= t < start + 300_000_000_000
}

/// The start of the window that holds instant `t`: `t` floored to a multiple
/// of five minutes.
pub fn window_start(t: i64) -> (r: i64)
    requires
        t >= i64::MIN + 300_000_000_000,
    ensures
        r == window_start_spec(t as int),
{
    // Shifting by a multiple of the window keeps the remainder and makes the
    // operand non-negative, where `%` is the floor remainder.
    let shift: i128 = 300_000_000_000 * 67108864;
    let x = ((t as i128) + shift) as u128;
    let m = (x % 300_000_000_000) as i128;
    let r = (t as i128) - m;
    proof {
        lemma_mod_multiples_vanish(67108864, t as int, 300_000_000_000);
    }
    r as i64
}

/// Every instant lies in its own window, and windows begin on multiples of five minutes.
pub proof fn lemma_window_holds_instant(t: int)
    ensures
        in_window(t, window_start_spec(t)),
        window_start_spec(t) % 300_000_000_000 == 0,
{
}

/// The windows of the instants in `ts`.
pub open spec fn has_window_of(ts: Seq<i64>, w: int) -> bool {
    exists|k: int| 0 <= k < ts.len() && window_start_spec(ts[k] as int) == w
}

/// `r` is strictly decreasing: newest first, no repeats.
pub open spec fn strictly_decreasing(r: Seq<i64>) -> bool {
    forall|i: int, j: int| 0 <= i < j < r.len() ==> r[i] > r[j]
}

/// Puts `w` into a strictly decreasing list, unless it is there already.
pub fn insert_desc(out: &mut Vec<i64>, w: i64)
    requires
        strictly_decreasing(old(out)@),
    ensures
        strictly_decreasing(final(out)@),
        forall|x: i64| final(out)@.contains(x) <==> (old(out)@.contains(x) || x == w),
{
    let mut pos: usize = 0;
    while pos < out.len() && out[pos] > w
        invariant
            pos <= out@.len(),
            forall|q: int| 0 <= q < pos ==> out@[q] > w,
        decreases out@.len() - pos,
    {
        pos += 1;
    }
    let ghost before = out@;
    if pos < out.len() && out[pos] == w {
        return ;
    }
    out.insert(pos, w);
    proof {
        assert(out@.len() == before.len() + 1);
        assert(out@[pos as int] == w);
        assert forall|q: int| 0 <= q < pos implies out@[q] == before[q] by {}
        assert forall|q: int| pos < q < out@.len() implies out@[q] == before[q - 1] by {}
        assert forall|i: int, j: int| 0 <= i < j < out@.len() implies out@[i] > out@[j] by {
            if j <= pos {
            } else if i < pos {
                if pos < before.len() {
                    assert(before[pos as int] < w);
                    if j - 1 > pos {
                        assert(before[pos as int] > before[j - 1]);
                    }
                }
            } else if i == pos {
                assert(before[pos as int] < w);
                if j - 1 > pos {
                    assert(before[pos as int] > before[j - 1]);
                }
            } else {
                assert(out@[i] == before[i - 1]);
            }
        }
        assert forall|x: i64| out@.contains(x) <==> (before.contains(x) || x == w) by {
            if out@.contains(x) && x != w {
                let idx = choose|idx: int| 0 <= idx < out@.len() && out@[idx] == x;
                if idx < pos {
                    assert(before[idx] == x);
                } else {
                    assert(before[idx - 1] == x);
                }
            }
            if before.contains(x) {
                let idx = choose|idx: int| 0 <= idx < before.len() && before[idx] == x;
                if idx < pos {
                    assert(out@[idx] == x);
                } else {
                    assert(out@[idx + 1] == x);
                }
            }
            if x == w {
                assert(out@[pos as int] == w);
            }
        }
    }
}

/// The distinct windows of a list of instants, newest first.
pub fn bucket(timestamps: &Vec<i64>) -> (r: Vec<i64>)
    requires
        forall|k: int| 0 <= k < timestamps@.len() ==> timestamps@[k] >= i64::MIN + 300_000_000_000,
    ensures
        strictly_decreasing(r@),
        forall|w: i64| r@.contains(w) <==> has_window_of(timestamps@, w as int),
{
    let mut out: Vec<i64> = Vec::new();
    let mut k: usize = 0;
    while k < timestamps.len()
        invariant
            k <= timestamps@.len(),
            forall|q: int| 0 <= q < timestamps@.len() ==> timestamps@[q] >= i64::MIN + 300_000_000_000,
            strictly_decreasing(out@),
            forall|w: i64| out@.contains(w) <==> has_window_of(timestamps@.take(k as int), w as int),
        decreases timestamps@.len() - k,
    {
        let w = window_start(timestamps[k]);
        let ghost before = out@;
        insert_desc(&mut out, w);
        proof {
            let ts_next = timestamps@.take(k + 1);
            let ts_prev = timestamps@.take(k as int);
            assert forall|x: i64| out@.contains(x) <==> has_window_of(ts_next, x as int) by {
                if has_window_of(ts_prev, x as int) {
                    let q = choose|q: int|
                        0 <= q < ts_prev.len() && window_start_spec(ts_prev[q] as int) == x;
                    assert(ts_next[q] == ts_prev[q]);
                }
                if x == w {
                    assert(ts_next[k as int] == timestamps@[k as int]);
                }
                if has_window_of(ts_next, x as int) {
                    let q = choose|q: int|
                        0 <= q < ts_next.len() && window_start_spec(ts_next[q] as int) == x;
                    if q < k {
                        assert(ts_prev[q] == ts_next[q]);
                    }
                }
            }
        }
        k += 1;
    }
    proof {
        assert(timestamps@.take(timestamps@.len() as int) =~= timestamps@);
    }
    out
}

/// The distinct instants of a list, newest first.
pub fn distinct_times(timestamps: &Vec<i64>) -> (r: Vec<i64>)
    ensures
        strictly_decreasing(r@),
        forall|t: i64| r@.contains(t) <==> timestamps@.contains(t),
{
    let mut out: Vec<i64> = Vec::new();
    let mut k: usize = 0;
    while k < timestamps.len()
        invariant
            k <= timestamps@.len(),
            strictly_decreasing(out@),
            forall|t: i64| out@.contains(t) <==> timestamps@.take(k as int).contains(t),
        decreases timestamps@.len() - k,
    {
        insert_desc(&mut out, timestamps[k]);
        proof {
            let next = timestamps@.take(k + 1);
            let prev = timestamps@.take(k as int);
            assert(next =~= prev.push(timestamps@[k as int]));
            assert forall|t: i64| out@.contains(t) <==> next.contains(t) by {
                if prev.contains(t) {
                    let q = choose|q: int| 0 <= q < prev.len() && prev[q] == t;
                    assert(next[q] == t);
                }
                if t == timestamps@[k as int] {
                    assert(next[k as int] == t);
                }
                if next.contains(t) {
                    let q = choose|q: int| 0 <= q < next.len() && next[q] == t;
                    if q < k {
                        assert(prev[q] == t);
                    }
                }
            }
        }
        k += 1;
    }
    proof {
        assert(timestamps@.take(timestamps@.len() as int) =~= timestamps@);
    }
    out
}

/// How many distinct instants of `ts` lie in the window that begins at
/// `start`: each instant is counted where it first occurs.
pub open spec fn distinct_in_window(ts: Seq<i64>, start: int) -> nat
    decreases ts.len(),
{
    if ts.len() == 0 {
        0
    } else {
        distinct_in_window(ts.drop_last(), start) + if in_window(ts.last() as int, start)
            && !ts.drop_last().contains(ts.last()) {
            1nat
        } else {
            0nat
        }
    }
}

/// How many distinct instants of `timestamps` lie in the window that begins at `start`.
pub fn distinct_window_count(timestamps: &Vec<i64>, start: i64) -> (r: usize)
    ensures
        r == distinct_in_window(timestamps@, start as int),
{
    let mut n: usize = 0;
    let mut k: usize = 0;
    while k < timestamps.len()
        invariant
            k <= timestamps@.len(),
            n <= k,
            n == distinct_in_window(timestamps@.take(k as int), start as int),
        decreases timestamps@.len() - k,
    {
        let t = timestamps[k];
        let mut seen = false;
        let mut j: usize = 0;
        while j < k
            invariant
                j <= k < timestamps@.len(),
                t == timestamps@[k as int],
                seen == exists|q: int| 0 <= q < j && timestamps@[q] == t,
            decreases k - j,
        {
            if timestamps[j] == t {
                seen = true;
            }
            j += 1;
        }
        proof {
            let prev = timestamps@.take(k as int);
            assert(timestamps@.take(k + 1).drop_last() =~= prev);
            assert(timestamps@.take(k + 1).last() == t);
            if seen {
                let q = choose|q: int| 0 <= q < k && timestamps@[q] == t;
                assert(prev[q] == t);
            }
            if prev.contains(t) {
                let q = choose|q: int| 0 <= q < prev.len() && prev[q] == t;
                assert(timestamps@[q] == t);
            }
        }
        let ti = t as i128;
        if !seen && (start as i128) <= ti && ti < (start as i128) + 300_000_000_000 {
            n += 1;
        }
        k += 1;
    }
    proof {
        assert(timestamps@.take(timestamps@.len() as int) =~= timestamps@);
    }
    n
}

/// The message given when the chosen repositories have no snapshot.
pub open spec fn no_snapshots_message() -> Seq<char> {
    "No snapshots found for selected repositories"@
}

/// The windows offered for a restore, newest first, of the instants of the
/// chosen repositories' snapshots; an error when there is none.
pub fn restore_windows(timestamps: &Vec<i64>) -> (r: Result<Vec<i64>, crate::errors::BackupServiceError>)
    requires
        forall|k: int| 0 <= k < timestamps@.len() ==> timestamps@[k] >= i64::MIN + 300_000_000_000,
    ensures
        timestamps@.len() == 0 ==> (r matches Err(
            crate::errors::BackupServiceError::ConfigurationError(m),
        ) && m@ == no_snapshots_message()),
        timestamps@.len() > 0 ==> (r matches Ok(w) && strictly_decreasing(w@) && forall|x: i64|
            w@.contains(x) <==> has_window_of(timestamps@, x as int)),
{
    if timestamps.len() == 0 {
        return Err(
            crate::errors::BackupServiceError::ConfigurationError(
                String::from_str("No snapshots found for selected repositories"),
            ),
        );
    }
    Ok(bucket(timestamps))
}

/// How many of `ts` lie in the window that begins at `start`.
pub open spec fn count_in_window(ts: Seq<i64>, start: int) -> nat
    decreases ts.len(),
{
    if ts.len() == 0 {
        0
    } else {
        count_in_window(ts.drop_last(), start) + if in_window(ts.last() as int, start) {
            1nat
        } else {
            0nat
        }
    }
}

/// How many of `timestamps` lie in the window that begins at `start`.
pub fn window_count(timestamps: &Vec<i64>, start: i64) -> (r: usize)
    ensures
        r == count_in_window(timestamps@, start as int),
{
    let mut n: usize = 0;
    let mut k: usize = 0;
    while k < timestamps.len()
        invariant
            k <= timestamps@.len(),
            n <= k,
            n == count_in_window(timestamps@.take(k as int), start as int),
        decreases timestamps@.len() - k,
    {
        proof {
            assert(timestamps@.take(k + 1).drop_last() =~= timestamps@.take(k as int));
        }
        let t = timestamps[k] as i128;
        if (start as i128) <= t && t < (start as i128) + 300_000_000_000 {
            n += 1;
        }
        k += 1;
    }
    proof {
        assert(timestamps@.take(timestamps@.len() as int) =~= timestamps@);
    }
    n
}

/// Snapshot `i` is the latest among those for which `ok` holds; of equally
/// late ones it is the last in the list.
pub open spec fn latest_where(s: Seq<SnapshotInfo>, i: int, ok: spec_fn(i64) -> bool) -> bool {
    &&& 0 <= i < s.len()
    &&& ok(s[i].time)
    &&& forall|j: int| 0 <= j < s.len() && ok(s[j].time) ==> s[j].time <= s[i].time
    &&& forall|j: int| i < j < s.len() && ok(s[j].time) ==> s[j].time < s[i].time
}

/// The instant lies in the five minutes that begin at `target`.
pub open spec fn within(target: i64) -> spec_fn(i64) -> bool {
    |t: i64| in_window(t as int, target as int)
}

/// The instant lies before `target`.
pub open spec fn before(target: i64) -> spec_fn(i64) -> bool {
    |t: i64| t < target
}

/// Some snapshot satisfies `ok`.
pub open spec fn any_where(s: Seq<SnapshotInfo>, ok: spec_fn(i64) -> bool) -> bool {
    exists|j: int| 0 <= j < s.len() && ok(s[j].time)
}

/// The latest snapshot whose time satisfies `ok`, as an index.
fn latest_index(snapshots: &Vec<SnapshotInfo>, target: i64, in_win: bool) -> (r: Option<usize>)
    ensures
        ({
            let ok = if in_win {
                within(target)
            } else {
                before(target)
            };
            &&& r matches Some(i) ==> latest_where(snapshots@, i as int, ok)
            &&& r is None ==> !any_where(snapshots@, ok)
        }),
{
    let ghost ok = if in_win {
        within(target)
    } else {
        before(target)
    };
    let mut best: Option<usize> = None;
    let mut k: usize = 0;
    while k < snapshots.len()
        invariant
            k <= snapshots@.len(),
            ok == (if in_win {
                within(target)
            } else {
                before(target)
            }),
            best matches Some(i) ==> {
                &&& i < k
                &&& ok(snapshots@[i as int].time)
                &&& forall|j: int| 0 <= j < k && ok(snapshots@[j].time) ==> snapshots@[j].time
                    <= snapshots@[i as int].time
                &&& forall|j: int| i < j < k && ok(snapshots@[j].time) ==> snapshots@[j].time
                    < snapshots@[i as int].time
            },
            best is None ==> forall|j: int| 0 <= j < k ==> !ok(snapshots@[j].time),
        decreases snapshots@.len() - k,
    {
        let t = snapshots[k].time;
        let qualifies = if in_win {
            (target as i128) <= (t as i128) && (t as i128) < (target as i128) + 300_000_000_000
        } else {
            t < target
        };
        assert(qualifies == ok(t));
        if qualifies {
            match best {
                None => {
                    best = Some(k);
                },
                Some(i) => {
                    if t >= snapshots[i].time {
                        best = Some(k);
                    }
                },
            }
        }
        k += 1;
    }
    best
}

/// The snapshot to restore for `target`: the latest in the five minutes that
/// begin at `target`; failing that, the latest before `target`; failing that,
/// none. Of equally late snapshots the last in the list is taken.
pub fn select_best(snapshots: &Vec<SnapshotInfo>, target: i64) -> (r: Option<usize>)
    ensures
        any_where(snapshots@, within(target)) ==> (r matches Some(i) && latest_where(
            snapshots@,
            i as int,
            within(target),
        )),
        !any_where(snapshots@, within(target)) && any_where(snapshots@, before(target)) ==> (r matches Some(
            i,
        ) && latest_where(snapshots@, i as int, before(target))),
        !any_where(snapshots@, within(target)) && !any_where(snapshots@, before(target)) ==> r is None,
{
    match latest_index(snapshots, target, true) {
        Some(i) => Some(i),
        None => latest_index(snapshots, target, false),
    }
}

} // verus!
