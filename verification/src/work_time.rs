//! Weekly schedules: the work times of a policy, whether a moment falls in
//! one of them, and the work times that an hourly (or half- or
//! quarter-hourly) on/off grid of a week describes.
use vstd::prelude::*;

use crate::time::{weekday_from_index, weekday_of_day, NaiveDateTime, NaiveTime, Weekday};
use vstd::arithmetic::div_mod::{
    lemma_fundamental_div_mod, lemma_fundamental_div_mod_converse_div,
    lemma_fundamental_div_mod_converse_mod,
};

verus! {

/// A repeating period of work: from `start` to `stop` (both included) on
/// each of `days`.
pub struct WorkTime {
    pub start: NaiveTime,
    pub stop: NaiveTime,
    pub days: Vec<Weekday>,
}

pub struct WorkTimeView {
    pub start: NaiveTime,
    pub stop: NaiveTime,
    pub days: Seq<Weekday>,
}

impl View for WorkTime {
    type V = WorkTimeView;

    open spec fn view(&self) -> WorkTimeView {
        WorkTimeView { start: self.start, stop: self.stop, days: self.days@ }
    }
}

/// A schedule: a set of work times.
pub enum Schedule {
    WorkTimes(Vec<WorkTime>),
}

pub open spec fn work_time_views(v: Seq<WorkTime>) -> Seq<WorkTimeView> {
    v.map_values(|w: WorkTime| w@)
}

impl View for Schedule {
    type V = Seq<WorkTimeView>;

    open spec fn view(&self) -> Seq<WorkTimeView> {
        match self {
            Schedule::WorkTimes(times) => work_time_views(times@),
        }
    }
}

/// The work time holds the moment `t` of day `day`.
pub open spec fn work_time_covers(w: WorkTimeView, day: Weekday, t: NaiveTime) -> bool {
    w.days.contains(day) && w.start.le(t) && t.le(w.stop)
}

/// Some work time holds the moment `t` of day `day`.
pub open spec fn schedule_active(times: Seq<WorkTimeView>, day: Weekday, t: NaiveTime) -> bool {
    exists|i: int| 0 <= i < times.len() && #[trigger] work_time_covers(times[i], day, t)
}

fn work_time_covers_exec(w: &WorkTime, day: Weekday, t: &NaiveTime) -> (r: bool)
    ensures
        r == work_time_covers(w@, day, *t),
{
    let mut found = false;
    let mut i: usize = 0;
    while i < w.days.len()
        invariant
            i <= w.days@.len(),
            found == exists|j: int| 0 <= j < i && w.days@[j] == day,
        decreases w.days@.len() - i,
    {
        if w.days[i] == day {
            found = true;
        }
        i = i + 1;
    }
    assert(found == w.days@.contains(day));
    found && w.start.is_before_or_at(t) && t.is_before_or_at(&w.stop)
}

/// Whether the schedule asks for work at `now`: some work time lists the
/// weekday of `now` and holds its time of day.
pub fn schedule_active_at(schedule: &Schedule, now: &NaiveDateTime) -> (r: bool)
    ensures
        r == schedule_active(schedule@, now.weekday_spec(), now.time),
{
    let weekday = now.weekday();
    let time = now.time;
    match schedule {
        Schedule::WorkTimes(times) => {
            let mut i: usize = 0;
            while i < times.len()
                invariant
                    i <= times@.len(),
                    weekday == now.weekday_spec(),
                    time == now.time,
                    schedule@ == work_time_views(times@),
                    forall|j: int|
                        0 <= j < i ==> !#[trigger] work_time_covers(
                            work_time_views(times@)[j],
                            weekday,
                            time,
                        ),
                decreases times@.len() - i,
            {
                if work_time_covers_exec(&times[i], weekday, &time) {
                    assert(work_time_covers(work_time_views(times@)[i as int], weekday, time));
                    assert(schedule@ == work_time_views(times@));
                    assert(schedule_active(schedule@, now.weekday_spec(), now.time));
                    return true;
                }
                i = i + 1;
            }
            false
        },
    }
}


/// The grid of a week of `n` periods: seconds per period and periods per
/// day, for grids of hours, half hours and quarter hours.
pub open spec fn grid_layout(n: nat) -> Option<(int, int)> {
    if n == 168 {
        Some((3600, 24))
    } else if n == 336 {
        Some((1800, 48))
    } else if n == 672 {
        Some((900, 96))
    } else {
        None
    }
}

/// A maximal run of "on" periods `s..=e` within one day.
pub open spec fn is_run(p: Seq<bool>, dl: int, s: int, e: int) -> bool {
    &&& 0 <= s <= e < p.len()
    &&& s / dl == e / dl
    &&& forall|j: int| s <= j <= e ==> #[trigger] p[j]
    &&& s % dl == 0 || !p[s - 1]
    &&& (e + 1) % dl == 0 || !p[e + 1]
}

/// The grid holds the moment `t` of day `day`: its period is on (the last
/// period of a day ends at 23:59:59), or `t` is the very start of a period
/// that follows an "on" period of the same day.
pub open spec fn grid_covers(p: Seq<bool>, pd: int, dl: int, day: int, t: NaiveTime) -> bool {
    let k = (t.secs as int) / pd;
    let idx = day * dl + k;
    (p[idx] && !(t.secs == 86399 && t.frac > 0)) || ((t.secs as int) % pd == 0 && t.frac == 0 && k > 0
        && p[idx - 1])
}

proof fn lemma_step_within_day(i: int, dl: int)
    requires
        i > 0,
        dl > 0,
        i % dl != 0,
    ensures
        (i - 1) / dl == i / dl,
        (i - 1) % dl == i % dl - 1,
{
    lemma_fundamental_div_mod(i, dl);
    let q = i / dl;
    let r = i % dl;
    assert(i - 1 == q * dl + (r - 1)) by (nonlinear_arith)
        requires
            i == dl * q + r,
    ;
    lemma_fundamental_div_mod_converse_div(i - 1, dl, q, r - 1);
    lemma_fundamental_div_mod_converse_mod(i - 1, dl, q, r - 1);
}

/// The run `r` holds the period `j`.
pub open spec fn run_holds(r: (usize, usize), j: int) -> bool {
    r.0 <= j <= r.1
}

/// The maximal runs of "on" periods within each day, in order.
#[verifier::spinoff_prover]
fn on_runs(periods: &Vec<bool>, day_length: usize) -> (runs: Vec<(usize, usize)>)
    requires
        day_length > 0,
        (periods@.len() as int) % (day_length as int) == 0,
    ensures
        forall|a: int|
            0 <= a < runs@.len() ==> is_run(
                periods@,
                day_length as int,
                #[trigger] runs@[a].0 as int,
                runs@[a].1 as int,
            ),
        forall|j: int|
            0 <= j < periods@.len() && #[trigger] periods@[j] ==> exists|a: int|
                0 <= a < runs@.len() && #[trigger] run_holds(runs@[a], j),
        forall|a: int, b: int| 0 <= a < b < runs@.len() ==> #[trigger] runs@[a].1 < #[trigger] runs@[b].0,
{
    let ghost p = periods@;
    let ghost dl = day_length as int;
    let mut runs: Vec<(usize, usize)> = Vec::new();
    let mut current: Option<(usize, usize)> = None;
    let mut i: usize = 0;
    while i < periods.len()
        invariant
            p == periods@,
            dl == day_length as int,
            dl > 0,
            (p.len() as int) % dl == 0,
            i <= p.len(),
            forall|a: int|
                0 <= a < runs@.len() ==> #[trigger] runs@[a].1 < i && is_run(
                    p,
                    dl,
                    runs@[a].0 as int,
                    runs@[a].1 as int,
                ),
            current is None ==> i == 0 || !p[i - 1],
            forall|a: int, b: int| 0 <= a < b < runs@.len() ==> #[trigger] runs@[a].1 < #[trigger] runs@[b].0,
            current matches Some((s, e)) ==> forall|a: int| 0 <= a < runs@.len() ==> #[trigger] runs@[a].1 < s,
            current matches Some((s, e)) ==> {
                &&& e + 1 == i
                &&& s <= e
                &&& (s as int) / dl == (e as int) / dl
                &&& forall|j: int| s <= j <= e ==> #[trigger] p[j]
                &&& (s as int) % dl == 0 || !p[s - 1]
            },
            forall|j: int|
                0 <= j < i && #[trigger] p[j] ==> (exists|a: int|
                    0 <= a < runs@.len() && #[trigger] run_holds(runs@[a], j)) || (
                current matches Some((s, e)) && s <= j),
        decreases p.len() - i,
    {
        let ghost runs_before = runs@;
        let ghost top = current;
        if i % day_length == 0 {
            if let Some(r) = current {
                runs.push(r);
                current = None;
                proof {
                    assert(runs@[runs@.len() - 1] == r);
                    assert forall|j: int| 0 <= j < i && #[trigger] p[j] implies exists|a: int|
                        0 <= a < runs@.len() && #[trigger] run_holds(runs@[a], j) by {
                        if r.0 <= j {
                            assert(run_holds(runs@[runs@.len() - 1], j));
                        } else {
                            let a = choose|a: int|
                                0 <= a < runs_before.len() && run_holds(runs_before[a], j);
                            assert(runs@[a] == runs_before[a]);
                        }
                    }
                }
            }
        }
        let ghost runs_mid = runs@;
        let ghost current_mid = current;
        if periods[i] {
            current = match current {
                Some((s, _)) => {
                    proof {
                        lemma_step_within_day(i as int, dl);
                    }
                    Some((s, i))
                },
                None => {
                    proof {
                        if (i as int) % dl != 0 {
                            assert(current_mid == top);
                            assert(i == 0 || !p[i - 1]);
                        }
                    }
                    Some((i, i))
                },
            };
        } else if let Some(r) = current {
            runs.push(r);
            current = None;
            proof {
                assert(runs@[runs@.len() - 1] == r);
                assert forall|j: int| 0 <= j < i && #[trigger] p[j] implies exists|a: int|
                    0 <= a < runs@.len() && #[trigger] run_holds(runs@[a], j) by {
                    if r.0 <= j {
                        assert(run_holds(runs@[runs@.len() - 1], j));
                    } else {
                        let a = choose|a: int|
                            0 <= a < runs_mid.len() && run_holds(runs_mid[a], j);
                        assert(runs@[a] == runs_mid[a]);
                    }
                }
            }
        }
        i = i + 1;
    }
    if let Some(r) = current {
        let ghost runs_before = runs@;
        proof {
            let n = p.len() as int;
            assert(n == (n / dl) * dl) by {
                lemma_fundamental_div_mod(n, dl);
            }
            lemma_fundamental_div_mod_converse_mod(n, dl, n / dl, 0);
        }
        runs.push(r);
        proof {
            assert(runs@[runs@.len() - 1] == r);
            assert forall|j: int| 0 <= j < p.len() && #[trigger] p[j] implies exists|a: int|
                0 <= a < runs@.len() && #[trigger] run_holds(runs@[a], j) by {
                if r.0 <= j {
                    assert(run_holds(runs@[runs@.len() - 1], j));
                } else {
                    let a = choose|a: int|
                        0 <= a < runs_before.len() && run_holds(runs_before[a], j);
                    assert(runs@[a] == runs_before[a]);
                }
            }
        }
    }
    runs
}


/// The layouts of the grids: seconds per period and periods per day.
pub open spec fn valid_layout(pd: int, dl: int) -> bool {
    (pd == 3600 && dl == 24) || (pd == 1800 && dl == 48) || (pd == 900 && dl == 96)
}

/// Where a run of periods starts: the start of its first period.
pub open spec fn run_start(pd: int, dl: int, s: int) -> NaiveTime {
    NaiveTime { secs: ((s % dl) * pd) as u32, frac: 0 }
}

/// Where a run of periods stops: the end of its last period, 23:59:59 for
/// the last period of a day.
pub open spec fn run_stop(pd: int, dl: int, e: int) -> NaiveTime {
    if (e + 1) % dl == 0 {
        NaiveTime { secs: 86399, frac: 0 }
    } else {
        NaiveTime { secs: (((e + 1) % dl) * pd) as u32, frac: 0 }
    }
}

/// The weekday of a run of periods.
pub open spec fn run_day(dl: int, s: int) -> Weekday {
    weekday_from_index((s / dl) as nat)
}

/// The run `r` holds the moment `t` of day `day`.
pub open spec fn run_covers(pd: int, dl: int, r: (usize, usize), day: Weekday, t: NaiveTime) -> bool {
    run_day(dl, r.0 as int) == day && run_start(pd, dl, r.0 as int).le(t) && t.le(
        run_stop(pd, dl, r.1 as int),
    )
}

/// Some run holds the moment `t` of day `day`.
pub open spec fn runs_cover(pd: int, dl: int, runs: Seq<(usize, usize)>, day: Weekday, t: NaiveTime) -> bool {
    exists|a: int| 0 <= a < runs.len() && #[trigger] run_covers(pd, dl, runs[a], day, t)
}

/// A work time with these bounds lists this day.
pub open spec fn work_time_lists(w: WorkTimeView, start: NaiveTime, stop: NaiveTime, day: Weekday) -> bool {
    w.start == start && w.stop == stop && w.days.contains(day)
}

proof fn lemma_compose(d: int, k: int, dl: int)
    requires
        dl > 0,
        0 <= k < dl,
    ensures
        (d * dl + k) / dl == d,
        (d * dl + k) % dl == k,
{
    lemma_fundamental_div_mod_converse_div(d * dl + k, dl, d, k);
    lemma_fundamental_div_mod_converse_mod(d * dl + k, dl, d, k);
}

proof fn lemma_decompose(i: int, dl: int)
    requires
        dl > 0,
    ensures
        i == (i / dl) * dl + i % dl,
        0 <= i % dl < dl,
{
    lemma_fundamental_div_mod(i, dl);
    assert((i / dl) * dl == dl * (i / dl)) by (nonlinear_arith);
}

proof fn lemma_day_index_bound(i: int, dl: int)
    requires
        dl > 0,
        0 <= i < 7 * dl,
    ensures
        0 <= i / dl < 7,
{
    lemma_decompose(i, dl);
    let q = i / dl;
    let r = i % dl;
    assert(0 <= q < 7) by (nonlinear_arith)
        requires
            i == q * dl + r,
            0 <= r < dl,
            0 <= i < 7 * dl,
            dl > 0,
    ;
}

proof fn lemma_slot_secs(k: int, pd: int, dl: int)
    requires
        valid_layout(pd, dl),
        0 <= k < dl,
    ensures
        0 <= k * pd <= 86400 - pd,
        (k + 1) * pd <= 86400,
{
    assert(0 <= k * pd <= 86400 - pd && (k + 1) * pd <= 86400) by (nonlinear_arith)
        requires
            valid_layout(pd, dl),
            0 <= k < dl,
    ;
}

proof fn lemma_weekday_from_index(i: nat, j: nat)
    requires
        i < 7,
        j < 7,
    ensures
        (weekday_from_index(i) == weekday_from_index(j)) <==> i == j,
        weekday_from_index(i).day_index() == i,
{
}

pub type Part = (NaiveTime, NaiveTime, Weekday);

/// Some work time lists the part.
pub open spec fn part_listed(views: Seq<WorkTimeView>, part: Part) -> bool {
    exists|m: int| 0 <= m < views.len() && #[trigger] work_time_lists(views[m], part.0, part.1, part.2)
}

/// Each part is listed by some work time.
pub open spec fn lists_all(views: Seq<WorkTimeView>, parts: Seq<Part>) -> bool {
    forall|a: int| 0 <= a < parts.len() ==> #[trigger] part_listed(views, parts[a])
}

/// The part has the bounds of the work time and this day.
pub open spec fn part_matches(w: WorkTimeView, part: Part, day: Weekday) -> bool {
    w.start == part.0 && w.stop == part.1 && part.2 == day
}

/// Some part gives the work time `w` the day `day`.
pub open spec fn day_from_parts(w: WorkTimeView, day: Weekday, parts: Seq<Part>) -> bool {
    exists|a: int| 0 <= a < parts.len() && #[trigger] part_matches(w, parts[a], day)
}

/// Each day of each work time comes from some part.
pub open spec fn only_lists(views: Seq<WorkTimeView>, parts: Seq<Part>) -> bool {
    forall|m: int, x: int|
        0 <= m < views.len() && 0 <= x < views[m].days.len() ==> #[trigger] day_from_parts(
            views[m],
            views[m].days[x],
            parts,
        )
}

/// Some part holds the moment `t` of day `day`.
pub open spec fn parts_cover(parts: Seq<Part>, day: Weekday, t: NaiveTime) -> bool {
    exists|a: int|
        #![trigger parts[a]]
        0 <= a < parts.len() && parts[a].2 == day && parts[a].0.le(t) && t.le(parts[a].1)
}

proof fn lemma_merge_existing(views: Seq<WorkTimeView>, parts: Seq<Part>, m: int, part: Part)
    requires
        lists_all(views, parts),
        only_lists(views, parts),
        0 <= m < views.len(),
        views[m].start == part.0,
        views[m].stop == part.1,
    ensures
        ({
            let after = views.update(m, WorkTimeView { days: views[m].days.push(part.2), ..views[m] });
            lists_all(after, parts.push(part)) && only_lists(after, parts.push(part))
        }),
{
    let after = views.update(m, WorkTimeView { days: views[m].days.push(part.2), ..views[m] });
    let np = parts.push(part);
    assert forall|a: int| 0 <= a < np.len() implies #[trigger] part_listed(after, np[a]) by {
        if a < parts.len() {
            assert(np[a] == parts[a]);
            assert(part_listed(views, parts[a]));
            let mm = choose|mm: int|
                0 <= mm < views.len() && #[trigger] work_time_lists(
                    views[mm],
                    parts[a].0,
                    parts[a].1,
                    parts[a].2,
                );
            if mm == m {
                let x = choose|x: int| 0 <= x < views[mm].days.len() && views[mm].days[x] == parts[a].2;
                assert(after[mm].days[x] == views[mm].days[x]);
            }
            assert(work_time_lists(after[mm], np[a].0, np[a].1, np[a].2));
        } else {
            assert(after[m].days[views[m].days.len() as int] == part.2);
            assert(work_time_lists(after[m], np[a].0, np[a].1, np[a].2));
        }
    }
    assert forall|mm: int, x: int| 0 <= mm < after.len() && 0 <= x < after[mm].days.len() implies
        #[trigger] day_from_parts(after[mm], after[mm].days[x], np) by {
        if mm == m && x == views[m].days.len() {
            assert(part_matches(after[mm], np[parts.len() as int], after[mm].days[x]));
        } else {
            assert(after[mm].days[x] == views[mm].days[x]);
            assert(day_from_parts(views[mm], views[mm].days[x], parts));
            let a = choose|a: int| 0 <= a < parts.len() && #[trigger] part_matches(views[mm], parts[a], views[mm].days[x]);
            assert(np[a] == parts[a]);
            assert(part_matches(after[mm], np[a], after[mm].days[x]));
        }
    }
}

proof fn lemma_merge_new(views: Seq<WorkTimeView>, parts: Seq<Part>, part: Part)
    requires
        lists_all(views, parts),
        only_lists(views, parts),
    ensures
        ({
            let after = views.push(WorkTimeView { start: part.0, stop: part.1, days: seq![part.2] });
            lists_all(after, parts.push(part)) && only_lists(after, parts.push(part))
        }),
{
    let after = views.push(WorkTimeView { start: part.0, stop: part.1, days: seq![part.2] });
    let np = parts.push(part);
    let m = views.len() as int;
    assert forall|a: int| 0 <= a < np.len() implies #[trigger] part_listed(after, np[a]) by {
        if a < parts.len() {
            assert(np[a] == parts[a]);
            assert(part_listed(views, parts[a]));
            let mm = choose|mm: int|
                0 <= mm < views.len() && #[trigger] work_time_lists(
                    views[mm],
                    parts[a].0,
                    parts[a].1,
                    parts[a].2,
                );
            assert(after[mm] == views[mm]);
            assert(work_time_lists(after[mm], np[a].0, np[a].1, np[a].2));
        } else {
            assert(after[m].days[0] == part.2);
            assert(work_time_lists(after[m], np[a].0, np[a].1, np[a].2));
        }
    }
    assert forall|mm: int, x: int| 0 <= mm < after.len() && 0 <= x < after[mm].days.len() implies
        #[trigger] day_from_parts(after[mm], after[mm].days[x], np) by {
        if mm == m {
            assert(x == 0);
            assert(part_matches(after[mm], np[parts.len() as int], after[mm].days[x]));
        } else {
            assert(after[mm] == views[mm]);
            assert(day_from_parts(views[mm], views[mm].days[x], parts));
            let a = choose|a: int| 0 <= a < parts.len() && #[trigger] part_matches(views[mm], parts[a], views[mm].days[x]);
            assert(np[a] == parts[a]);
            assert(part_matches(after[mm], np[a], after[mm].days[x]));
        }
    }
}

proof fn lemma_lists_cover(views: Seq<WorkTimeView>, parts: Seq<Part>, day: Weekday, t: NaiveTime)
    requires
        lists_all(views, parts),
        only_lists(views, parts),
    ensures
        schedule_active(views, day, t) <==> parts_cover(parts, day, t),
{
    if schedule_active(views, day, t) {
        let i = choose|i: int| 0 <= i < views.len() && #[trigger] work_time_covers(views[i], day, t);
        let x = choose|x: int| 0 <= x < views[i].days.len() && views[i].days[x] == day;
        assert(day_from_parts(views[i], views[i].days[x], parts));
        let a = choose|a: int|
            0 <= a < parts.len() && #[trigger] part_matches(views[i], parts[a], views[i].days[x]);
        assert(parts[a].2 == day && parts[a].0.le(t) && t.le(parts[a].1));
    }
    if parts_cover(parts, day, t) {
        let a = choose|a: int|
            #![trigger parts[a]]
            0 <= a < parts.len() && parts[a].2 == day && parts[a].0.le(t) && t.le(parts[a].1);
        assert(part_listed(views, parts[a]));
        let mm = choose|mm: int|
            0 <= mm < views.len() && #[trigger] work_time_lists(
                views[mm],
                parts[a].0,
                parts[a].1,
                parts[a].2,
            );
        assert(work_time_covers(views[mm], day, t));
    }
}

/// The position of the first work time with these bounds, or the length
/// when there is none.
pub open spec fn bounds_position(views: Seq<WorkTimeView>, start: NaiveTime, stop: NaiveTime) -> int
    decreases views.len(),
{
    if views.len() == 0 {
        0
    } else if views[0].start == start && views[0].stop == stop {
        0
    } else {
        1 + bounds_position(views.drop_first(), start, stop)
    }
}

proof fn lemma_bounds_position(views: Seq<WorkTimeView>, start: NaiveTime, stop: NaiveTime, m: int)
    requires
        0 <= m <= views.len(),
        m < views.len() ==> views[m].start == start && views[m].stop == stop,
        forall|j: int| 0 <= j < m ==> !(views[j].start == start && views[j].stop == stop),
    ensures
        bounds_position(views, start, stop) == m,
    decreases views.len(),
{
    if views.len() > 0 && m > 0 {
        assert(!(views[0].start == start && views[0].stop == stop));
        assert forall|j: int| 0 <= j < m - 1 implies !(views.drop_first()[j].start == start
            && views.drop_first()[j].stop == stop) by {
            assert(views.drop_first()[j] == views[j + 1]);
        }
        lemma_bounds_position(views.drop_first(), start, stop, m - 1);
    }
}

/// The work times of a list of parts, in order: each part adds its day to
/// the first work time with its bounds, or adds a work time of its own.
pub open spec fn merge_parts(parts: Seq<Part>) -> Seq<WorkTimeView>
    decreases parts.len(),
{
    if parts.len() == 0 {
        Seq::empty()
    } else {
        let prev = merge_parts(parts.drop_last());
        let part = parts.last();
        let m = bounds_position(prev, part.0, part.1);
        if m < prev.len() {
            prev.update(m, WorkTimeView { days: prev[m].days.push(part.2), ..prev[m] })
        } else {
            prev.push(WorkTimeView { start: part.0, stop: part.1, days: seq![part.2] })
        }
    }
}

/// The start, stop and day of a run.
pub open spec fn run_part(pd: int, dl: int, r: (usize, usize)) -> Part {
    (run_start(pd, dl, r.0 as int), run_stop(pd, dl, r.1 as int), run_day(dl, r.0 as int))
}

/// The work times of a list of runs: one per distinct pair of bounds, with
/// the days of all runs that have them.
#[verifier::spinoff_prover]
fn work_times_of_runs(
    runs: &Vec<(usize, usize)>,
    period_secs: u32,
    day_length: usize,
    Ghost(p): Ghost<Seq<bool>>,
) -> (work_times: Vec<WorkTime>)
    requires
        valid_layout(period_secs as int, day_length as int),
        p.len() == 7 * day_length,
        forall|a: int|
            0 <= a < runs@.len() ==> is_run(
                p,
                day_length as int,
                #[trigger] runs@[a].0 as int,
                runs@[a].1 as int,
            ),
    ensures
        forall|day: Weekday, t: NaiveTime|
            schedule_active(work_time_views(work_times@), day, t) <==> runs_cover(
                period_secs as int,
                day_length as int,
                runs@,
                day,
                t,
            ),
        work_time_views(work_times@) == merge_parts(
            runs@.map_values(|r: (usize, usize)| run_part(period_secs as int, day_length as int, r)),
        ),
{
    let ghost pd = period_secs as int;
    let ghost dl = day_length as int;
    let ghost mut parts: Seq<Part> = Seq::empty();
    let mut work_times: Vec<WorkTime> = Vec::new();
    let mut q: usize = 0;
    while q < runs.len()
        invariant
            pd == period_secs as int,
            dl == day_length as int,
            valid_layout(pd, dl),
            p.len() == 7 * dl,
            forall|a: int|
                0 <= a < runs@.len() ==> is_run(p, dl, #[trigger] runs@[a].0 as int, runs@[a].1 as int),
            q <= runs@.len(),
            parts.len() == q,
            forall|a: int| 0 <= a < q ==> #[trigger] parts[a] == run_part(pd, dl, runs@[a]),
            lists_all(work_time_views(work_times@), parts),
            only_lists(work_time_views(work_times@), parts),
            work_time_views(work_times@) == merge_parts(parts),
        decreases runs@.len() - q,
    {
        let (s, e) = runs[q];
        proof {
            assert(is_run(p, dl, runs@[q as int].0 as int, runs@[q as int].1 as int));
            lemma_day_index_bound(s as int, dl);
            lemma_decompose(s as int, dl);
            lemma_decompose(e as int + 1, dl);
            lemma_slot_secs((s as int) % dl, pd, dl);
            lemma_slot_secs((e as int + 1) % dl, pd, dl);
        }
        let day = match Weekday::from_index((s / day_length) as u8) {
            Some(d) => d,
            None => Weekday::Mon,
        };
        let start = NaiveTime { secs: (s % day_length) as u32 * period_secs, frac: 0 };
        let stop = if (e + 1) % day_length == 0 {
            NaiveTime { secs: 86399, frac: 0 }
        } else {
            NaiveTime { secs: ((e + 1) % day_length) as u32 * period_secs, frac: 0 }
        };
        assert(day == run_day(dl, s as int));
        assert(start == run_start(pd, dl, s as int));
        assert(stop == run_stop(pd, dl, e as int));
        let ghost before = work_time_views(work_times@);
        let ghost part: Part = (start, stop, day);
        let mut m: usize = 0;
        let mut found = false;
        while m < work_times.len() && !found
            invariant
                m <= work_times@.len(),
                found ==> m < work_times@.len() && work_times@[m as int].start == start
                    && work_times@[m as int].stop == stop,
                forall|j: int|
                    0 <= j < m ==> !(work_times@[j].start == start && work_times@[j].stop == stop),
            decreases work_times@.len() - m + (if found { 0int } else { 1int }),
        {
            if work_times[m].start == start && work_times[m].stop == stop {
                found = true;
            } else {
                m = m + 1;
            }
        }
        proof {
            lemma_bounds_position(before, start, stop, m as int);
            assert(parts.push(part).drop_last() =~= parts);
            assert(parts.push(part).last() == part);
        }
        if found {
            let mut w = work_times.remove(m);
            let ghost old_days = w.days@;
            w.days.push(day);
            work_times.insert(m, w);
            proof {
                lemma_merge_existing(before, parts, m as int, part);
                assert(work_time_views(work_times@) =~= before.update(
                    m as int,
                    WorkTimeView { days: before[m as int].days.push(day), ..before[m as int] },
                ));
            }
        } else {
            let mut days: Vec<Weekday> = Vec::new();
            days.push(day);
            work_times.push(WorkTime { start, stop, days });
            proof {
                lemma_merge_new(before, parts, part);
                assert(work_time_views(work_times@) =~= before.push(
                    WorkTimeView { start, stop, days: seq![day] },
                ));
            }
        }
        proof {
            parts = parts.push(part);
        }
        q = q + 1;
    }
    proof {
        assert(parts =~= runs@.map_values(|r: (usize, usize)| run_part(pd, dl, r)));
        assert forall|day: Weekday, t: NaiveTime|
            schedule_active(work_time_views(work_times@), day, t) <==> runs_cover(
                pd,
                dl,
                runs@,
                day,
                t,
            ) by {
            lemma_lists_cover(work_time_views(work_times@), parts, day, t);
            if parts_cover(parts, day, t) {
                let a = choose|a: int|
                    #![trigger parts[a]]
                    0 <= a < parts.len() && parts[a].2 == day && parts[a].0.le(t) && t.le(parts[a].1);
                assert(run_covers(pd, dl, runs@[a], day, t));
            }
            if runs_cover(pd, dl, runs@, day, t) {
                let a = choose|a: int| 0 <= a < runs@.len() && #[trigger] run_covers(pd, dl, runs@[a], day, t);
                assert(parts[a] == run_part(pd, dl, runs@[a]));
            }
        }
    }
    work_times
}


proof fn lemma_time_slot(secs: int, pd: int, dl: int)
    requires
        valid_layout(pd, dl),
        0 <= secs < 86400,
    ensures
        0 <= secs / pd < dl,
        (secs / pd) * pd <= secs < (secs / pd) * pd + pd,
        secs == 86399 ==> secs / pd == dl - 1,
        secs % pd == 0 <==> secs == (secs / pd) * pd,
{
    lemma_decompose(secs, pd);
    let k = secs / pd;
    let r = secs % pd;
    assert(0 <= k < dl) by (nonlinear_arith)
        requires
            valid_layout(pd, dl),
            secs == k * pd + r,
            0 <= r < pd,
            0 <= secs < 86400,
    ;
    if secs == 86399 {
        assert(k == dl - 1) by (nonlinear_arith)
            requires
                valid_layout(pd, dl),
                secs == k * pd + r,
                0 <= r < pd,
                secs == 86399,
        ;
    }
}

proof fn lemma_mul_le(a: int, b: int, pd: int)
    requires
        pd > 0,
    ensures
        a <= b <==> a * pd <= b * pd,
        a < b <==> a * pd < b * pd,
{
    assert(a <= b <==> a * pd <= b * pd) by (nonlinear_arith)
        requires
            pd > 0,
    ;
    assert(a < b <==> a * pd < b * pd) by (nonlinear_arith)
        requires
            pd > 0,
    ;
}

proof fn lemma_run_shape(p: Seq<bool>, dl: int, s: int, e: int)
    requires
        dl > 0,
        p.len() == 7 * dl,
        is_run(p, dl, s, e),
    ensures
        0 <= s / dl < 7,
        s == (s / dl) * dl + s % dl,
        e == (s / dl) * dl + e % dl,
        s % dl <= e % dl,
        (e + 1) % dl == 0 <==> e % dl == dl - 1,
        e % dl < dl - 1 ==> (e + 1) % dl == e % dl + 1,
{
    lemma_day_index_bound(s, dl);
    lemma_decompose(s, dl);
    lemma_decompose(e, dl);
    let d = s / dl;
    let b = e % dl;
    if b < dl - 1 {
        lemma_compose(d, b + 1, dl);
        assert(e + 1 == d * dl + (b + 1));
    } else {
        assert(e + 1 == (d + 1) * dl + 0) by (nonlinear_arith)
            requires
                e == d * dl + b,
                b == dl - 1,
        ;
        lemma_compose(d + 1, 0, dl);
    }
}

/// The runs of a grid hold a moment exactly when the grid does.
#[verifier::spinoff_prover]
proof fn lemma_runs_cover_grid(
    p: Seq<bool>,
    pd: int,
    dl: int,
    runs: Seq<(usize, usize)>,
    day: Weekday,
    t: NaiveTime,
)
    requires
        valid_layout(pd, dl),
        p.len() == 7 * dl,
        forall|a: int| 0 <= a < runs.len() ==> is_run(p, dl, #[trigger] runs[a].0 as int, runs[a].1 as int),
        forall|j: int|
            0 <= j < p.len() && #[trigger] p[j] ==> exists|a: int|
                0 <= a < runs.len() && #[trigger] run_holds(runs[a], j),
        t.wf(),
    ensures
        runs_cover(pd, dl, runs, day, t) <==> grid_covers(p, pd, dl, day.day_index() as int, t),
{
    let d = day.day_index() as int;
    let secs = t.secs as int;
    lemma_time_slot(secs, pd, dl);
    let k = secs / pd;
    let idx = d * dl + k;
    lemma_compose(d, k, dl);
    assert(0 <= idx < 7 * dl) by (nonlinear_arith)
        requires
            idx == d * dl + k,
            0 <= d < 7,
            0 <= k < dl,
    ;
    if runs_cover(pd, dl, runs, day, t) {
        let a = choose|a: int| 0 <= a < runs.len() && #[trigger] run_covers(pd, dl, runs[a], day, t);
        let s = runs[a].0 as int;
        let e = runs[a].1 as int;
        assert(is_run(p, dl, s, e));
        lemma_run_shape(p, dl, s, e);
        lemma_weekday_from_index((s / dl) as nat, day.day_index());
        assert(s / dl == d);
        let sa = s % dl;
        let sb = e % dl;
        lemma_slot_secs(sa, pd, dl);
        assert(sa <= k) by {
            lemma_mul_le(sa, k + 1, pd);
            assert((k + 1) * pd == k * pd + pd) by (nonlinear_arith);
        }
        if k <= sb {
            assert(s <= idx <= e);
            assert(p[idx]);
            if secs == 86399 && t.frac > 0 {
                assert(sb == dl - 1);
                assert(false);
            }
        } else {
            assert(sb < dl - 1);
            lemma_mul_le(sb + 1, k, pd);
            assert(secs == k * pd);
            assert(k == sb + 1);
            assert(idx - 1 == e);
            assert(p[e]);
        }
    }
    if grid_covers(p, pd, dl, d, t) {
        let target = if p[idx] && !(secs == 86399 && t.frac > 0) { idx } else { idx - 1 };
        if target == idx - 1 {
            assert(k > 0 && p[idx - 1] && secs % pd == 0 && t.frac == 0);
            lemma_compose(d, k - 1, dl);
            assert(idx - 1 == d * dl + (k - 1));
        }
        assert(p[target]);
        let a = choose|a: int| 0 <= a < runs.len() && #[trigger] run_holds(runs[a], target);
        let s = runs[a].0 as int;
        let e = runs[a].1 as int;
        assert(is_run(p, dl, s, e));
        lemma_run_shape(p, dl, s, e);
        vstd::arithmetic::div_mod::lemma_div_is_ordered(s, target, dl);
        vstd::arithmetic::div_mod::lemma_div_is_ordered(target, e, dl);
        assert(target / dl == d);
        assert(s / dl == d);
        lemma_weekday_from_index((s / dl) as nat, day.day_index());
        assert(run_day(dl, s) == day);
        let sa = s % dl;
        let sb = e % dl;
        let tk = target % dl;
        assert(sa <= tk <= sb);
        lemma_mul_le(sa, tk, pd);
        lemma_slot_secs(sb, pd, dl);
        if target == idx {
            assert(tk == k);
            if sb < dl - 1 {
                lemma_mul_le(k + 1, sb + 1, pd);
                assert((k + 1) * pd == k * pd + pd) by (nonlinear_arith);
            }
        } else {
            assert(tk == k - 1);
            lemma_mul_le(k - 1, k, pd);
            if sb < dl - 1 {
                lemma_mul_le(k, sb + 1, pd);
            } else {
                lemma_slot_secs(k, pd, dl);
            }
        }
        assert(run_start(pd, dl, s).le(t));
        assert(t.le(run_stop(pd, dl, e)));
        assert(run_covers(pd, dl, runs[a], day, t));
    }
}


/// The runs of a grid: its maximal runs of "on" periods within a day, in
/// order, together holding every "on" period.
pub open spec fn grid_runs(p: Seq<bool>, dl: int, runs: Seq<(usize, usize)>) -> bool {
    &&& forall|a: int|
        0 <= a < runs.len() ==> is_run(p, dl, #[trigger] runs[a].0 as int, runs[a].1 as int)
    &&& forall|a: int, b: int| 0 <= a < b < runs.len() ==> #[trigger] runs[a].1 < #[trigger] runs[b].0
    &&& forall|j: int|
        0 <= j < p.len() && #[trigger] p[j] ==> exists|a: int|
            0 <= a < runs.len() && #[trigger] run_holds(runs[a], j)
}

/// The work times of a grid: the bounds and days of its runs, merged in
/// order of the runs (see `merge_parts`).
pub open spec fn grid_work_times(p: Seq<bool>, times: Seq<WorkTimeView>) -> bool {
    match grid_layout(p.len()) {
        Some((pd, dl)) => exists|runs: Seq<(usize, usize)>| #[trigger] runs_give(p, pd, dl, runs, times),
        None => false,
    }
}

/// The runs are the grid's runs, and the work times are theirs.
pub open spec fn runs_give(
    p: Seq<bool>,
    pd: int,
    dl: int,
    runs: Seq<(usize, usize)>,
    times: Seq<WorkTimeView>,
) -> bool {
    grid_runs(p, dl, runs) && times == merge_parts(
        runs.map_values(|r: (usize, usize)| run_part(pd, dl, r)),
    )
}

/// Two maximal runs that hold the same period are the same run.
proof fn lemma_run_of_period(p: Seq<bool>, dl: int, s1: int, e1: int, s2: int, e2: int, j: int)
    requires
        dl > 0,
        is_run(p, dl, s1, e1),
        is_run(p, dl, s2, e2),
        s1 <= j <= e1,
        s2 <= j <= e2,
    ensures
        s1 == s2 && e1 == e2,
{
    vstd::arithmetic::div_mod::lemma_div_is_ordered(s1, j, dl);
    vstd::arithmetic::div_mod::lemma_div_is_ordered(j, e1, dl);
    vstd::arithmetic::div_mod::lemma_div_is_ordered(s2, j, dl);
    vstd::arithmetic::div_mod::lemma_div_is_ordered(j, e2, dl);
    if s1 != s2 {
        let (lo, hi) = if s1 < s2 { (s1, s2) } else { (s2, s1) };
        assert(lo / dl == hi / dl);
        assert(p[hi - 1]);
        lemma_decompose(lo, dl);
        lemma_decompose(hi, dl);
        assert(hi % dl != 0);
    }
    if e1 != e2 {
        let (lo, hi) = if e1 < e2 { (e1, e2) } else { (e2, e1) };
        assert(p[lo + 1]);
        vstd::arithmetic::div_mod::lemma_div_is_ordered(lo + 1, hi, dl);
        lemma_decompose(lo, dl);
        lemma_decompose(lo + 1, dl);
        assert(lo / dl == hi / dl);
        if (lo + 1) % dl == 0 {
            assert((lo + 1) / dl == lo / dl + 1) by (nonlinear_arith)
                requires
                    lo == (lo / dl) * dl + lo % dl,
                    lo + 1 == ((lo + 1) / dl) * dl,
                    0 <= lo % dl < dl,
                    dl > 0,
            ;
        }
        assert((lo + 1) % dl != 0);
    }
}

/// The first "on" period at or after `lo`.
pub open spec fn first_on_from(p: Seq<bool>, lo: int, x: int) -> bool {
    &&& lo <= x < p.len()
    &&& p[x]
    &&& forall|j: int| lo <= j < x ==> !#[trigger] p[j]
}

/// Where the search for the run after the first `k` runs starts.
pub open spec fn next_start(runs: Seq<(usize, usize)>, k: int) -> int {
    if k == 0 {
        0
    } else {
        runs[k - 1].1 as int + 1
    }
}

proof fn lemma_run_starts_at_first_on(p: Seq<bool>, dl: int, runs: Seq<(usize, usize)>, k: int)
    requires
        dl > 0,
        grid_runs(p, dl, runs),
        0 <= k < runs.len(),
    ensures
        first_on_from(p, next_start(runs, k), runs[k].0 as int),
{
    let x = runs[k].0 as int;
    assert(is_run(p, dl, x, runs[k].1 as int));
    if k > 0 {
        assert(runs[k - 1].1 < runs[k].0);
    }
    assert forall|j: int| next_start(runs, k) <= j < x implies !#[trigger] p[j] by {
        if p[j] {
            let a = choose|a: int| 0 <= a < runs.len() && #[trigger] run_holds(runs[a], j);
            if a < k {
                if a < k - 1 {
                    assert(runs[a].1 < runs[k - 1].0);
                    assert(is_run(p, dl, runs[k - 1].0 as int, runs[k - 1].1 as int));
                }
            } else if a > k {
                assert(runs[k].1 < runs[a].0);
                assert(is_run(p, dl, runs[k].0 as int, runs[k].1 as int));
            }
        }
    }
}

proof fn lemma_runs_agree_below(p: Seq<bool>, dl: int, r1: Seq<(usize, usize)>, r2: Seq<(usize, usize)>, k: int)
    requires
        dl > 0,
        grid_runs(p, dl, r1),
        grid_runs(p, dl, r2),
        0 <= k <= r1.len(),
        k <= r2.len(),
    ensures
        forall|i: int| 0 <= i < k ==> r1[i] == r2[i],
    decreases k,
{
    if k > 0 {
        let j = k - 1;
        lemma_runs_agree_below(p, dl, r1, r2, j);
        lemma_run_starts_at_first_on(p, dl, r1, j);
        lemma_run_starts_at_first_on(p, dl, r2, j);
        if j > 0 {
            assert(r1[j - 1] == r2[j - 1]);
        }
        let x1 = r1[j].0 as int;
        let x2 = r2[j].0 as int;
        if x1 < x2 {
            assert(!p[x1]);
        }
        if x2 < x1 {
            assert(!p[x2]);
        }
        assert(is_run(p, dl, r1[j].0 as int, r1[j].1 as int));
        assert(is_run(p, dl, r2[j].0 as int, r2[j].1 as int));
        lemma_run_of_period(p, dl, x1, r1[j].1 as int, x2, r2[j].1 as int, x1);
    }
}

/// A grid has one list of runs: any two lists of its runs are equal.
pub proof fn lemma_grid_runs_unique(p: Seq<bool>, dl: int, r1: Seq<(usize, usize)>, r2: Seq<(usize, usize)>)
    requires
        dl > 0,
        grid_runs(p, dl, r1),
        grid_runs(p, dl, r2),
    ensures
        r1 == r2,
{
    let n = if r1.len() < r2.len() { r1.len() as int } else { r2.len() as int };
    lemma_runs_agree_below(p, dl, r1, r2, n);
    if r1.len() != r2.len() {
        let (long, short) = if r1.len() > r2.len() { (r1, r2) } else { (r2, r1) };
        let m = short.len() as int;
        let x = long[m].0 as int;
        assert(is_run(p, dl, x, long[m].1 as int));
        assert(p[x]);
        let a = choose|a: int| 0 <= a < short.len() && #[trigger] run_holds(short[a], x);
        assert(short[a] == long[a]);
        assert(long[a].1 < long[m].0);
    }
    assert(r1 =~= r2);
}

/// The work times hold exactly the moments that the grid holds.
pub open spec fn describes_grid(times: Seq<WorkTimeView>, p: Seq<bool>) -> bool {
    match grid_layout(p.len()) {
        Some((pd, dl)) => forall|day: Weekday, t: NaiveTime|
            t.wf() ==> (schedule_active(times, day, t) <==> grid_covers(
                p,
                pd,
                dl,
                day.day_index() as int,
                t,
            )),
        None => false,
    }
}

/// The work times of a weekly grid of on/off periods (168 hours, 336 half
/// hours or 672 quarter hours, Monday first): one per distinct pair of
/// start and stop, listing the days that have a run of "on" periods with
/// those bounds. A run that reaches the end of a day stops at 23:59:59.
/// `None` for a grid of any other length.
pub fn work_times_from_grid(periods: &Vec<bool>) -> (r: Option<Vec<WorkTime>>)
    ensures
        r is Some <==> grid_layout(periods@.len()) is Some,
        r matches Some(times) ==> describes_grid(work_time_views(times@), periods@),
        r matches Some(times) ==> grid_work_times(periods@, work_time_views(times@)),
{
    let n = periods.len();
    let (period_secs, day_length): (u32, usize) = if n == 168 {
        (3600, 24)
    } else if n == 336 {
        (1800, 48)
    } else if n == 672 {
        (900, 96)
    } else {
        return None;
    };
    let runs = on_runs(periods, day_length);
    let times = work_times_of_runs(&runs, period_secs, day_length, Ghost(periods@));
    proof {
        let pd = period_secs as int;
        let dl = day_length as int;
        assert(grid_runs(periods@, dl, runs@));
        let parts = runs@.map_values(|r: (usize, usize)| run_part(pd, dl, r));
        assert(parts =~= runs@.map_values(
            |r: (usize, usize)| run_part(period_secs as int, day_length as int, r),
        ));
        assert(work_time_views(times@) == merge_parts(parts));
        assert(grid_layout(periods@.len()) == Some((pd, dl)));
        assert(runs_give(periods@, pd, dl, runs@, work_time_views(times@)));
        assert(exists|rs: Seq<(usize, usize)>| #[trigger] runs_give(periods@, pd, dl, rs, work_time_views(times@)));
        assert(grid_layout(periods@.len())->Some_0.0 == pd);
        assert(grid_layout(periods@.len())->Some_0.1 == dl);
        assert(grid_work_times(periods@, work_time_views(times@)));
        assert forall|day: Weekday, t: NaiveTime| t.wf() implies (schedule_active(
            work_time_views(times@),
            day,
            t,
        ) <==> grid_covers(periods@, pd, dl, day.day_index() as int, t)) by {
            lemma_runs_cover_grid(periods@, pd, dl, runs@, day, t);
        }
    }
    Some(times)
}

} // verus!
