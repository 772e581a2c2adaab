//! The task store and its derived views.
//!
//! The store owns the task sequence, in insertion order, and the saved note
//! text. Every date-bound view (per-date listing, display ordering, overdue
//! lookup) is computed on demand and never reorders storage. Query results
//! name tasks by their current position; any structural mutation makes those
//! positions stale.

use vstd::prelude::*;

use crate::calendar::{date_before, parse_time_field, time_le, Date};
use crate::task::{models, Task, TaskModel};
use crate::text::{trim, trim_spec};

verus! {

broadcast use vstd::seq_lib::group_to_multiset_ensures;

/// The owned collection of all tasks plus the note text.
pub struct Store {
    pub tasks: Vec<Task>,
    pub notes: Vec<char>,
}

/// The mathematical value of a store.
#[verifier::ext_equal]
pub ghost struct StoreModel {
    pub tasks: Seq<TaskModel>,
    pub notes: Seq<char>,
}

impl View for Store {
    type V = StoreModel;

    open spec fn view(&self) -> StoreModel {
        StoreModel { tasks: models(self.tasks@), notes: self.notes@ }
    }
}

/// `t` with its completion flag set to `completed`.
pub open spec fn with_completed(t: TaskModel, completed: bool) -> TaskModel {
    TaskModel { completed, ..t }
}

/// `t` is filed under the calendar date `date`.
pub open spec fn on_date(t: TaskModel, date: Date) -> bool {
    t.date == Some(date)
}

/// `t` is overdue against the reference date `today`: dated strictly earlier
/// and not completed. An undated task is never overdue.
pub open spec fn is_overdue(t: TaskModel, today: Date) -> bool {
    &&& t.date is Some
    &&& date_before(t.date->0, today)
    &&& !t.completed
}

/// `r` lists exactly the positions of `tasks` whose task satisfies `pred`,
/// in increasing position order, each paired with that task's value.
pub open spec fn selects(
    tasks: Seq<TaskModel>,
    pred: spec_fn(TaskModel) -> bool,
    r: Seq<(usize, Task)>,
) -> bool {
    &&& forall|k: int|
        0 <= k < r.len() ==> 0 <= #[trigger] (r[k].0) < tasks.len() && r[k].1@ == tasks[r[k].0 as int]
            && pred(tasks[r[k].0 as int])
    &&& forall|k1: int, k2: int| 0 <= k1 < k2 < r.len() ==> (r[k1].0) < (r[k2].0)
    &&& forall|i: int|
        0 <= i < tasks.len() && pred(tasks[i]) ==> exists|k: int|
            0 <= k < r.len() && #[trigger] (r[k].0) == i
}

impl Store {
    /// An empty store.
    pub fn new() -> (r: Store)
        ensures
            r@.tasks =~= Seq::<TaskModel>::empty(),
            r@.notes =~= Seq::<char>::empty(),
    {
        Store { tasks: Vec::new(), notes: Vec::new() }
    }

    pub fn task_count(&self) -> (n: usize)
        ensures
            n == self@.tasks.len(),
    {
        self.tasks.len()
    }

    /// Replace the saved note text, leaving the tasks alone.
    pub fn set_notes(&mut self, notes: Vec<char>)
        ensures
            final(self)@.notes == notes@,
            final(self)@.tasks == old(self)@.tasks,
    {
        self.notes = notes;
    }

    /// Flip the completion flag of the task at `index`. An out-of-range
    /// index changes nothing and reports failure.
    pub fn toggle(&mut self, index: usize) -> (r: bool)
        ensures
            r == (index < old(self)@.tasks.len()),
            r ==> final(self)@.tasks =~= old(self)@.tasks.update(
                index as int,
                with_completed(
                    old(self)@.tasks[index as int],
                    !old(self)@.tasks[index as int].completed,
                ),
            ),
            r ==> final(self)@.notes == old(self)@.notes,
            !r ==> final(self)@ == old(self)@,
    {
        if index < self.tasks.len() {
            let mut t = self.tasks.remove(index);
            t.completed = !t.completed;
            self.tasks.insert(index, t);
            true
        } else {
            false
        }
    }

    /// Remove the task at `index`, shifting every later position down by
    /// one. An out-of-range index changes nothing and reports failure.
    pub fn delete(&mut self, index: usize) -> (r: bool)
        ensures
            r == (index < old(self)@.tasks.len()),
            r ==> final(self)@.tasks =~= old(self)@.tasks.remove(index as int),
            r ==> final(self)@.notes == old(self)@.notes,
            !r ==> final(self)@ == old(self)@,
    {
        if index < self.tasks.len() {
            self.tasks.remove(index);
            true
        } else {
            false
        }
    }

    /// All tasks filed under `date`, paired with their current positions, in
    /// position order. A date with no tasks yields the empty listing.
    pub fn tasks_for_date(&self, date: &Date) -> (r: Vec<(usize, Task)>)
        ensures
            selects(self@.tasks, |t: TaskModel| on_date(t, *date), r@),
    {
        let mut r: Vec<(usize, Task)> = Vec::new();
        let mut i: usize = 0;
        while i < self.tasks.len()
            invariant
                i <= self.tasks@.len(),
                forall|k: int|
                    0 <= k < r@.len() ==> 0 <= #[trigger] (r@[k].0) < i && r@[k].1@
                        == self@.tasks[r@[k].0 as int] && on_date(self@.tasks[r@[k].0 as int], *date),
                forall|k1: int, k2: int| 0 <= k1 < k2 < r@.len() ==> (r@[k1].0) < (r@[k2].0),
                forall|j: int|
                    0 <= j < i && on_date(self@.tasks[j], *date) ==> exists|k: int|
                        0 <= k < r@.len() && #[trigger] (r@[k].0) == j,
            decreases self.tasks@.len() - i,
        {
            let t = &self.tasks[i];
            let hit = match t.date {
                Some(d) => d == *date,
                None => false,
            };
            if hit {
                let ghost r0 = r@;
                r.push((i, t.clone()));
                proof {
                    assert forall|j: int|
                        0 <= j < i + 1 && on_date(self@.tasks[j], *date) implies exists|k: int|
                        0 <= k < r@.len() && #[trigger] (r@[k].0) == j by {
                        if j == i as int {
                            assert(r@[r0.len() as int].0 == i);
                        } else {
                            let k = choose|k: int|
                                0 <= k < r0.len() && #[trigger] (r0[k].0) == j;
                            assert(r@[k].0 == j);
                        }
                    }
                }
            } else {
                proof {
                    assert(!on_date(self@.tasks[i as int], *date));
                }
            }
            i = i + 1;
        }
        r
    }

    /// All overdue tasks against the reference date `today`, paired with
    /// their current positions, in position (insertion) order.
    pub fn overdue(&self, today: &Date) -> (r: Vec<(usize, Task)>)
        ensures
            selects(self@.tasks, |t: TaskModel| is_overdue(t, *today), r@),
    {
        let mut r: Vec<(usize, Task)> = Vec::new();
        let mut i: usize = 0;
        while i < self.tasks.len()
            invariant
                i <= self.tasks@.len(),
                forall|k: int|
                    0 <= k < r@.len() ==> 0 <= #[trigger] (r@[k].0) < i && r@[k].1@
                        == self@.tasks[r@[k].0 as int] && is_overdue(self@.tasks[r@[k].0 as int], *today),
                forall|k1: int, k2: int| 0 <= k1 < k2 < r@.len() ==> (r@[k1].0) < (r@[k2].0),
                forall|j: int|
                    0 <= j < i && is_overdue(self@.tasks[j], *today) ==> exists|k: int|
                        0 <= k < r@.len() && #[trigger] (r@[k].0) == j,
            decreases self.tasks@.len() - i,
        {
            let t = &self.tasks[i];
            let hit = match t.date {
                Some(d) => !t.completed && d.before(today),
                None => false,
            };
            if hit {
                let ghost r0 = r@;
                r.push((i, t.clone()));
                proof {
                    assert forall|j: int|
                        0 <= j < i + 1 && is_overdue(self@.tasks[j], *today) implies exists|k: int|
                        0 <= k < r@.len() && #[trigger] (r@[k].0) == j by {
                        if j == i as int {
                            assert(r@[r0.len() as int].0 == i);
                        } else {
                            let k = choose|k: int|
                                0 <= k < r0.len() && #[trigger] (r0[k].0) == j;
                            assert(r@[k].0 == j);
                        }
                    }
                }
            } else {
                proof {
                    assert(!is_overdue(self@.tasks[i as int], *today));
                }
            }
            i = i + 1;
        }
        r
    }
}

/// Display order: a task with a start time comes before one without; two
/// timed tasks order by their start times; two untimed tasks tie.
pub open spec fn display_le(a: TaskModel, b: TaskModel) -> bool {
    match (a.start_time, b.start_time) {
        (Some(x), Some(y)) => time_le(x, y),
        (Some(_), None) => true,
        (None, None) => true,
        (None, Some(_)) => false,
    }
}

/// Every entry of `s` is in display order with every later one: timed before
/// untimed, and start times non-decreasing.
pub open spec fn sorted_for_display(s: Seq<(usize, Task)>) -> bool {
    forall|k1: int, k2: int| 0 <= k1 < k2 < s.len() ==> display_le(s[k1].1@, s[k2].1@)
}

/// Display order always relates two tasks one way or the other.
pub proof fn lemma_display_le_total(a: TaskModel, b: TaskModel)
    ensures
        display_le(a, b) || display_le(b, a),
{
}

/// Display order is transitive.
pub proof fn lemma_display_le_trans(a: TaskModel, b: TaskModel, c: TaskModel)
    requires
        display_le(a, b),
        display_le(b, c),
    ensures
        display_le(a, c),
{
}

fn display_le_exec(a: &Task, b: &Task) -> (r: bool)
    ensures
        r == display_le(a@, b@),
{
    match (a.start_time, b.start_time) {
        (Some(x), Some(y)) => x.le(&y),
        (Some(_), None) => true,
        (None, None) => true,
        (None, Some(_)) => false,
    }
}

/// The position in display-sorted `r` at which `x` belongs: past every entry
/// it must follow, before the first it need not.
fn insert_pos(r: &Vec<(usize, Task)>, x: &Task) -> (p: usize)
    ensures
        p <= r@.len(),
        forall|k: int| 0 <= k < p ==> display_le(#[trigger] (r@[k].1@), x@),
        p < r@.len() ==> !display_le(r@[p as int].1@, x@),
{
    let mut p: usize = 0;
    while p < r.len()
        invariant
            p <= r@.len(),
            forall|k: int| 0 <= k < p ==> display_le(#[trigger] (r@[k].1@), x@),
        decreases r@.len() - p,
    {
        if !display_le_exec(&r[p].1, x) {
            return p;
        }
        p = p + 1;
    }
    p
}

/// Reorder task entries for display: entries with a start time first in
/// non-decreasing time order, entries without one after them. Nothing is
/// added or lost; ties between untimed entries carry no promise.
pub fn sort_for_display(tasks: Vec<(usize, Task)>) -> (r: Vec<(usize, Task)>)
    ensures
        r@.to_multiset() == tasks@.to_multiset(),
        sorted_for_display(r@),
{
    let mut rest = tasks;
    let mut r: Vec<(usize, Task)> = Vec::new();
    while rest.len() > 0
        invariant
            r@.to_multiset().add(rest@.to_multiset()) == tasks@.to_multiset(),
            sorted_for_display(r@),
        decreases rest@.len(),
    {
        let ghost rest0 = rest@;
        let x = rest.pop().unwrap();
        proof {
            assert(rest0.remove(rest0.len() - 1) =~= rest@);
            assert(rest0.contains(x)) by {
                assert(rest0[rest0.len() - 1] == x);
            }
            assert(rest@.to_multiset() == rest0.to_multiset().remove(x));
        }
        let p = insert_pos(&r, &x.1);
        let ghost r0 = r@;
        r.insert(p, x);
        proof {
            let pi = p as int;
            assert(r@ == r0.insert(pi, x));
            assert(r@.to_multiset() == r0.to_multiset().insert(x));
            assert(r@.to_multiset().add(rest@.to_multiset()) =~= r0.to_multiset().add(
                rest0.to_multiset(),
            ));
            assert forall|k1: int, k2: int|
                0 <= k1 < k2 < r@.len() implies display_le(r@[k1].1@, r@[k2].1@) by {
                if k1 < pi && k2 < pi {
                    assert(r@[k1] == r0[k1]);
                    assert(r@[k2] == r0[k2]);
                } else if k1 < pi && k2 == pi {
                    assert(r@[k1] == r0[k1]);
                    assert(r@[k2] == x);
                } else if k1 < pi && k2 > pi {
                    assert(r@[k1] == r0[k1]);
                    assert(r@[k2] == r0[k2 - 1]);
                } else if k1 == pi {
                    assert(r@[k1] == x);
                    assert(r@[k2] == r0[k2 - 1]);
                    assert(pi <= k2 - 1 < r0.len());
                    assert(!display_le(r0[pi].1@, x.1@));
                    lemma_display_le_total(r0[pi].1@, x.1@);
                    if k2 - 1 > pi {
                        assert(display_le(r0[pi].1@, r0[k2 - 1].1@));
                    }
                    lemma_display_le_trans(x.1@, r0[pi].1@, r0[k2 - 1].1@);
                } else {
                    assert(r@[k1] == r0[k1 - 1]);
                    assert(r@[k2] == r0[k2 - 1]);
                }
            }
        }
    }
    proof {
        vstd::multiset::lemma_multiset_empty_len(rest@.to_multiset());
        assert(rest@.to_multiset().len() == 0);
        assert(r@.to_multiset().add(rest@.to_multiset()) =~= r@.to_multiset());
    }
    r
}

/// Which pane the interaction loop shows: the scheduled per-date task table
/// or the note editor.
#[derive(Clone, Copy, PartialEq, Eq, Structural, Debug)]
pub enum ViewMode {
    Scheduled,
    Notes,
}

impl ViewMode {
    /// The other pane.
    pub fn toggled(self) -> (r: ViewMode)
        ensures
            r == (match self {
                ViewMode::Scheduled => ViewMode::Notes,
                ViewMode::Notes => ViewMode::Scheduled,
            }),
    {
        match self {
            ViewMode::Scheduled => ViewMode::Notes,
            ViewMode::Notes => ViewMode::Scheduled,
        }
    }
}

impl Store {
    /// The task entries the current pane displays: in the notes pane none;
    /// in the scheduled pane exactly the tasks filed under `date`, in
    /// display order, each under its current position.
    pub fn current_tasks(&self, mode: ViewMode, date: &Date) -> (r: Vec<(usize, Task)>)
        ensures
            mode is Notes ==> r@.len() == 0,
            mode is Scheduled ==> sorted_for_display(r@),
            mode is Scheduled ==> forall|k: int|
                0 <= k < r@.len() ==> 0 <= #[trigger] (r@[k].0) < self@.tasks.len() && r@[k].1@
                    == self@.tasks[r@[k].0 as int] && on_date(self@.tasks[r@[k].0 as int], *date),
            mode is Scheduled ==> forall|i: int|
                0 <= i < self@.tasks.len() && on_date(self@.tasks[i], *date) ==> exists|k: int|
                    0 <= k < r@.len() && #[trigger] (r@[k].0) == i,
            mode is Scheduled ==> forall|k1: int, k2: int|
                0 <= k1 < k2 < r@.len() ==> #[trigger] (r@[k1].0) != #[trigger] (r@[k2].0),
    {
        match mode {
            ViewMode::Notes => Vec::new(),
            ViewMode::Scheduled => {
                let q = self.tasks_for_date(date);
                let ghost qs = q@;
                let r = sort_for_display(q);
                proof {
                    assert forall|k: int|
                        0 <= k < r@.len() implies 0 <= #[trigger] (r@[k].0) < self@.tasks.len()
                        && r@[k].1@ == self@.tasks[r@[k].0 as int] && on_date(
                        self@.tasks[r@[k].0 as int],
                        *date,
                    ) by {
                        let pair = r@[k];
                        assert(r@.contains(pair)) by {
                            assert(r@[k] == pair);
                        }
                        assert(r@.to_multiset().count(pair) > 0);
                        assert(qs.to_multiset().count(pair) > 0);
                        assert(qs.contains(pair));
                        let m = choose|m: int| 0 <= m < qs.len() && qs[m] == pair;
                        assert((qs[m].0) == pair.0);
                    }
                    assert forall|i: int|
                        0 <= i < self@.tasks.len() && on_date(self@.tasks[i], *date)
                        implies exists|k: int| 0 <= k < r@.len() && #[trigger] (r@[k].0) == i by {
                        let m = choose|m: int| 0 <= m < qs.len() && #[trigger] (qs[m].0) == i;
                        let pair = qs[m];
                        assert(qs.contains(pair)) by {
                            assert(qs[m] == pair);
                        }
                        assert(qs.to_multiset().count(pair) > 0);
                        assert(r@.to_multiset().count(pair) > 0);
                        assert(r@.contains(pair));
                        let k = choose|k: int| 0 <= k < r@.len() && r@[k] == pair;
                        assert(r@[k].0 == i);
                    }
                    assert(qs.no_duplicates()) by {
                        assert forall|a: int, b: int|
                            0 <= a < qs.len() && 0 <= b < qs.len() && a != b implies qs[a]
                            != qs[b] by {
                            if a < b {
                                assert((qs[a].0) < (qs[b].0));
                            } else {
                                assert((qs[b].0) < (qs[a].0));
                            }
                        }
                    }
                    qs.lemma_multiset_has_no_duplicates();
                    assert forall|k1: int, k2: int|
                        0 <= k1 < k2 < r@.len() implies #[trigger] (r@[k1].0) != #[trigger] (
                    r@[k2].0) by {
                        let x1 = r@[k1];
                        let x2 = r@[k2];
                        if x1.0 == x2.0 {
                            // both entries appear in the per-date listing, whose
                            // positions carry strictly increasing store indices,
                            // so equal indices force equal pairs
                            assert(r@.contains(x1)) by {
                                assert(r@[k1] == x1);
                            }
                            assert(r@.to_multiset().count(x1) > 0);
                            assert(qs.to_multiset().count(x1) > 0);
                            assert(qs.contains(x1));
                            assert(r@.contains(x2)) by {
                                assert(r@[k2] == x2);
                            }
                            assert(r@.to_multiset().count(x2) > 0);
                            assert(qs.to_multiset().count(x2) > 0);
                            assert(qs.contains(x2));
                            let m1 = choose|m: int| 0 <= m < qs.len() && qs[m] == x1;
                            let m2 = choose|m: int| 0 <= m < qs.len() && qs[m] == x2;
                            if m1 < m2 {
                                assert((qs[m1].0) < (qs[m2].0));
                            } else if m2 < m1 {
                                assert((qs[m2].0) < (qs[m1].0));
                            }
                            assert(x1 == x2);
                            // an equal pair at two positions counts twice in the
                            // multiset, yet the listing holds it exactly once
                            let s1 = r@.remove(k1);
                            assert(s1[k2 - 1] == x1);
                            assert(s1.contains(x1)) by {
                                assert(s1[k2 - 1] == x1);
                            }
                            assert(s1.to_multiset() == r@.to_multiset().remove(x1));
                            assert(s1.to_multiset().count(x1) > 0);
                            assert(r@.to_multiset().count(x1) >= 2) by {
                                broadcast use vstd::multiset::group_multiset_axioms;

                                assert(r@.to_multiset().remove(x1).count(x1) == r@.to_multiset().count(x1) - 1);
                            }
                            assert(qs.to_multiset().count(x1) == 1);
                            assert(false);
                        }
                    }
                }
                r
            },
        }
    }

    /// Add or edit a task. Without an index a new, uncompleted task with the
    /// trimmed content, the given date and the parsed time fields is
    /// appended; with one the task at that position keeps its date and
    /// completion flag and takes the new content and times. Content that
    /// trims to nothing rejects the whole write, and an out-of-range index
    /// writes nothing; both leave the store unchanged and report failure.
    pub fn upsert(
        &mut self,
        index: Option<usize>,
        content: &Vec<char>,
        date: Option<Date>,
        start_field: &Vec<char>,
        end_field: &Vec<char>,
    ) -> (r: bool)
        ensures
            trim_spec(content@).len() == 0 ==> !r && final(self)@ == old(self)@,
            trim_spec(content@).len() > 0 && index is None ==> r && final(self)@.notes == old(
                self,
            )@.notes && final(self)@.tasks =~= old(self)@.tasks.push(
                TaskModel {
                    content: trim_spec(content@),
                    completed: false,
                    date,
                    start_time: parse_time_field(start_field@),
                    end_time: parse_time_field(end_field@),
                },
            ),
            trim_spec(content@).len() > 0 && index is Some && index->0 < old(self)@.tasks.len()
                ==> r && final(self)@.notes == old(self)@.notes && final(self)@.tasks =~= old(
                self,
            )@.tasks.update(
                index->0 as int,
                TaskModel {
                    content: trim_spec(content@),
                    completed: old(self)@.tasks[index->0 as int].completed,
                    date: old(self)@.tasks[index->0 as int].date,
                    start_time: parse_time_field(start_field@),
                    end_time: parse_time_field(end_field@),
                },
            ),
            trim_spec(content@).len() > 0 && index is Some && index->0 >= old(self)@.tasks.len()
                ==> !r && final(self)@ == old(self)@,
    {
        let trimmed = trim(content);
        if trimmed.len() == 0 {
            return false;
        }
        let start_time = crate::calendar::parse_field(start_field);
        let end_time = crate::calendar::parse_field(end_field);
        match index {
            None => {
                self.tasks.push(
                    Task { content: trimmed, completed: false, date, start_time, end_time },
                );
                true
            },
            Some(i) => {
                if i < self.tasks.len() {
                    let mut t = self.tasks.remove(i);
                    t.content = trimmed;
                    t.start_time = start_time;
                    t.end_time = end_time;
                    self.tasks.insert(i, t);
                    true
                } else {
                    false
                }
            },
        }
    }
}

/// Toggling the completion flag at one position twice restores the task
/// sequence: against `Store::toggle`'s contract, two toggles at a valid
/// index return every task to its first state.
pub proof fn lemma_toggle_twice(s0: Seq<TaskModel>, i: int)
    requires
        0 <= i < s0.len(),
    ensures
        ({
            let s1 = s0.update(i, with_completed(s0[i], !s0[i].completed));
            let s2 = s1.update(i, with_completed(s1[i], !s1[i].completed));
            s2 =~= s0
        }),
{
    let s1 = s0.update(i, with_completed(s0[i], !s0[i].completed));
    let s2 = s1.update(i, with_completed(s1[i], !s1[i].completed));
    assert(s2[i] =~= s0[i]);
}

/// The row selected after stepping down from `selected` among `count` rows:
/// the next row, wrapping past the last to the first. Without rows the
/// selection stays put.
pub fn next_selection(selected: usize, count: usize) -> (r: usize)
    ensures
        count == 0 ==> r == selected,
        count > 0 ==> r == (selected + 1) as int % count as int,
{
    if count == 0 {
        selected
    } else {
        let s = selected % count;
        proof {
            vstd::arithmetic::div_mod::lemma_add_mod_noop(selected as int, 1int, count as int);
            if count > 1 {
                vstd::arithmetic::div_mod::lemma_small_mod(1nat, count as nat);
            } else {
                vstd::arithmetic::div_mod::lemma_mod_self_0(1int);
            }
            if s + 1 < count {
                vstd::arithmetic::div_mod::lemma_small_mod((s + 1) as nat, count as nat);
            } else {
                vstd::arithmetic::div_mod::lemma_mod_self_0(count as int);
            }
        }
        if s + 1 == count {
            0
        } else {
            s + 1
        }
    }
}

/// The row selected after stepping up from `selected` among `count` rows:
/// the previous row, wrapping past the first to the last. Without rows the
/// selection stays put.
pub fn prev_selection(selected: usize, count: usize) -> (r: usize)
    ensures
        count == 0 ==> r == selected,
        count > 0 && selected == 0 ==> r == count - 1,
        count > 0 && selected > 0 ==> r == selected - 1,
{
    if count == 0 {
        selected
    } else if selected == 0 {
        count - 1
    } else {
        selected - 1
    }
}

/// How many of the listed entries are completed.
pub open spec fn completed_count_spec(s: Seq<(usize, Task)>) -> int
    decreases s.len(),
{
    if s.len() == 0 {
        0
    } else {
        completed_count_spec(s.drop_last()) + if s.last().1@.completed {
            1int
        } else {
            0int
        }
    }
}

/// Count the completed entries of a listing.
pub fn count_completed(entries: &Vec<(usize, Task)>) -> (n: usize)
    ensures
        n == completed_count_spec(entries@),
{
    let mut n: usize = 0;
    let mut i: usize = 0;
    while i < entries.len()
        invariant
            i <= entries@.len(),
            n <= i,
            n == completed_count_spec(entries@.subrange(0, i as int)),
        decreases entries@.len() - i,
    {
        proof {
            assert(entries@.subrange(0, i + 1).drop_last() =~= entries@.subrange(0, i as int));
            assert(entries@.subrange(0, i + 1).last() == entries@[i as int]);
        }
        if entries[i].1.completed {
            n = n + 1;
        }
        i = i + 1;
    }
    proof {
        assert(entries@.subrange(0, entries@.len() as int) =~= entries@);
    }
    n
}

} // verus!
