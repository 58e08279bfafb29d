use vstd::prelude::*;
use vstd::string::StringExecFns;

use crate::errors::ServerError;
use crate::store::Store;
use crate::table::{strictly_ascending, Linked, MAX_ID};
use crate::dates::{change_date_text, reformatted_date, show_date, shown_date};
use crate::records::NewJob;
use vstd::string::StrSliceExecFns;

verus! {

/// A job as shown: the game's and the member of staff's names, and the
/// work days as text (an empty last work day for a job that goes on).
#[derive(Debug)]
pub struct JobsControl {
    pub id: i32,
    pub game: String,
    pub game_id: i32,
    pub staff: String,
    pub staff_id: i32,
    pub position: String,
    pub first_work_day: String,
    pub last_work_day: String,
    pub salary: i64,
}

/// A job can be shown where its game and member of staff exist and its
/// work days are dates that exist.
pub open spec fn job_displayable(store: &Store, row: NewJob) -> bool {
    &&& store.games().contains(row.game_id)
    &&& store.staff().contains(row.staff_id)
    &&& shown_date(row.first_work_day) is Some
    &&& (row.last_work_day matches Some(d) ==> shown_date(d) is Some)
}

/// What the last work day of a job is shown as, for a shown text.
pub open spec fn reformatted_optional(s: Seq<char>, from: Seq<char>, to: Seq<char>) -> Option<Seq<char>> {
    if s.len() == 0 {
        Some(s)
    } else {
        reformatted_date(s, from, to)
    }
}

impl JobsControl {
    /// Whether this is job `id`, stored as `row`, as shown.
    pub open spec fn shows(&self, store: &Store, id: i32, row: NewJob) -> bool {
        &&& self.id == id
        &&& self.game@ == store.games().row(row.game_id).name@
        &&& self.game_id == row.game_id
        &&& self.staff@ == store.staff().row(row.staff_id).name@
        &&& self.staff_id == row.staff_id
        &&& self.position@ == row.position@
        &&& shown_date(row.first_work_day) == Some(self.first_work_day@)
        &&& match row.last_work_day {
            Some(d) => shown_date(d) == Some(self.last_work_day@),
            None => self.last_work_day@.len() == 0,
        }
        &&& self.salary == row.salary
    }

    /// Job `id`, stored as `row`, as shown, with the names of its game and
    /// member of staff as they are now; fails with `InvalidForeignKey` where
    /// either does not exist, else with `InvalidDate` where a work day does
    /// not exist.
    pub fn make_jobs_control(store: &Store, id: i32, row: &NewJob) -> (r: Result<Self, ServerError>)
        requires
            store.wf(),
        ensures
            r is Ok <==> job_displayable(store, *row),
            r matches Ok(v) ==> v.shows(store, id, *row),
            r matches Err(e) ==> if store.job_links_ok(*row) {
                e is InvalidDate
            } else {
                e is InvalidForeignKey
            },
    {
        let game = match store.game_table().get(row.game_id) {
            Some(g) => g.name.clone(),
            None => return Err(ServerError::InvalidForeignKey(String::from_str(
                "key (game_id) is not present in table \"games\"",
            ))),
        };
        let staff = match store.staff_table().get(row.staff_id) {
            Some(s) => s.name.clone(),
            None => return Err(ServerError::InvalidForeignKey(String::from_str(
                "key (staff_id) is not present in table \"staff\"",
            ))),
        };
        let first_work_day = match show_date(row.first_work_day) {
            Ok(s) => s,
            Err(e) => return Err(e),
        };
        let last_work_day = match row.last_work_day {
            Some(d) => match show_date(d) {
                Ok(s) => s,
                Err(e) => return Err(e),
            },
            None => String::new(),
        };
        Ok(
            JobsControl {
                id,
                game,
                game_id: row.game_id,
                staff,
                staff_id: row.staff_id,
                position: row.position.clone(),
                first_work_day,
                last_work_day,
                salary: row.salary,
            },
        )
    }

    /// Rewrites the shown work days from pattern `from` to pattern `to` (an
    /// empty last work day stays empty); where one does not read with
    /// `from`, or cannot be written with `to`, fails with `InvalidDate` and
    /// changes nothing.
    pub fn change_date_format(&mut self, from: &str, to: &str) -> (r: Result<(), ServerError>)
        ensures
            final(self).id == old(self).id,
            final(self).game == old(self).game,
            final(self).game_id == old(self).game_id,
            final(self).staff == old(self).staff,
            final(self).staff_id == old(self).staff_id,
            final(self).position == old(self).position,
            final(self).salary == old(self).salary,
            match (
                reformatted_date(old(self).first_work_day@, from@, to@),
                reformatted_optional(old(self).last_work_day@, from@, to@),
            ) {
                (Some(a), Some(b)) => r is Ok && final(self).first_work_day@ == a
                    && final(self).last_work_day@ == b,
                _ => r matches Err(e) && e is InvalidDate && final(self).first_work_day
                    == old(self).first_work_day && final(self).last_work_day == old(self).last_work_day,
            },
    {
        let mut first = self.first_work_day.clone();
        match change_date_text(&mut first, from, to) {
            Ok(()) => {},
            Err(e) => return Err(e),
        }
        let mut last = self.last_work_day.clone();
        if self.last_work_day.as_str().unicode_len() != 0 {
            match change_date_text(&mut last, from, to) {
                Ok(()) => {},
                Err(e) => return Err(e),
            }
        }
        self.first_work_day = first;
        self.last_work_day = last;
        Ok(())
    }

    /// Every row, in ascending order of identifier, as shown; fails where a
    /// row cannot be shown.
    pub fn get_jobs(store: &Store) -> (r: Result<Vec<JobsControl>, ServerError>)
        requires
            store.wf(),
        ensures
            r is Ok <==> forall|i: int| 0 <= i < store.jobs().len() ==> #[trigger] job_displayable(store, store.jobs().entries()[i]),
            r matches Ok(v) ==> v@.len() == store.jobs().len() && (forall|i: int| 0 <= i < v@.len() ==> #[trigger] v@[i].shows(
                store,
                store.jobs().ids()[i],
                store.jobs().entries()[i],
            )) && (forall|i: int, j: int| 0 <= i < j < v@.len() ==> v@[i].id < v@[j].id),
            r matches Err(e) ==> e is InvalidDate,
    {
        let t = store.job_table();
        proof {
            t.lemma_wf();
        }
        let n = t.size();
        let mut out: Vec<JobsControl> = Vec::new();
        let mut k: usize = 0;
        while k < n
            invariant
                store.wf(),
                *t == store.jobs(),
                n == t.len(),
                t.ids().len() == t.entries().len(),
                strictly_ascending(t.ids()),
                k <= n,
                out@.len() == k,
                forall|i: int| 0 <= i < k ==> #[trigger] out@[i].shows(store, t.ids()[i], t.entries()[i]),
                forall|i: int| 0 <= i < k ==> #[trigger] job_displayable(store, t.entries()[i]),
            decreases n - k,
        {
            proof {
            assert(store.games().contains(t.entries()[k as int].link(0)));
            assert(store.staff().contains(t.entries()[k as int].link(1)));
            }
            match JobsControl::make_jobs_control(store, t.id_at(k), t.row_at(k)) {
                Ok(v) => out.push(v),
                Err(e) => return Err(e),
            }
            k = k + 1;
        }
        proof {
            assert forall|i: int, j: int| 0 <= i < j < out@.len() implies out@[i].id < out@[j].id by {
                assert(out@[i].shows(store, t.ids()[i], t.entries()[i]));
                assert(out@[j].shows(store, t.ids()[j], t.entries()[j]));
            }
        }
        Ok(out)
    }

    /// Row `id` as shown; fails with not-found where there is no such row.
    pub fn get_job_by_id(store: &Store, id: i32) -> (r: Result<JobsControl, ServerError>)
        requires
            store.wf(),
        ensures
            !store.jobs().contains(id) ==> (r matches Err(e) && e.is_not_found()),
            store.jobs().contains(id) ==> (r is Ok <==> job_displayable(store, store.jobs().row(id))),
            r matches Ok(v) ==> store.jobs().contains(id) && v.shows(store, id, store.jobs().row(id)),
            store.jobs().contains(id) ==> (r matches Err(e) ==> e is InvalidDate),
    {
        let t = store.job_table();
        match t.position(id) {
            None => Err(ServerError::not_found()),
            Some(k) => {
                proof {
                    t.lemma_wf();
                    t.lemma_index_of(k as int);
                    assert(store.games().contains(t.entries()[k as int].link(0)));
                    assert(store.staff().contains(t.entries()[k as int].link(1)));
                }
                JobsControl::make_jobs_control(store, id, t.row_at(k))
            },
        }
    }

    /// Adds a row; fails with `InvalidForeignKey` where one of its foreign
    /// keys names no row, and leaves the store as it was on any failure.
    pub fn add_job(store: &mut Store, row: NewJob) -> (r: Result<(), ServerError>)
        requires
            old(store).wf(),
        ensures
            final(store).wf(),
            r is Ok <==> old(store).job_links_ok(row) && old(store).jobs().next() < MAX_ID,
            r matches Err(e) ==> *final(store) == *old(store) && if old(store).job_links_ok(row) {
                e is InternalError
            } else {
                e is InvalidForeignKey
            },
            r is Ok ==> final(store).jobs().ids() == old(store).jobs().ids().push(old(store).jobs().next() as i32)
                && final(store).jobs().entries() == old(store).jobs().entries().push(row)
                && final(store).same_except(old(store), 3),
    {
        match store.insert_job(row) {
            Ok(_) => Ok(()),
            Err(e) => Err(e),
        }
    }

    /// Replaces every field of row `id`; fails with not-found where there is
    /// no such row, with `InvalidForeignKey` where a foreign key of `row`
    /// names no row, and leaves the store as it was on any failure.
    pub fn update_job(store: &mut Store, id: i32, row: NewJob) -> (r: Result<(), ServerError>)
        requires
            old(store).wf(),
        ensures
            final(store).wf(),
            !old(store).jobs().contains(id) ==> (r matches Err(e) && e.is_not_found()),
            old(store).jobs().contains(id) && !old(store).job_links_ok(row) ==> (r matches Err(e)
                && e is InvalidForeignKey),
            old(store).jobs().contains(id) && old(store).job_links_ok(row) ==> r is Ok,
            r is Err ==> *final(store) == *old(store),
            r is Ok ==> final(store).jobs().ids() == old(store).jobs().ids()
                && final(store).jobs().entries() == old(store).jobs().entries().update(
                old(store).jobs().ids().index_of(id),
                row,
            ) && final(store).same_except(old(store), 3),
    {
        store.replace_job(id, row)
    }

    /// Removes row `id`; fails with not-found where there is no such row,
    /// with `InvalidForeignKey` where another row refers to it, and leaves
    /// the store as it was on any failure.
    pub fn delete_job(store: &mut Store, id: i32) -> (r: Result<(), ServerError>)
        requires
            old(store).wf(),
        ensures
            final(store).wf(),
            !old(store).jobs().contains(id) ==> (r matches Err(e) && e.is_not_found()),
            old(store).jobs().contains(id) && old(store).job_referenced(id) ==> (r matches Err(e)
                && e is InvalidForeignKey),
            old(store).jobs().contains(id) && !old(store).job_referenced(id) ==> r is Ok,
            r is Err ==> *final(store) == *old(store),
            r is Ok ==> (final(store).jobs().ids(), final(store).jobs().entries()) == old(store).jobs().without(id)
                && final(store).same_except(old(store), 3),
    {
        store.remove_job(id)
    }
}

} // verus!
