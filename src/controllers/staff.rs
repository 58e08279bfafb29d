use vstd::prelude::*;

use crate::errors::ServerError;
use crate::store::Store;
use crate::table::{strictly_ascending, Linked, MAX_ID};
use crate::dates::{change_date_text, reformatted_date, stored_date_text, stored_to_display};
use crate::records::NewStaff;
use crate::controllers::jobs::{job_displayable, JobsControl};

verus! {

/// A member of staff as shown, with the date as text.
#[derive(Debug)]
pub struct StaffControl {
    pub id: i32,
    pub name: String,
    pub birth: String,
}

/// A member of staff can be shown where its stored date stands for a date.
pub open spec fn staff_displayable(store: &Store, row: NewStaff) -> bool {
    stored_date_text(row.birth as int) is Some
}

impl StaffControl {
    /// Whether this is member of staff `id`, stored as `row`, as shown.
    pub open spec fn shows(&self, store: &Store, id: i32, row: NewStaff) -> bool {
        &&& self.id == id
        &&& self.name@ == row.name@
        &&& stored_date_text(row.birth as int) == Some(self.birth@)
    }

    /// Member of staff `id`, stored as `row`, as shown; fails with `InvalidDate`
    /// where the stored date stands for no date.
    pub fn from_row(store: &Store, id: i32, row: &NewStaff) -> (r: Result<Self, ServerError>)
        requires
            store.wf(),
        ensures
            r is Ok <==> staff_displayable(store, *row),
            r matches Ok(v) ==> v.shows(store, id, *row),
            r matches Err(e) ==> e is InvalidDate,
    {
        let birth = match stored_to_display(row.birth) {
            Ok(s) => s,
            Err(e) => return Err(e),
        };
        Ok(StaffControl { id, name: row.name.clone(), birth })
    }

    /// Rewrites the shown date from pattern `from` to pattern `to`; where it
    /// does not read with `from`, or cannot be written with `to`, fails with
    /// `InvalidDate` and changes nothing.
    pub fn change_date_format(&mut self, from: &str, to: &str) -> (r: Result<(), ServerError>)
        ensures
            final(self).id == old(self).id,
            final(self).name == old(self).name,
            match reformatted_date(old(self).birth@, from@, to@) {
                Some(t) => r is Ok && final(self).birth@ == t,
                None => r matches Err(e) && e is InvalidDate && final(self).birth == old(self).birth,
            },
    {
        change_date_text(&mut self.birth, from, to)
    }

    /// Every row, in ascending order of identifier, as shown; fails where a
    /// row cannot be shown.
    pub fn get_staff(store: &Store) -> (r: Result<Vec<StaffControl>, ServerError>)
        requires
            store.wf(),
        ensures
            r is Ok <==> forall|i: int| 0 <= i < store.staff().len() ==> #[trigger] staff_displayable(store, store.staff().entries()[i]),
            r matches Ok(v) ==> v@.len() == store.staff().len() && (forall|i: int| 0 <= i < v@.len() ==> #[trigger] v@[i].shows(
                store,
                store.staff().ids()[i],
                store.staff().entries()[i],
            )) && (forall|i: int, j: int| 0 <= i < j < v@.len() ==> v@[i].id < v@[j].id),
            r matches Err(e) ==> e is InvalidDate,
    {
        let t = store.staff_table();
        proof {
            t.lemma_wf();
        }
        let n = t.size();
        let mut out: Vec<StaffControl> = Vec::new();
        let mut k: usize = 0;
        while k < n
            invariant
                store.wf(),
                *t == store.staff(),
                n == t.len(),
                t.ids().len() == t.entries().len(),
                strictly_ascending(t.ids()),
                k <= n,
                out@.len() == k,
                forall|i: int| 0 <= i < k ==> #[trigger] out@[i].shows(store, t.ids()[i], t.entries()[i]),
                forall|i: int| 0 <= i < k ==> #[trigger] staff_displayable(store, t.entries()[i]),
            decreases n - k,
        {
            proof {
            }
            match StaffControl::from_row(store, t.id_at(k), t.row_at(k)) {
                Ok(v) => out.push(v),
                Err(e) => return Err(e),
            }
            k = k + 1;
        }
        proof {
            assert forall|i: int, j: int| 0 <= i < j < out@.len() implies out@[i].id < out@[j].id by {
                assert(out@[i].shows(store, t.ids()[i], t.entries()[i]));
                assert(out@[j].shows(store, t.ids()[j], t.entries()[j]));
            }
        }
        Ok(out)
    }

    /// Row `id` as shown; fails with not-found where there is no such row.
    pub fn get_staff_by_id(store: &Store, id: i32) -> (r: Result<StaffControl, ServerError>)
        requires
            store.wf(),
        ensures
            !store.staff().contains(id) ==> (r matches Err(e) && e.is_not_found()),
            store.staff().contains(id) ==> (r is Ok <==> staff_displayable(store, store.staff().row(id))),
            r matches Ok(v) ==> store.staff().contains(id) && v.shows(store, id, store.staff().row(id)),
            store.staff().contains(id) ==> (r matches Err(e) ==> e is InvalidDate),
    {
        let t = store.staff_table();
        match t.position(id) {
            None => Err(ServerError::not_found()),
            Some(k) => {
                proof {
                    t.lemma_wf();
                    t.lemma_index_of(k as int);
                }
                StaffControl::from_row(store, id, t.row_at(k))
            },
        }
    }

    /// Adds a row; fails with `InvalidForeignKey` where one of its foreign
    /// keys names no row, and leaves the store as it was on any failure.
    pub fn add_staff(store: &mut Store, row: NewStaff) -> (r: Result<(), ServerError>)
        requires
            old(store).wf(),
        ensures
            final(store).wf(),
            r is Ok <==> old(store).staff_links_ok(row) && old(store).staff().next() < MAX_ID,
            r matches Err(e) ==> *final(store) == *old(store) && if old(store).staff_links_ok(row) {
                e is InternalError
            } else {
                e is InvalidForeignKey
            },
            r is Ok ==> final(store).staff().ids() == old(store).staff().ids().push(old(store).staff().next() as i32)
                && final(store).staff().entries() == old(store).staff().entries().push(row)
                && final(store).same_except(old(store), 2),
    {
        match store.insert_staff(row) {
            Ok(_) => Ok(()),
            Err(e) => Err(e),
        }
    }

    /// Replaces every field of row `id`; fails with not-found where there is
    /// no such row, with `InvalidForeignKey` where a foreign key of `row`
    /// names no row, and leaves the store as it was on any failure.
    pub fn update_staff(store: &mut Store, id: i32, row: NewStaff) -> (r: Result<(), ServerError>)
        requires
            old(store).wf(),
        ensures
            final(store).wf(),
            !old(store).staff().contains(id) ==> (r matches Err(e) && e.is_not_found()),
            old(store).staff().contains(id) && !old(store).staff_links_ok(row) ==> (r matches Err(e)
                && e is InvalidForeignKey),
            old(store).staff().contains(id) && old(store).staff_links_ok(row) ==> r is Ok,
            r is Err ==> *final(store) == *old(store),
            r is Ok ==> final(store).staff().ids() == old(store).staff().ids()
                && final(store).staff().entries() == old(store).staff().entries().update(
                old(store).staff().ids().index_of(id),
                row,
            ) && final(store).same_except(old(store), 2),
    {
        store.replace_staff(id, row)
    }

    /// Removes row `id`; fails with not-found where there is no such row,
    /// with `InvalidForeignKey` where another row refers to it, and leaves
    /// the store as it was on any failure.
    pub fn delete_staff(store: &mut Store, id: i32) -> (r: Result<(), ServerError>)
        requires
            old(store).wf(),
        ensures
            final(store).wf(),
            !old(store).staff().contains(id) ==> (r matches Err(e) && e.is_not_found()),
            old(store).staff().contains(id) && old(store).staff_referenced(id) ==> (r matches Err(e)
                && e is InvalidForeignKey),
            old(store).staff().contains(id) && !old(store).staff_referenced(id) ==> r is Ok,
            r is Err ==> *final(store) == *old(store),
            r is Ok ==> (final(store).staff().ids(), final(store).staff().entries()) == old(store).staff().without(id)
                && final(store).same_except(old(store), 2),
    {
        store.remove_staff(id)
    }

    /// The jobs of member of staff `id`, in ascending order of identifier, as shown; fails where one
    /// cannot be shown.
    pub fn get_jobs(store: &Store, id: i32) -> (r: Result<Vec<JobsControl>, ServerError>)
        requires
            store.wf(),
        ensures
            r is Ok <==> forall|j: int| 0 <= j < store.jobs().linked(1, id).len()
                ==> #[trigger] job_displayable(store, store.jobs().linked_row(1, id, j)),
            r matches Ok(v) ==> v@.len() == store.jobs().linked(1, id).len()
                && forall|j: int| 0 <= j < v@.len() ==> #[trigger] v@[j].shows(
                store,
                store.jobs().linked_id(1, id, j),
                store.jobs().linked_row(1, id, j),
            ),
            r matches Err(e) ==> e is InvalidDate,
    {
        let t = store.job_table();
        let pos = t.find_linked(1, id);
        proof {
            t.lemma_wf();
            t.lemma_linked_upto(t.len(), 1, id);
        }
        let mut out: Vec<JobsControl> = Vec::new();
        let mut j: usize = 0;
        while j < pos.len()
            invariant
                store.wf(),
                *t == store.jobs(),
                pos@.len() == t.linked(1, id).len(),
                forall|q: int| 0 <= q < pos@.len() ==> pos@[q] as int == #[trigger] t.linked(1, id)[q],
                forall|q: int| 0 <= q < t.linked(1, id).len() ==> 0 <= #[trigger] t.linked(1, id)[q] < t.len(),
                t.ids().len() == t.entries().len(),
                j <= pos@.len(),
                out@.len() == j,
                forall|q: int| 0 <= q < j ==> #[trigger] out@[q].shows(store, t.linked_id(1, id, q), t.linked_row(1, id, q)),
                forall|q: int| 0 <= q < j ==> #[trigger] job_displayable(store, t.linked_row(1, id, q)),
            decreases pos@.len() - j,
        {
            let k = pos[j];
            proof {
                assert(0 <= t.linked(1, id)[j as int] < t.len());
                assert(store.games().contains(t.entries()[k as int].link(0)));
                assert(store.staff().contains(t.entries()[k as int].link(1)));
            }
            match JobsControl::make_jobs_control(store, t.id_at(k), t.row_at(k)) {
                Ok(v) => out.push(v),
                Err(e) => {
                    proof {
                        assert(!job_displayable(store, t.linked_row(1, id, j as int)));
                    }
                    return Err(e);
                },
            }
            j = j + 1;
        }
        Ok(out)
    }

    /// The identifier with the jobs of member of staff `id`; fails where one cannot be shown.
    pub fn get_statistic(store: &Store, id: i32) -> (r: Result<(i32, Vec<JobsControl>), ServerError>)
        requires
            store.wf(),
        ensures
            r is Ok <==> forall|j: int| 0 <= j < store.jobs().linked(1, id).len()
                ==> #[trigger] job_displayable(store, store.jobs().linked_row(1, id, j)),
            r matches Ok((i, v)) ==> i == id && v@.len() == store.jobs().linked(1, id).len()
                && forall|j: int| 0 <= j < v@.len() ==> #[trigger] v@[j].shows(
                store,
                store.jobs().linked_id(1, id, j),
                store.jobs().linked_row(1, id, j),
            ),
            r matches Err(e) ==> e is InvalidDate,
    {
        match Self::get_jobs(store, id) {
            Ok(v) => Ok((id, v)),
            Err(e) => Err(e),
        }
    }
}

} // verus!
