use vstd::prelude::*;

use crate::errors::ServerError;
use crate::store::Store;
use crate::table::{strictly_ascending, Linked, MAX_ID};
use crate::dates::{change_date_text, reformatted_date, stored_date_text, stored_to_display};
use crate::records::NewUser;
use crate::controllers::donations::{donation_displayable, DonationsControl};

verus! {

/// A user as shown, with the date as text.
#[derive(Debug)]
pub struct UsersControl {
    pub id: i32,
    pub nickname: String,
    pub registration_date: String,
}

/// A user can be shown where its stored date stands for a date.
pub open spec fn user_displayable(store: &Store, row: NewUser) -> bool {
    stored_date_text(row.registration_date as int) is Some
}

impl UsersControl {
    /// Whether this is user `id`, stored as `row`, as shown.
    pub open spec fn shows(&self, store: &Store, id: i32, row: NewUser) -> bool {
        &&& self.id == id
        &&& self.nickname@ == row.nickname@
        &&& stored_date_text(row.registration_date as int) == Some(self.registration_date@)
    }

    /// User `id`, stored as `row`, as shown; fails with `InvalidDate`
    /// where the stored date stands for no date.
    pub fn from_row(store: &Store, id: i32, row: &NewUser) -> (r: Result<Self, ServerError>)
        requires
            store.wf(),
        ensures
            r is Ok <==> user_displayable(store, *row),
            r matches Ok(v) ==> v.shows(store, id, *row),
            r matches Err(e) ==> e is InvalidDate,
    {
        let registration_date = match stored_to_display(row.registration_date) {
            Ok(s) => s,
            Err(e) => return Err(e),
        };
        Ok(UsersControl { id, nickname: row.nickname.clone(), registration_date })
    }

    /// Rewrites the shown date from pattern `from` to pattern `to`; where it
    /// does not read with `from`, or cannot be written with `to`, fails with
    /// `InvalidDate` and changes nothing.
    pub fn change_date_format(&mut self, from: &str, to: &str) -> (r: Result<(), ServerError>)
        ensures
            final(self).id == old(self).id,
            final(self).nickname == old(self).nickname,
            match reformatted_date(old(self).registration_date@, from@, to@) {
                Some(t) => r is Ok && final(self).registration_date@ == t,
                None => r matches Err(e) && e is InvalidDate && final(self).registration_date == old(self).registration_date,
            },
    {
        change_date_text(&mut self.registration_date, from, to)
    }

    /// Every row, in ascending order of identifier, as shown; fails where a
    /// row cannot be shown.
    pub fn get_users(store: &Store) -> (r: Result<Vec<UsersControl>, ServerError>)
        requires
            store.wf(),
        ensures
            r is Ok <==> forall|i: int| 0 <= i < store.users().len() ==> #[trigger] user_displayable(store, store.users().entries()[i]),
            r matches Ok(v) ==> v@.len() == store.users().len() && (forall|i: int| 0 <= i < v@.len() ==> #[trigger] v@[i].shows(
                store,
                store.users().ids()[i],
                store.users().entries()[i],
            )) && (forall|i: int, j: int| 0 <= i < j < v@.len() ==> v@[i].id < v@[j].id),
            r matches Err(e) ==> e is InvalidDate,
    {
        let t = store.user_table();
        proof {
            t.lemma_wf();
        }
        let n = t.size();
        let mut out: Vec<UsersControl> = Vec::new();
        let mut k: usize = 0;
        while k < n
            invariant
                store.wf(),
                *t == store.users(),
                n == t.len(),
                t.ids().len() == t.entries().len(),
                strictly_ascending(t.ids()),
                k <= n,
                out@.len() == k,
                forall|i: int| 0 <= i < k ==> #[trigger] out@[i].shows(store, t.ids()[i], t.entries()[i]),
                forall|i: int| 0 <= i < k ==> #[trigger] user_displayable(store, t.entries()[i]),
            decreases n - k,
        {
            proof {
            }
            match UsersControl::from_row(store, t.id_at(k), t.row_at(k)) {
                Ok(v) => out.push(v),
                Err(e) => return Err(e),
            }
            k = k + 1;
        }
        proof {
            assert forall|i: int, j: int| 0 <= i < j < out@.len() implies out@[i].id < out@[j].id by {
                assert(out@[i].shows(store, t.ids()[i], t.entries()[i]));
                assert(out@[j].shows(store, t.ids()[j], t.entries()[j]));
            }
        }
        Ok(out)
    }

    /// Row `id` as shown; fails with not-found where there is no such row.
    pub fn get_user_by_id(store: &Store, id: i32) -> (r: Result<UsersControl, ServerError>)
        requires
            store.wf(),
        ensures
            !store.users().contains(id) ==> (r matches Err(e) && e.is_not_found()),
            store.users().contains(id) ==> (r is Ok <==> user_displayable(store, store.users().row(id))),
            r matches Ok(v) ==> store.users().contains(id) && v.shows(store, id, store.users().row(id)),
            store.users().contains(id) ==> (r matches Err(e) ==> e is InvalidDate),
    {
        let t = store.user_table();
        match t.position(id) {
            None => Err(ServerError::not_found()),
            Some(k) => {
                proof {
                    t.lemma_wf();
                    t.lemma_index_of(k as int);
                }
                UsersControl::from_row(store, id, t.row_at(k))
            },
        }
    }

    /// Adds a row; fails with `InvalidForeignKey` where one of its foreign
    /// keys names no row, and leaves the store as it was on any failure.
    pub fn add_user(store: &mut Store, row: NewUser) -> (r: Result<(), ServerError>)
        requires
            old(store).wf(),
        ensures
            final(store).wf(),
            r is Ok <==> old(store).user_links_ok(row) && old(store).users().next() < MAX_ID,
            r matches Err(e) ==> *final(store) == *old(store) && if old(store).user_links_ok(row) {
                e is InternalError
            } else {
                e is InvalidForeignKey
            },
            r is Ok ==> final(store).users().ids() == old(store).users().ids().push(old(store).users().next() as i32)
                && final(store).users().entries() == old(store).users().entries().push(row)
                && final(store).same_except(old(store), 4),
    {
        match store.insert_user(row) {
            Ok(_) => Ok(()),
            Err(e) => Err(e),
        }
    }

    /// Replaces every field of row `id`; fails with not-found where there is
    /// no such row, with `InvalidForeignKey` where a foreign key of `row`
    /// names no row, and leaves the store as it was on any failure.
    pub fn update_user(store: &mut Store, id: i32, row: NewUser) -> (r: Result<(), ServerError>)
        requires
            old(store).wf(),
        ensures
            final(store).wf(),
            !old(store).users().contains(id) ==> (r matches Err(e) && e.is_not_found()),
            old(store).users().contains(id) && !old(store).user_links_ok(row) ==> (r matches Err(e)
                && e is InvalidForeignKey),
            old(store).users().contains(id) && old(store).user_links_ok(row) ==> r is Ok,
            r is Err ==> *final(store) == *old(store),
            r is Ok ==> final(store).users().ids() == old(store).users().ids()
                && final(store).users().entries() == old(store).users().entries().update(
                old(store).users().ids().index_of(id),
                row,
            ) && final(store).same_except(old(store), 4),
    {
        store.replace_user(id, row)
    }

    /// Removes row `id`; fails with not-found where there is no such row,
    /// with `InvalidForeignKey` where another row refers to it, and leaves
    /// the store as it was on any failure.
    pub fn delete_users(store: &mut Store, id: i32) -> (r: Result<(), ServerError>)
        requires
            old(store).wf(),
        ensures
            final(store).wf(),
            !old(store).users().contains(id) ==> (r matches Err(e) && e.is_not_found()),
            old(store).users().contains(id) && old(store).user_referenced(id) ==> (r matches Err(e)
                && e is InvalidForeignKey),
            old(store).users().contains(id) && !old(store).user_referenced(id) ==> r is Ok,
            r is Err ==> *final(store) == *old(store),
            r is Ok ==> (final(store).users().ids(), final(store).users().entries()) == old(store).users().without(id)
                && final(store).same_except(old(store), 4),
    {
        store.remove_user(id)
    }

    /// The donations of user `id`, in ascending order of identifier, as shown; fails where one
    /// cannot be shown.
    pub fn get_donations(store: &Store, id: i32) -> (r: Result<Vec<DonationsControl>, ServerError>)
        requires
            store.wf(),
        ensures
            r is Ok <==> forall|j: int| 0 <= j < store.donations().linked(1, id).len()
                ==> #[trigger] donation_displayable(store, store.donations().linked_row(1, id, j)),
            r matches Ok(v) ==> v@.len() == store.donations().linked(1, id).len()
                && forall|j: int| 0 <= j < v@.len() ==> #[trigger] v@[j].shows(
                store,
                store.donations().linked_id(1, id, j),
                store.donations().linked_row(1, id, j),
            ),
            r matches Err(e) ==> e is InvalidDate,
    {
        let t = store.donation_table();
        let pos = t.find_linked(1, id);
        proof {
            t.lemma_wf();
            t.lemma_linked_upto(t.len(), 1, id);
        }
        let mut out: Vec<DonationsControl> = Vec::new();
        let mut j: usize = 0;
        while j < pos.len()
            invariant
                store.wf(),
                *t == store.donations(),
                pos@.len() == t.linked(1, id).len(),
                forall|q: int| 0 <= q < pos@.len() ==> pos@[q] as int == #[trigger] t.linked(1, id)[q],
                forall|q: int| 0 <= q < t.linked(1, id).len() ==> 0 <= #[trigger] t.linked(1, id)[q] < t.len(),
                t.ids().len() == t.entries().len(),
                j <= pos@.len(),
                out@.len() == j,
                forall|q: int| 0 <= q < j ==> #[trigger] out@[q].shows(store, t.linked_id(1, id, q), t.linked_row(1, id, q)),
                forall|q: int| 0 <= q < j ==> #[trigger] donation_displayable(store, t.linked_row(1, id, q)),
            decreases pos@.len() - j,
        {
            let k = pos[j];
            proof {
                assert(0 <= t.linked(1, id)[j as int] < t.len());
                assert(store.games().contains(t.entries()[k as int].link(0)));
                assert(store.users().contains(t.entries()[k as int].link(1)));
            }
            match DonationsControl::make_donations_control(store, t.id_at(k), t.row_at(k)) {
                Ok(v) => out.push(v),
                Err(e) => {
                    proof {
                        assert(!donation_displayable(store, t.linked_row(1, id, j as int)));
                    }
                    return Err(e);
                },
            }
            j = j + 1;
        }
        Ok(out)
    }

    /// The identifier with the donations of user `id`; fails where one cannot be shown.
    pub fn get_statistic(store: &Store, id: i32) -> (r: Result<(i32, Vec<DonationsControl>), ServerError>)
        requires
            store.wf(),
        ensures
            r is Ok <==> forall|j: int| 0 <= j < store.donations().linked(1, id).len()
                ==> #[trigger] donation_displayable(store, store.donations().linked_row(1, id, j)),
            r matches Ok((i, v)) ==> i == id && v@.len() == store.donations().linked(1, id).len()
                && forall|j: int| 0 <= j < v@.len() ==> #[trigger] v@[j].shows(
                store,
                store.donations().linked_id(1, id, j),
                store.donations().linked_row(1, id, j),
            ),
            r matches Err(e) ==> e is InvalidDate,
    {
        match Self::get_donations(store, id) {
            Ok(v) => Ok((id, v)),
            Err(e) => Err(e),
        }
    }
}

} // verus!
