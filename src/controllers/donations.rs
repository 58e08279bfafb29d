use vstd::prelude::*;
use vstd::string::StringExecFns;

use crate::errors::ServerError;
use crate::store::Store;
use crate::table::{strictly_ascending, Linked, MAX_ID};
use crate::dates::{change_timestamp_text, reformatted_timestamp, show_timestamp, shown_timestamp};
use crate::records::NewDonation;

verus! {

/// A donation as shown: the user's nickname, the game's name, and the time
/// as text.
#[derive(Debug)]
pub struct DonationsControl {
    pub id: i32,
    pub user: String,
    pub user_id: i32,
    pub game: String,
    pub game_id: i32,
    pub amount: i64,
    pub donation_time: String,
}

/// A donation can be shown where its user and game exist and its time is a
/// valid one.
pub open spec fn donation_displayable(store: &Store, row: NewDonation) -> bool {
    &&& store.games().contains(row.game_id)
    &&& store.users().contains(row.user_id)
    &&& shown_timestamp(row.donation_time) is Some
}

impl DonationsControl {
    /// Whether this is donation `id`, stored as `row`, as shown.
    pub open spec fn shows(&self, store: &Store, id: i32, row: NewDonation) -> bool {
        &&& self.id == id
        &&& self.user@ == store.users().row(row.user_id).nickname@
        &&& self.user_id == row.user_id
        &&& self.game@ == store.games().row(row.game_id).name@
        &&& self.game_id == row.game_id
        &&& self.amount == row.amount
        &&& shown_timestamp(row.donation_time) == Some(self.donation_time@)
    }

    /// Donation `id`, stored as `row`, as shown, with the user's nickname and
    /// the game's name as they are now; fails with `InvalidForeignKey` where
    /// either does not exist, else with `InvalidDate` where the time is not
    /// a valid one.
    pub fn make_donations_control(store: &Store, id: i32, row: &NewDonation) -> (r: Result<Self, ServerError>)
        requires
            store.wf(),
        ensures
            r is Ok <==> donation_displayable(store, *row),
            r matches Ok(v) ==> v.shows(store, id, *row),
            r matches Err(e) ==> if store.donation_links_ok(*row) {
                e is InvalidDate
            } else {
                e is InvalidForeignKey
            },
    {
        let game = match store.game_table().get(row.game_id) {
            Some(g) => g.name.clone(),
            None => return Err(ServerError::InvalidForeignKey(String::from_str(
                "key (game_id) is not present in table \"games\"",
            ))),
        };
        let user = match store.user_table().get(row.user_id) {
            Some(u) => u.nickname.clone(),
            None => return Err(ServerError::InvalidForeignKey(String::from_str(
                "key (user_id) is not present in table \"users\"",
            ))),
        };
        let donation_time = match show_timestamp(row.donation_time) {
            Ok(s) => s,
            Err(e) => return Err(e),
        };
        Ok(
            DonationsControl {
                id,
                user,
                user_id: row.user_id,
                game,
                game_id: row.game_id,
                amount: row.amount,
                donation_time,
            },
        )
    }

    /// Rewrites the shown time from pattern `from` to pattern `to`; where it
    /// does not read with `from`, or cannot be written with `to`, fails with
    /// `InvalidDate` and changes nothing.
    pub fn change_date_format(&mut self, from: &str, to: &str) -> (r: Result<(), ServerError>)
        ensures
            final(self).id == old(self).id,
            final(self).user == old(self).user,
            final(self).user_id == old(self).user_id,
            final(self).game == old(self).game,
            final(self).game_id == old(self).game_id,
            final(self).amount == old(self).amount,
            match reformatted_timestamp(old(self).donation_time@, from@, to@) {
                Some(t) => r is Ok && final(self).donation_time@ == t,
                None => r matches Err(e) && e is InvalidDate && final(self).donation_time
                    == old(self).donation_time,
            },
    {
        change_timestamp_text(&mut self.donation_time, from, to)
    }

    /// Every row, in ascending order of identifier, as shown; fails where a
    /// row cannot be shown.
    pub fn get_donations(store: &Store) -> (r: Result<Vec<DonationsControl>, ServerError>)
        requires
            store.wf(),
        ensures
            r is Ok <==> forall|i: int| 0 <= i < store.donations().len() ==> #[trigger] donation_displayable(store, store.donations().entries()[i]),
            r matches Ok(v) ==> v@.len() == store.donations().len() && (forall|i: int| 0 <= i < v@.len() ==> #[trigger] v@[i].shows(
                store,
                store.donations().ids()[i],
                store.donations().entries()[i],
            )) && (forall|i: int, j: int| 0 <= i < j < v@.len() ==> v@[i].id < v@[j].id),
            r matches Err(e) ==> e is InvalidDate,
    {
        let t = store.donation_table();
        proof {
            t.lemma_wf();
        }
        let n = t.size();
        let mut out: Vec<DonationsControl> = Vec::new();
        let mut k: usize = 0;
        while k < n
            invariant
                store.wf(),
                *t == store.donations(),
                n == t.len(),
                t.ids().len() == t.entries().len(),
                strictly_ascending(t.ids()),
                k <= n,
                out@.len() == k,
                forall|i: int| 0 <= i < k ==> #[trigger] out@[i].shows(store, t.ids()[i], t.entries()[i]),
                forall|i: int| 0 <= i < k ==> #[trigger] donation_displayable(store, t.entries()[i]),
            decreases n - k,
        {
            proof {
            assert(store.games().contains(t.entries()[k as int].link(0)));
            assert(store.users().contains(t.entries()[k as int].link(1)));
            }
            match DonationsControl::make_donations_control(store, t.id_at(k), t.row_at(k)) {
                Ok(v) => out.push(v),
                Err(e) => return Err(e),
            }
            k = k + 1;
        }
        proof {
            assert forall|i: int, j: int| 0 <= i < j < out@.len() implies out@[i].id < out@[j].id by {
                assert(out@[i].shows(store, t.ids()[i], t.entries()[i]));
                assert(out@[j].shows(store, t.ids()[j], t.entries()[j]));
            }
        }
        Ok(out)
    }

    /// Row `id` as shown; fails with not-found where there is no such row.
    pub fn get_donation_by_id(store: &Store, id: i32) -> (r: Result<DonationsControl, ServerError>)
        requires
            store.wf(),
        ensures
            !store.donations().contains(id) ==> (r matches Err(e) && e.is_not_found()),
            store.donations().contains(id) ==> (r is Ok <==> donation_displayable(store, store.donations().row(id))),
            r matches Ok(v) ==> store.donations().contains(id) && v.shows(store, id, store.donations().row(id)),
            store.donations().contains(id) ==> (r matches Err(e) ==> e is InvalidDate),
    {
        let t = store.donation_table();
        match t.position(id) {
            None => Err(ServerError::not_found()),
            Some(k) => {
                proof {
                    t.lemma_wf();
                    t.lemma_index_of(k as int);
                    assert(store.games().contains(t.entries()[k as int].link(0)));
                    assert(store.users().contains(t.entries()[k as int].link(1)));
                }
                DonationsControl::make_donations_control(store, id, t.row_at(k))
            },
        }
    }

    /// Adds a row; fails with `InvalidForeignKey` where one of its foreign
    /// keys names no row, and leaves the store as it was on any failure.
    pub fn add_donation(store: &mut Store, row: NewDonation) -> (r: Result<(), ServerError>)
        requires
            old(store).wf(),
        ensures
            final(store).wf(),
            r is Ok <==> old(store).donation_links_ok(row) && old(store).donations().next() < MAX_ID,
            r matches Err(e) ==> *final(store) == *old(store) && if old(store).donation_links_ok(row) {
                e is InternalError
            } else {
                e is InvalidForeignKey
            },
            r is Ok ==> final(store).donations().ids() == old(store).donations().ids().push(old(store).donations().next() as i32)
                && final(store).donations().entries() == old(store).donations().entries().push(row)
                && final(store).same_except(old(store), 5),
    {
        match store.insert_donation(row) {
            Ok(_) => Ok(()),
            Err(e) => Err(e),
        }
    }

    /// Replaces every field of row `id`; fails with not-found where there is
    /// no such row, with `InvalidForeignKey` where a foreign key of `row`
    /// names no row, and leaves the store as it was on any failure.
    pub fn update_donation(store: &mut Store, id: i32, row: NewDonation) -> (r: Result<(), ServerError>)
        requires
            old(store).wf(),
        ensures
            final(store).wf(),
            !old(store).donations().contains(id) ==> (r matches Err(e) && e.is_not_found()),
            old(store).donations().contains(id) && !old(store).donation_links_ok(row) ==> (r matches Err(e)
                && e is InvalidForeignKey),
            old(store).donations().contains(id) && old(store).donation_links_ok(row) ==> r is Ok,
            r is Err ==> *final(store) == *old(store),
            r is Ok ==> final(store).donations().ids() == old(store).donations().ids()
                && final(store).donations().entries() == old(store).donations().entries().update(
                old(store).donations().ids().index_of(id),
                row,
            ) && final(store).same_except(old(store), 5),
    {
        store.replace_donation(id, row)
    }

    /// Removes row `id`; fails with not-found where there is no such row,
    /// with `InvalidForeignKey` where another row refers to it, and leaves
    /// the store as it was on any failure.
    pub fn delete_donation(store: &mut Store, id: i32) -> (r: Result<(), ServerError>)
        requires
            old(store).wf(),
        ensures
            final(store).wf(),
            !old(store).donations().contains(id) ==> (r matches Err(e) && e.is_not_found()),
            old(store).donations().contains(id) && old(store).donation_referenced(id) ==> (r matches Err(e)
                && e is InvalidForeignKey),
            old(store).donations().contains(id) && !old(store).donation_referenced(id) ==> r is Ok,
            r is Err ==> *final(store) == *old(store),
            r is Ok ==> (final(store).donations().ids(), final(store).donations().entries()) == old(store).donations().without(id)
                && final(store).same_except(old(store), 5),
    {
        store.remove_donation(id)
    }
}

} // verus!
