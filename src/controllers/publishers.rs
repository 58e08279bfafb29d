use vstd::prelude::*;

use crate::errors::ServerError;
use crate::store::Store;
use crate::table::{strictly_ascending, Linked, MAX_ID};
use crate::controllers::games::{game_displayable, GamesControl};
use crate::records::NewPublisher;

verus! {

/// A publisher as shown.
#[derive(Debug)]
pub struct PublishersControl {
    pub id: i32,
    pub name: String,
    pub price: i64,
    pub popularity: i16,
}

/// Every publisher can be shown.
pub open spec fn publisher_displayable(store: &Store, row: NewPublisher) -> bool {
    true
}

impl PublishersControl {
    /// Whether this is publisher `id`, stored as `row`, as shown.
    pub open spec fn shows(&self, store: &Store, id: i32, row: NewPublisher) -> bool {
        &&& self.id == id
        &&& self.name@ == row.name@
        &&& self.price == row.price
        &&& self.popularity == row.popularity
    }

    /// Publisher `id`, stored as `row`, as shown.
    pub fn from_row(store: &Store, id: i32, row: &NewPublisher) -> (r: Result<Self, ServerError>)
        requires
            store.wf(),
        ensures
            r matches Ok(v) && v.shows(store, id, *row),
    {
        Ok(PublishersControl { id, name: row.name.clone(), price: row.price, popularity: row.popularity })
    }

    /// Every row, in ascending order of identifier, as shown; fails where a
    /// row cannot be shown.
    pub fn get_publishers(store: &Store) -> (r: Result<Vec<PublishersControl>, ServerError>)
        requires
            store.wf(),
        ensures
            r is Ok <==> forall|i: int| 0 <= i < store.publishers().len() ==> #[trigger] publisher_displayable(store, store.publishers().entries()[i]),
            r matches Ok(v) ==> v@.len() == store.publishers().len() && (forall|i: int| 0 <= i < v@.len() ==> #[trigger] v@[i].shows(
                store,
                store.publishers().ids()[i],
                store.publishers().entries()[i],
            )) && (forall|i: int, j: int| 0 <= i < j < v@.len() ==> v@[i].id < v@[j].id),
            r matches Err(e) ==> e is InvalidDate,
    {
        let t = store.publisher_table();
        proof {
            t.lemma_wf();
        }
        let n = t.size();
        let mut out: Vec<PublishersControl> = Vec::new();
        let mut k: usize = 0;
        while k < n
            invariant
                store.wf(),
                *t == store.publishers(),
                n == t.len(),
                t.ids().len() == t.entries().len(),
                strictly_ascending(t.ids()),
                k <= n,
                out@.len() == k,
                forall|i: int| 0 <= i < k ==> #[trigger] out@[i].shows(store, t.ids()[i], t.entries()[i]),
                forall|i: int| 0 <= i < k ==> #[trigger] publisher_displayable(store, t.entries()[i]),
            decreases n - k,
        {
            proof {
            }
            match PublishersControl::from_row(store, t.id_at(k), t.row_at(k)) {
                Ok(v) => out.push(v),
                Err(e) => return Err(e),
            }
            k = k + 1;
        }
        proof {
            assert forall|i: int, j: int| 0 <= i < j < out@.len() implies out@[i].id < out@[j].id by {
                assert(out@[i].shows(store, t.ids()[i], t.entries()[i]));
                assert(out@[j].shows(store, t.ids()[j], t.entries()[j]));
            }
        }
        Ok(out)
    }

    /// Row `id` as shown; fails with not-found where there is no such row.
    pub fn get_publisher_by_id(store: &Store, id: i32) -> (r: Result<PublishersControl, ServerError>)
        requires
            store.wf(),
        ensures
            !store.publishers().contains(id) ==> (r matches Err(e) && e.is_not_found()),
            store.publishers().contains(id) ==> (r is Ok <==> publisher_displayable(store, store.publishers().row(id))),
            r matches Ok(v) ==> store.publishers().contains(id) && v.shows(store, id, store.publishers().row(id)),
            store.publishers().contains(id) ==> (r matches Err(e) ==> e is InvalidDate),
    {
        let t = store.publisher_table();
        match t.position(id) {
            None => Err(ServerError::not_found()),
            Some(k) => {
                proof {
                    t.lemma_wf();
                    t.lemma_index_of(k as int);
                }
                PublishersControl::from_row(store, id, t.row_at(k))
            },
        }
    }

    /// Adds a row; fails with `InvalidForeignKey` where one of its foreign
    /// keys names no row, and leaves the store as it was on any failure.
    pub fn add_publisher(store: &mut Store, row: NewPublisher) -> (r: Result<(), ServerError>)
        requires
            old(store).wf(),
        ensures
            final(store).wf(),
            r is Ok <==> old(store).publisher_links_ok(row) && old(store).publishers().next() < MAX_ID,
            r matches Err(e) ==> *final(store) == *old(store) && if old(store).publisher_links_ok(row) {
                e is InternalError
            } else {
                e is InvalidForeignKey
            },
            r is Ok ==> final(store).publishers().ids() == old(store).publishers().ids().push(old(store).publishers().next() as i32)
                && final(store).publishers().entries() == old(store).publishers().entries().push(row)
                && final(store).same_except(old(store), 0),
    {
        match store.insert_publisher(row) {
            Ok(_) => Ok(()),
            Err(e) => Err(e),
        }
    }

    /// Replaces every field of row `id`; fails with not-found where there is
    /// no such row, with `InvalidForeignKey` where a foreign key of `row`
    /// names no row, and leaves the store as it was on any failure.
    pub fn update_publisher(store: &mut Store, id: i32, row: NewPublisher) -> (r: Result<(), ServerError>)
        requires
            old(store).wf(),
        ensures
            final(store).wf(),
            !old(store).publishers().contains(id) ==> (r matches Err(e) && e.is_not_found()),
            old(store).publishers().contains(id) && !old(store).publisher_links_ok(row) ==> (r matches Err(e)
                && e is InvalidForeignKey),
            old(store).publishers().contains(id) && old(store).publisher_links_ok(row) ==> r is Ok,
            r is Err ==> *final(store) == *old(store),
            r is Ok ==> final(store).publishers().ids() == old(store).publishers().ids()
                && final(store).publishers().entries() == old(store).publishers().entries().update(
                old(store).publishers().ids().index_of(id),
                row,
            ) && final(store).same_except(old(store), 0),
    {
        store.replace_publisher(id, row)
    }

    /// Removes row `id`; fails with not-found where there is no such row,
    /// with `InvalidForeignKey` where another row refers to it, and leaves
    /// the store as it was on any failure.
    pub fn delete_publisher(store: &mut Store, id: i32) -> (r: Result<(), ServerError>)
        requires
            old(store).wf(),
        ensures
            final(store).wf(),
            !old(store).publishers().contains(id) ==> (r matches Err(e) && e.is_not_found()),
            old(store).publishers().contains(id) && old(store).publisher_referenced(id) ==> (r matches Err(e)
                && e is InvalidForeignKey),
            old(store).publishers().contains(id) && !old(store).publisher_referenced(id) ==> r is Ok,
            r is Err ==> *final(store) == *old(store),
            r is Ok ==> (final(store).publishers().ids(), final(store).publishers().entries()) == old(store).publishers().without(id)
                && final(store).same_except(old(store), 0),
    {
        store.remove_publisher(id)
    }

    /// The games of publisher `id`, in ascending order of identifier, as shown; fails where one
    /// cannot be shown.
    pub fn get_games(store: &Store, id: i32) -> (r: Result<Vec<GamesControl>, ServerError>)
        requires
            store.wf(),
        ensures
            r is Ok <==> forall|j: int| 0 <= j < store.games().linked(0, id).len()
                ==> #[trigger] game_displayable(store, store.games().linked_row(0, id, j)),
            r matches Ok(v) ==> v@.len() == store.games().linked(0, id).len()
                && forall|j: int| 0 <= j < v@.len() ==> #[trigger] v@[j].shows(
                store,
                store.games().linked_id(0, id, j),
                store.games().linked_row(0, id, j),
            ),
            r matches Err(e) ==> e is InvalidDate,
    {
        let t = store.game_table();
        let pos = t.find_linked(0, id);
        proof {
            t.lemma_wf();
            t.lemma_linked_upto(t.len(), 0, id);
        }
        let mut out: Vec<GamesControl> = Vec::new();
        let mut j: usize = 0;
        while j < pos.len()
            invariant
                store.wf(),
                *t == store.games(),
                pos@.len() == t.linked(0, id).len(),
                forall|q: int| 0 <= q < pos@.len() ==> pos@[q] as int == #[trigger] t.linked(0, id)[q],
                forall|q: int| 0 <= q < t.linked(0, id).len() ==> 0 <= #[trigger] t.linked(0, id)[q] < t.len(),
                t.ids().len() == t.entries().len(),
                j <= pos@.len(),
                out@.len() == j,
                forall|q: int| 0 <= q < j ==> #[trigger] out@[q].shows(store, t.linked_id(0, id, q), t.linked_row(0, id, q)),
                forall|q: int| 0 <= q < j ==> #[trigger] game_displayable(store, t.linked_row(0, id, q)),
            decreases pos@.len() - j,
        {
            let k = pos[j];
            proof {
                assert(0 <= t.linked(0, id)[j as int] < t.len());
                assert(store.publishers().contains(t.entries()[k as int].link(0)));
            }
            match GamesControl::make_games_control(store, t.id_at(k), t.row_at(k)) {
                Ok(v) => out.push(v),
                Err(e) => {
                    proof {
                        assert(!game_displayable(store, t.linked_row(0, id, j as int)));
                    }
                    return Err(e);
                },
            }
            j = j + 1;
        }
        Ok(out)
    }

    /// The identifier with the games of publisher `id`; fails where one cannot be shown.
    pub fn get_statistic(store: &Store, id: i32) -> (r: Result<(i32, Vec<GamesControl>), ServerError>)
        requires
            store.wf(),
        ensures
            r is Ok <==> forall|j: int| 0 <= j < store.games().linked(0, id).len()
                ==> #[trigger] game_displayable(store, store.games().linked_row(0, id, j)),
            r matches Ok((i, v)) ==> i == id && v@.len() == store.games().linked(0, id).len()
                && forall|j: int| 0 <= j < v@.len() ==> #[trigger] v@[j].shows(
                store,
                store.games().linked_id(0, id, j),
                store.games().linked_row(0, id, j),
            ),
            r matches Err(e) ==> e is InvalidDate,
    {
        match Self::get_games(store, id) {
            Ok(v) => Ok((id, v)),
            Err(e) => Err(e),
        }
    }
}

} // verus!
