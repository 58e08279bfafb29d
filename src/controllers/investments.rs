use vstd::prelude::*;
use vstd::string::StringExecFns;

use crate::errors::ServerError;
use crate::store::Store;
use crate::table::{strictly_ascending, Linked, MAX_ID};
use crate::records::NewInvestment;

verus! {

/// An investment as shown: the game's and the investor's names.
#[derive(Debug)]
pub struct InvestmentsControl {
    pub id: i32,
    pub game: String,
    pub game_id: i32,
    pub investor: String,
    pub investor_id: i32,
    pub share: i16,
    pub invested: i64,
}

/// An investment can be shown where its game and investor exist.
pub open spec fn investment_displayable(store: &Store, row: NewInvestment) -> bool {
    &&& store.games().contains(row.game_id)
    &&& store.investors().contains(row.investor_id)
}

impl InvestmentsControl {
    /// Whether this is investment `id`, stored as `row`, as shown.
    pub open spec fn shows(&self, store: &Store, id: i32, row: NewInvestment) -> bool {
        &&& self.id == id
        &&& self.game@ == store.games().row(row.game_id).name@
        &&& self.game_id == row.game_id
        &&& self.investor@ == store.investors().row(row.investor_id).name@
        &&& self.investor_id == row.investor_id
        &&& self.share == row.share
        &&& self.invested == row.invested
    }

    /// Investment `id`, stored as `row`, as shown, with the names of its game
    /// and investor as they are now; fails with `InvalidForeignKey` where
    /// either does not exist.
    pub fn make_investments_control(store: &Store, id: i32, row: &NewInvestment) -> (r: Result<Self, ServerError>)
        requires
            store.wf(),
        ensures
            r is Ok <==> investment_displayable(store, *row),
            r matches Ok(v) ==> v.shows(store, id, *row),
            r matches Err(e) ==> e is InvalidForeignKey,
    {
        let game = match store.game_table().get(row.game_id) {
            Some(g) => g.name.clone(),
            None => return Err(ServerError::InvalidForeignKey(String::from_str(
                "key (game_id) is not present in table \"games\"",
            ))),
        };
        let investor = match store.investor_table().get(row.investor_id) {
            Some(i) => i.name.clone(),
            None => return Err(ServerError::InvalidForeignKey(String::from_str(
                "key (investor_id) is not present in table \"investors\"",
            ))),
        };
        Ok(
            InvestmentsControl {
                id,
                game,
                game_id: row.game_id,
                investor,
                investor_id: row.investor_id,
                share: row.share,
                invested: row.invested,
            },
        )
    }

    /// Every row, in ascending order of identifier, as shown; fails where a
    /// row cannot be shown.
    pub fn get_investments(store: &Store) -> (r: Result<Vec<InvestmentsControl>, ServerError>)
        requires
            store.wf(),
        ensures
            r is Ok <==> forall|i: int| 0 <= i < store.investments().len() ==> #[trigger] investment_displayable(store, store.investments().entries()[i]),
            r matches Ok(v) ==> v@.len() == store.investments().len() && (forall|i: int| 0 <= i < v@.len() ==> #[trigger] v@[i].shows(
                store,
                store.investments().ids()[i],
                store.investments().entries()[i],
            )) && (forall|i: int, j: int| 0 <= i < j < v@.len() ==> v@[i].id < v@[j].id),
            r matches Err(e) ==> false,
    {
        let t = store.investment_table();
        proof {
            t.lemma_wf();
        }
        let n = t.size();
        let mut out: Vec<InvestmentsControl> = Vec::new();
        let mut k: usize = 0;
        while k < n
            invariant
                store.wf(),
                *t == store.investments(),
                n == t.len(),
                t.ids().len() == t.entries().len(),
                strictly_ascending(t.ids()),
                k <= n,
                out@.len() == k,
                forall|i: int| 0 <= i < k ==> #[trigger] out@[i].shows(store, t.ids()[i], t.entries()[i]),
                forall|i: int| 0 <= i < k ==> #[trigger] investment_displayable(store, t.entries()[i]),
            decreases n - k,
        {
            proof {
            assert(store.games().contains(t.entries()[k as int].link(0)));
            assert(store.investors().contains(t.entries()[k as int].link(1)));
            }
            match InvestmentsControl::make_investments_control(store, t.id_at(k), t.row_at(k)) {
                Ok(v) => out.push(v),
                Err(e) => return Err(e),
            }
            k = k + 1;
        }
        proof {
            assert forall|i: int, j: int| 0 <= i < j < out@.len() implies out@[i].id < out@[j].id by {
                assert(out@[i].shows(store, t.ids()[i], t.entries()[i]));
                assert(out@[j].shows(store, t.ids()[j], t.entries()[j]));
            }
        }
        Ok(out)
    }

    /// Row `id` as shown; fails with not-found where there is no such row.
    pub fn get_investment_by_id(store: &Store, id: i32) -> (r: Result<InvestmentsControl, ServerError>)
        requires
            store.wf(),
        ensures
            !store.investments().contains(id) ==> (r matches Err(e) && e.is_not_found()),
            store.investments().contains(id) ==> (r is Ok <==> investment_displayable(store, store.investments().row(id))),
            r matches Ok(v) ==> store.investments().contains(id) && v.shows(store, id, store.investments().row(id)),
            store.investments().contains(id) ==> (r matches Err(e) ==> false),
    {
        let t = store.investment_table();
        match t.position(id) {
            None => Err(ServerError::not_found()),
            Some(k) => {
                proof {
                    t.lemma_wf();
                    t.lemma_index_of(k as int);
                    assert(store.games().contains(t.entries()[k as int].link(0)));
                    assert(store.investors().contains(t.entries()[k as int].link(1)));
                }
                InvestmentsControl::make_investments_control(store, id, t.row_at(k))
            },
        }
    }

    /// Adds a row; fails with `InvalidForeignKey` where one of its foreign
    /// keys names no row, and leaves the store as it was on any failure.
    pub fn add_investment(store: &mut Store, row: NewInvestment) -> (r: Result<(), ServerError>)
        requires
            old(store).wf(),
        ensures
            final(store).wf(),
            r is Ok <==> old(store).investment_links_ok(row) && old(store).investments().next() < MAX_ID,
            r matches Err(e) ==> *final(store) == *old(store) && if old(store).investment_links_ok(row) {
                e is InternalError
            } else {
                e is InvalidForeignKey
            },
            r is Ok ==> final(store).investments().ids() == old(store).investments().ids().push(old(store).investments().next() as i32)
                && final(store).investments().entries() == old(store).investments().entries().push(row)
                && final(store).same_except(old(store), 7),
    {
        match store.insert_investment(row) {
            Ok(_) => Ok(()),
            Err(e) => Err(e),
        }
    }

    /// Replaces every field of row `id`; fails with not-found where there is
    /// no such row, with `InvalidForeignKey` where a foreign key of `row`
    /// names no row, and leaves the store as it was on any failure.
    pub fn update_investment(store: &mut Store, id: i32, row: NewInvestment) -> (r: Result<(), ServerError>)
        requires
            old(store).wf(),
        ensures
            final(store).wf(),
            !old(store).investments().contains(id) ==> (r matches Err(e) && e.is_not_found()),
            old(store).investments().contains(id) && !old(store).investment_links_ok(row) ==> (r matches Err(e)
                && e is InvalidForeignKey),
            old(store).investments().contains(id) && old(store).investment_links_ok(row) ==> r is Ok,
            r is Err ==> *final(store) == *old(store),
            r is Ok ==> final(store).investments().ids() == old(store).investments().ids()
                && final(store).investments().entries() == old(store).investments().entries().update(
                old(store).investments().ids().index_of(id),
                row,
            ) && final(store).same_except(old(store), 7),
    {
        store.replace_investment(id, row)
    }

    /// Removes row `id`; fails with not-found where there is no such row,
    /// with `InvalidForeignKey` where another row refers to it, and leaves
    /// the store as it was on any failure.
    pub fn delete_investment(store: &mut Store, id: i32) -> (r: Result<(), ServerError>)
        requires
            old(store).wf(),
        ensures
            final(store).wf(),
            !old(store).investments().contains(id) ==> (r matches Err(e) && e.is_not_found()),
            old(store).investments().contains(id) && old(store).investment_referenced(id) ==> (r matches Err(e)
                && e is InvalidForeignKey),
            old(store).investments().contains(id) && !old(store).investment_referenced(id) ==> r is Ok,
            r is Err ==> *final(store) == *old(store),
            r is Ok ==> (final(store).investments().ids(), final(store).investments().entries()) == old(store).investments().without(id)
                && final(store).same_except(old(store), 7),
    {
        store.remove_investment(id)
    }
}

} // verus!
