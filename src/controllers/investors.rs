use vstd::prelude::*;

use crate::errors::ServerError;
use crate::store::Store;
use crate::table::{strictly_ascending, Linked, MAX_ID};
use crate::controllers::investments::{investment_displayable, InvestmentsControl};
use crate::records::NewInvestor;

verus! {

/// An investor as shown.
#[derive(Debug)]
pub struct InvestorsControl {
    pub id: i32,
    pub name: String,
    pub is_company: bool,
}

/// Every investor can be shown.
pub open spec fn investor_displayable(store: &Store, row: NewInvestor) -> bool {
    true
}

impl InvestorsControl {
    /// Whether this is investor `id`, stored as `row`, as shown.
    pub open spec fn shows(&self, store: &Store, id: i32, row: NewInvestor) -> bool {
        &&& self.id == id
        &&& self.name@ == row.name@
        &&& self.is_company == row.is_company
    }

    /// Investor `id`, stored as `row`, as shown.
    pub fn from_row(store: &Store, id: i32, row: &NewInvestor) -> (r: Result<Self, ServerError>)
        requires
            store.wf(),
        ensures
            r matches Ok(v) && v.shows(store, id, *row),
    {
        Ok(InvestorsControl { id, name: row.name.clone(), is_company: row.is_company })
    }

    /// Every row, in ascending order of identifier, as shown; fails where a
    /// row cannot be shown.
    pub fn get_investors(store: &Store) -> (r: Result<Vec<InvestorsControl>, ServerError>)
        requires
            store.wf(),
        ensures
            r is Ok <==> forall|i: int| 0 <= i < store.investors().len() ==> #[trigger] investor_displayable(store, store.investors().entries()[i]),
            r matches Ok(v) ==> v@.len() == store.investors().len() && (forall|i: int| 0 <= i < v@.len() ==> #[trigger] v@[i].shows(
                store,
                store.investors().ids()[i],
                store.investors().entries()[i],
            )) && (forall|i: int, j: int| 0 <= i < j < v@.len() ==> v@[i].id < v@[j].id),
            r matches Err(e) ==> e is InvalidDate,
    {
        let t = store.investor_table();
        proof {
            t.lemma_wf();
        }
        let n = t.size();
        let mut out: Vec<InvestorsControl> = Vec::new();
        let mut k: usize = 0;
        while k < n
            invariant
                store.wf(),
                *t == store.investors(),
                n == t.len(),
                t.ids().len() == t.entries().len(),
                strictly_ascending(t.ids()),
                k <= n,
                out@.len() == k,
                forall|i: int| 0 <= i < k ==> #[trigger] out@[i].shows(store, t.ids()[i], t.entries()[i]),
                forall|i: int| 0 <= i < k ==> #[trigger] investor_displayable(store, t.entries()[i]),
            decreases n - k,
        {
            proof {
            }
            match InvestorsControl::from_row(store, t.id_at(k), t.row_at(k)) {
                Ok(v) => out.push(v),
                Err(e) => return Err(e),
            }
            k = k + 1;
        }
        proof {
            assert forall|i: int, j: int| 0 <= i < j < out@.len() implies out@[i].id < out@[j].id by {
                assert(out@[i].shows(store, t.ids()[i], t.entries()[i]));
                assert(out@[j].shows(store, t.ids()[j], t.entries()[j]));
            }
        }
        Ok(out)
    }

    /// Row `id` as shown; fails with not-found where there is no such row.
    pub fn get_investor_by_id(store: &Store, id: i32) -> (r: Result<InvestorsControl, ServerError>)
        requires
            store.wf(),
        ensures
            !store.investors().contains(id) ==> (r matches Err(e) && e.is_not_found()),
            store.investors().contains(id) ==> (r is Ok <==> investor_displayable(store, store.investors().row(id))),
            r matches Ok(v) ==> store.investors().contains(id) && v.shows(store, id, store.investors().row(id)),
            store.investors().contains(id) ==> (r matches Err(e) ==> e is InvalidDate),
    {
        let t = store.investor_table();
        match t.position(id) {
            None => Err(ServerError::not_found()),
            Some(k) => {
                proof {
                    t.lemma_wf();
                    t.lemma_index_of(k as int);
                }
                InvestorsControl::from_row(store, id, t.row_at(k))
            },
        }
    }

    /// Adds a row; fails with `InvalidForeignKey` where one of its foreign
    /// keys names no row, and leaves the store as it was on any failure.
    pub fn add_investor(store: &mut Store, row: NewInvestor) -> (r: Result<(), ServerError>)
        requires
            old(store).wf(),
        ensures
            final(store).wf(),
            r is Ok <==> old(store).investor_links_ok(row) && old(store).investors().next() < MAX_ID,
            r matches Err(e) ==> *final(store) == *old(store) && if old(store).investor_links_ok(row) {
                e is InternalError
            } else {
                e is InvalidForeignKey
            },
            r is Ok ==> final(store).investors().ids() == old(store).investors().ids().push(old(store).investors().next() as i32)
                && final(store).investors().entries() == old(store).investors().entries().push(row)
                && final(store).same_except(old(store), 6),
    {
        match store.insert_investor(row) {
            Ok(_) => Ok(()),
            Err(e) => Err(e),
        }
    }

    /// Replaces every field of row `id`; fails with not-found where there is
    /// no such row, with `InvalidForeignKey` where a foreign key of `row`
    /// names no row, and leaves the store as it was on any failure.
    pub fn update_investor(store: &mut Store, id: i32, row: NewInvestor) -> (r: Result<(), ServerError>)
        requires
            old(store).wf(),
        ensures
            final(store).wf(),
            !old(store).investors().contains(id) ==> (r matches Err(e) && e.is_not_found()),
            old(store).investors().contains(id) && !old(store).investor_links_ok(row) ==> (r matches Err(e)
                && e is InvalidForeignKey),
            old(store).investors().contains(id) && old(store).investor_links_ok(row) ==> r is Ok,
            r is Err ==> *final(store) == *old(store),
            r is Ok ==> final(store).investors().ids() == old(store).investors().ids()
                && final(store).investors().entries() == old(store).investors().entries().update(
                old(store).investors().ids().index_of(id),
                row,
            ) && final(store).same_except(old(store), 6),
    {
        store.replace_investor(id, row)
    }

    /// Removes row `id`; fails with not-found where there is no such row,
    /// with `InvalidForeignKey` where another row refers to it, and leaves
    /// the store as it was on any failure.
    pub fn delete_investor(store: &mut Store, id: i32) -> (r: Result<(), ServerError>)
        requires
            old(store).wf(),
        ensures
            final(store).wf(),
            !old(store).investors().contains(id) ==> (r matches Err(e) && e.is_not_found()),
            old(store).investors().contains(id) && old(store).investor_referenced(id) ==> (r matches Err(e)
                && e is InvalidForeignKey),
            old(store).investors().contains(id) && !old(store).investor_referenced(id) ==> r is Ok,
            r is Err ==> *final(store) == *old(store),
            r is Ok ==> (final(store).investors().ids(), final(store).investors().entries()) == old(store).investors().without(id)
                && final(store).same_except(old(store), 6),
    {
        store.remove_investor(id)
    }

    /// The investments of investor `id`, in ascending order of identifier, as shown; fails where one
    /// cannot be shown.
    pub fn get_investments(store: &Store, id: i32) -> (r: Result<Vec<InvestmentsControl>, ServerError>)
        requires
            store.wf(),
        ensures
            r is Ok <==> forall|j: int| 0 <= j < store.investments().linked(1, id).len()
                ==> #[trigger] investment_displayable(store, store.investments().linked_row(1, id, j)),
            r matches Ok(v) ==> v@.len() == store.investments().linked(1, id).len()
                && forall|j: int| 0 <= j < v@.len() ==> #[trigger] v@[j].shows(
                store,
                store.investments().linked_id(1, id, j),
                store.investments().linked_row(1, id, j),
            ),
            r matches Err(e) ==> false,
    {
        let t = store.investment_table();
        let pos = t.find_linked(1, id);
        proof {
            t.lemma_wf();
            t.lemma_linked_upto(t.len(), 1, id);
        }
        let mut out: Vec<InvestmentsControl> = Vec::new();
        let mut j: usize = 0;
        while j < pos.len()
            invariant
                store.wf(),
                *t == store.investments(),
                pos@.len() == t.linked(1, id).len(),
                forall|q: int| 0 <= q < pos@.len() ==> pos@[q] as int == #[trigger] t.linked(1, id)[q],
                forall|q: int| 0 <= q < t.linked(1, id).len() ==> 0 <= #[trigger] t.linked(1, id)[q] < t.len(),
                t.ids().len() == t.entries().len(),
                j <= pos@.len(),
                out@.len() == j,
                forall|q: int| 0 <= q < j ==> #[trigger] out@[q].shows(store, t.linked_id(1, id, q), t.linked_row(1, id, q)),
                forall|q: int| 0 <= q < j ==> #[trigger] investment_displayable(store, t.linked_row(1, id, q)),
            decreases pos@.len() - j,
        {
            let k = pos[j];
            proof {
                assert(0 <= t.linked(1, id)[j as int] < t.len());
                assert(store.games().contains(t.entries()[k as int].link(0)));
                assert(store.investors().contains(t.entries()[k as int].link(1)));
            }
            match InvestmentsControl::make_investments_control(store, t.id_at(k), t.row_at(k)) {
                Ok(v) => out.push(v),
                Err(e) => {
                    proof {
                        assert(!investment_displayable(store, t.linked_row(1, id, j as int)));
                    }
                    return Err(e);
                },
            }
            j = j + 1;
        }
        Ok(out)
    }

    /// The identifier with the investments of investor `id`; fails where one cannot be shown.
    pub fn get_statistic(store: &Store, id: i32) -> (r: Result<(i32, Vec<InvestmentsControl>), ServerError>)
        requires
            store.wf(),
        ensures
            r is Ok <==> forall|j: int| 0 <= j < store.investments().linked(1, id).len()
                ==> #[trigger] investment_displayable(store, store.investments().linked_row(1, id, j)),
            r matches Ok((i, v)) ==> i == id && v@.len() == store.investments().linked(1, id).len()
                && forall|j: int| 0 <= j < v@.len() ==> #[trigger] v@[j].shows(
                store,
                store.investments().linked_id(1, id, j),
                store.investments().linked_row(1, id, j),
            ),
            r matches Err(e) ==> false,
    {
        match Self::get_investments(store, id) {
            Ok(v) => Ok((id, v)),
            Err(e) => Err(e),
        }
    }
}

} // verus!
