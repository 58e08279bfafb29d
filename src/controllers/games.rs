use vstd::prelude::*;
use vstd::string::StringExecFns;

use crate::controllers::donations::{donation_displayable, DonationsControl};
use crate::controllers::investments::{investment_displayable, InvestmentsControl};
use crate::controllers::jobs::{job_displayable, JobsControl};
use crate::dates::{change_date_text, reformatted_date, stored_date_text, stored_to_display};
use crate::errors::ServerError;
use crate::records::NewGame;
use crate::store::Store;
use crate::table::{strictly_ascending, Linked, MAX_ID};

verus! {

/// A game as shown: the release date as text and the publisher's name.
#[derive(Debug)]
pub struct GamesControl {
    pub id: i32,
    pub name: String,
    pub genre: String,
    pub release_date: String,
    pub prime_cost: i64,
    pub publisher: String,
    pub publisher_id: i32,
    pub cost: i64,
    pub is_subscribable: bool,
}

/// What one donor nickname gave to a game, in cents.
#[derive(Debug)]
pub struct TotalDonations {
    pub user: String,
    pub amount: i128,
}

/// A game can be shown where its publisher exists and its stored release
/// date stands for a date.
pub open spec fn game_displayable(store: &Store, row: NewGame) -> bool {
    &&& store.publishers().contains(row.publisher_id)
    &&& stored_date_text(row.release_date as int) is Some
}

/// The donor nickname and the amount of each donation to game `id`, in
/// ascending order of donation.
#[verifier::opaque]
pub open spec fn donation_pairs(store: &Store, id: i32) -> Seq<(Seq<char>, int)> {
    Seq::new(
        store.donations().linked(0, id).len(),
        |j: int|
            (
                store.users().row(store.donations().linked_row(0, id, j).user_id).nickname@,
                store.donations().linked_row(0, id, j).amount as int,
            ),
    )
}

proof fn lemma_donation_pair(store: &Store, id: i32, j: int)
    requires
        0 <= j < store.donations().linked(0, id).len(),
    ensures
        donation_pairs(store, id).len() == store.donations().linked(0, id).len(),
        donation_pairs(store, id)[j] == (
            store.users().row(store.donations().linked_row(0, id, j).user_id).nickname@,
            store.donations().linked_row(0, id, j).amount as int,
        ),
{
    reveal(donation_pairs);
}

proof fn lemma_donation_pairs_bounded(store: &Store, id: i32)
    ensures
        donation_pairs(store, id).len() == store.donations().linked(0, id).len(),
        forall|q: int| 0 <= q < donation_pairs(store, id).len() ==> -AMOUNT_BOUND
            <= #[trigger] donation_pairs(store, id)[q].1 <= AMOUNT_BOUND,
{
    reveal(donation_pairs);
}

/// Whether `nick` gave to game `id`.
pub open spec fn is_donor(store: &Store, id: i32, nick: Seq<char>) -> bool {
    exists|q: int| 0 <= q < donation_pairs(store, id).len() && donation_pairs(store, id)[q].0 == nick
}

/// Whether `totals` has an entry for `nick`.
pub open spec fn has_total(totals: Seq<TotalDonations>, nick: Seq<char>) -> bool {
    exists|i: int| 0 <= i < totals.len() && totals[i].user@ == nick
}

/// The sum of the first `n` amounts given under nickname `nick`.
pub open spec fn donor_sum(p: Seq<(Seq<char>, int)>, n: int, nick: Seq<char>) -> int
    decreases n,
{
    if n <= 0 {
        0
    } else {
        donor_sum(p, n - 1, nick) + if p[n - 1].0 == nick {
            p[n - 1].1
        } else {
            0
        }
    }
}

/// The sum of the first `n` amounts.
pub open spec fn total_sum(p: Seq<(Seq<char>, int)>, n: int) -> int
    decreases n,
{
    if n <= 0 {
        0
    } else {
        total_sum(p, n - 1) + p[n - 1].1
    }
}

/// A bound on one cent amount.
pub const AMOUNT_BOUND: i128 = 0x8000_0000_0000_0000;

proof fn lemma_sum_bounds(p: Seq<(Seq<char>, int)>, n: int, nick: Seq<char>)
    requires
        0 <= n <= p.len(),
        forall|q: int| 0 <= q < p.len() ==> -AMOUNT_BOUND <= #[trigger] p[q].1 <= AMOUNT_BOUND,
    ensures
        -n * AMOUNT_BOUND <= donor_sum(p, n, nick) <= n * AMOUNT_BOUND,
        -n * AMOUNT_BOUND <= total_sum(p, n) <= n * AMOUNT_BOUND,
    decreases n,
{
    if n > 0 {
        lemma_sum_bounds(p, n - 1, nick);
        assert(-AMOUNT_BOUND <= p[n - 1].1 <= AMOUNT_BOUND);
    }
}

proof fn lemma_donor_sum_absent(p: Seq<(Seq<char>, int)>, n: int, nick: Seq<char>)
    requires
        0 <= n <= p.len(),
        forall|q: int| 0 <= q < n ==> #[trigger] p[q].0 != nick,
    ensures
        donor_sum(p, n, nick) == 0,
    decreases n,
{
    if n > 0 {
        lemma_donor_sum_absent(p, n - 1, nick);
    }
}

/// After the first `j` donations of `p`: `names` holds each nickname that
/// gave once, and `sums` what each gave; donation `q` went under
/// `names[wit[q]]`, and `names[i]` first gave with donation `src[i]`.
#[verifier::opaque]
pub open spec fn grouped(
    p: Seq<(Seq<char>, int)>,
    j: int,
    names: Seq<Seq<char>>,
    sums: Seq<int>,
    wit: Seq<int>,
    src: Seq<int>,
) -> bool {
    &&& 0 <= j <= p.len()
    &&& names.len() == sums.len()
    &&& names.len() == src.len()
    &&& wit.len() == j
    &&& forall|a: int, b: int| 0 <= a < b < names.len() ==> names[a] != names[b]
    &&& forall|i: int| 0 <= i < sums.len() ==> #[trigger] sums[i] == donor_sum(p, j, names[i])
    &&& forall|i: int| 0 <= i < src.len() ==> 0 <= #[trigger] src[i] < j && p[src[i]].0 == names[i]
    &&& forall|q: int| 0 <= q < j ==> 0 <= #[trigger] wit[q] < names.len() && names[wit[q]] == p[q].0
}

#[verifier::rlimit(40)]
proof fn lemma_grouped_add_existing(
    p: Seq<(Seq<char>, int)>,
    j: int,
    names: Seq<Seq<char>>,
    sums: Seq<int>,
    wit: Seq<int>,
    src: Seq<int>,
    f: int,
)
    requires
        grouped(p, j, names, sums, wit, src),
        j < p.len(),
        0 <= f < names.len(),
        names[f] == p[j].0,
    ensures
        grouped(p, j + 1, names, sums.update(f, sums[f] + p[j].1), wit.push(f), src),
{
    reveal(grouped);
    let s2 = sums.update(f, sums[f] + p[j].1);
    assert forall|i: int| 0 <= i < s2.len() implies #[trigger] s2[i] == donor_sum(p, j + 1, names[i]) by {
        if i != f {
            assert(names[i] != names[f]);
        }
    }
    let w2 = wit.push(f);
    assert forall|q: int| 0 <= q < j + 1 implies 0 <= #[trigger] w2[q] < names.len() && names[w2[q]] == p[q].0 by {
        if q < j {
            assert(w2[q] == wit[q]);
        }
    }
}

#[verifier::rlimit(40)]
proof fn lemma_grouped_add_new(
    p: Seq<(Seq<char>, int)>,
    j: int,
    names: Seq<Seq<char>>,
    sums: Seq<int>,
    wit: Seq<int>,
    src: Seq<int>,
)
    requires
        grouped(p, j, names, sums, wit, src),
        j < p.len(),
        forall|i: int| 0 <= i < names.len() ==> names[i] != p[j].0,
    ensures
        grouped(
            p,
            j + 1,
            names.push(p[j].0),
            sums.push(p[j].1),
            wit.push(names.len() as int),
            src.push(j),
        ),
{
    reveal(grouped);
    let nick = p[j].0;
    assert forall|q: int| 0 <= q < j implies #[trigger] p[q].0 != nick by {
        assert(names[wit[q]] == p[q].0);
    }
    lemma_donor_sum_absent(p, j, nick);
    let n2 = names.push(nick);
    let s2 = sums.push(p[j].1);
    let w2 = wit.push(names.len() as int);
    let r2 = src.push(j);
    assert forall|i: int| 0 <= i < s2.len() implies #[trigger] s2[i] == donor_sum(p, j + 1, n2[i]) by {
        if i < names.len() {
            assert(n2[i] == names[i]);
        }
    }
    assert forall|a: int, b: int| 0 <= a < b < n2.len() implies n2[a] != n2[b] by {
        assert(n2[a] == names[a]);
        if b < names.len() {
            assert(n2[b] == names[b]);
        }
    }
    assert forall|i: int| 0 <= i < r2.len() implies 0 <= #[trigger] r2[i] < j + 1 && p[r2[i]].0 == n2[i] by {
        if i < names.len() {
            assert(r2[i] == src[i]);
            assert(n2[i] == names[i]);
        }
    }
    assert forall|q: int| 0 <= q < j + 1 implies 0 <= #[trigger] w2[q] < n2.len() && n2[w2[q]] == p[q].0 by {
        if q < j {
            assert(w2[q] == wit[q]);
            assert(n2[wit[q]] == names[wit[q]]);
        }
    }
}

proof fn lemma_grouped_done(
    p: Seq<(Seq<char>, int)>,
    names: Seq<Seq<char>>,
    sums: Seq<int>,
    wit: Seq<int>,
    src: Seq<int>,
)
    requires
        grouped(p, p.len() as int, names, sums, wit, src),
    ensures
        names.len() == sums.len(),
        forall|a: int, b: int| 0 <= a < b < names.len() ==> names[a] != names[b],
        forall|i: int| 0 <= i < sums.len() ==> #[trigger] sums[i] == donor_sum(p, p.len() as int, names[i]),
        forall|i: int| 0 <= i < names.len() ==> 0 <= #[trigger] src[i] < p.len() && p[src[i]].0 == names[i],
        forall|q: int| 0 <= q < p.len() ==> 0 <= #[trigger] wit[q] < names.len() && names[wit[q]] == p[q].0,
{
    reveal(grouped);
}

/// The position of `nick` among `names`, or the length where it is absent.
fn find_name(names: &Vec<String>, nick: &String) -> (r: usize)
    ensures
        r <= names@.len(),
        r < names@.len() ==> names@[r as int]@ == nick@,
        r == names@.len() ==> forall|q: int| 0 <= q < names@.len() ==> names@[q]@ != nick@,
{
    let mut i: usize = 0;
    while i < names.len()
        invariant
            i <= names@.len(),
            forall|q: int| 0 <= q < i ==> names@[q]@ != nick@,
        decreases names@.len() - i,
    {
        if names[i] == *nick {
            return i;
        }
        i = i + 1;
    }
    i
}

impl GamesControl {
    /// Whether this is game `id`, stored as `row`, as shown.
    pub open spec fn shows(&self, store: &Store, id: i32, row: NewGame) -> bool {
        &&& self.id == id
        &&& self.name@ == row.name@
        &&& self.genre@ == row.genre@
        &&& stored_date_text(row.release_date as int) == Some(self.release_date@)
        &&& self.prime_cost == row.prime_cost
        &&& self.publisher@ == store.publishers().row(row.publisher_id).name@
        &&& self.publisher_id == row.publisher_id
        &&& self.cost == row.cost
        &&& self.is_subscribable == row.is_subscribable
    }

    /// Game `id`, stored as `row`, as shown, with its publisher's name as it
    /// is now; fails with `InvalidForeignKey` where the publisher does not
    /// exist, else with `InvalidDate` where the stored release date stands
    /// for no date.
    pub fn make_games_control(store: &Store, id: i32, row: &NewGame) -> (r: Result<Self, ServerError>)
        requires
            store.wf(),
        ensures
            r is Ok <==> game_displayable(store, *row),
            r matches Ok(v) ==> v.shows(store, id, *row),
            r matches Err(e) ==> if store.game_links_ok(*row) {
                e is InvalidDate
            } else {
                e is InvalidForeignKey
            },
    {
        let publisher = match store.publisher_table().get(row.publisher_id) {
            Some(p) => p.name.clone(),
            None => return Err(ServerError::InvalidForeignKey(String::from_str(
                "key (publisher_id) is not present in table \"publishers\"",
            ))),
        };
        let release_date = match stored_to_display(row.release_date) {
            Ok(s) => s,
            Err(e) => return Err(e),
        };
        Ok(
            GamesControl {
                id,
                name: row.name.clone(),
                genre: row.genre.clone(),
                release_date,
                prime_cost: row.prime_cost,
                publisher,
                publisher_id: row.publisher_id,
                cost: row.cost,
                is_subscribable: row.is_subscribable,
            },
        )
    }

    /// Rewrites the shown release date from pattern `from` to pattern `to`;
    /// where it does not read with `from`, or cannot be written with `to`,
    /// fails with `InvalidDate` and changes nothing.
    pub fn change_date_format(&mut self, from: &str, to: &str) -> (r: Result<(), ServerError>)
        ensures
            final(self).id == old(self).id,
            final(self).name == old(self).name,
            final(self).genre == old(self).genre,
            final(self).prime_cost == old(self).prime_cost,
            final(self).publisher == old(self).publisher,
            final(self).publisher_id == old(self).publisher_id,
            final(self).cost == old(self).cost,
            final(self).is_subscribable == old(self).is_subscribable,
            match reformatted_date(old(self).release_date@, from@, to@) {
                Some(t) => r is Ok && final(self).release_date@ == t,
                None => r matches Err(e) && e is InvalidDate && final(self).release_date
                    == old(self).release_date,
            },
    {
        change_date_text(&mut self.release_date, from, to)
    }

    /// For each donor nickname that gave to game `id`, what it gave in all
    /// (users who share a nickname count as one donor), in the order the
    /// nicknames first gave; and the sum of all donations to the game.
    #[verifier::rlimit(100)]
    pub fn get_total_donations(store: &Store, id: i32) -> (r: (Vec<TotalDonations>, i128))
        requires
            store.wf(),
        ensures
            forall|i: int, j: int| 0 <= i < j < r.0@.len() ==> r.0@[i].user@ != r.0@[j].user@,
            forall|i: int| 0 <= i < r.0@.len() ==> #[trigger] r.0@[i].amount == donor_sum(
                donation_pairs(store, id),
                donation_pairs(store, id).len() as int,
                r.0@[i].user@,
            ),
            forall|i: int| 0 <= i < r.0@.len() ==> is_donor(store, id, #[trigger] r.0@[i].user@),
            forall|q: int| 0 <= q < donation_pairs(store, id).len() ==> has_total(r.0@, #[trigger] donation_pairs(store, id)[q].0),
            r.1 == total_sum(donation_pairs(store, id), donation_pairs(store, id).len() as int),
    {
        let t = store.donation_table();
        let users = store.user_table();
        let pos = t.find_linked(0, id);
        let ghost p = donation_pairs(store, id);
        proof {
            t.lemma_wf();
            t.lemma_linked_upto(t.len(), 0, id);
            lemma_donation_pairs_bounded(store, id);
            reveal(grouped);
        }
        let mut names: Vec<String> = Vec::new();
        let mut sums: Vec<i128> = Vec::new();
        let ghost mut gn: Seq<Seq<char>> = Seq::empty();
        let ghost mut gs: Seq<int> = Seq::empty();
        let ghost mut wit: Seq<int> = Seq::empty();
        let ghost mut src: Seq<int> = Seq::empty();
        let mut total: i128 = 0;
        let mut j: usize = 0;
        while j < pos.len()
            invariant
                store.wf(),
                *t == store.donations(),
                *users == store.users(),
                p == donation_pairs(store, id),
                pos@.len() == p.len(),
                p.len() == t.linked(0, id).len(),
                p.len() < MAX_ID,
                forall|q: int| 0 <= q < pos@.len() ==> pos@[q] as int == #[trigger] t.linked(0, id)[q],
                forall|q: int| 0 <= q < t.linked(0, id).len() ==> 0 <= #[trigger] t.linked(0, id)[q] < t.len(),
                forall|q: int| 0 <= q < p.len() ==> -AMOUNT_BOUND <= #[trigger] p[q].1 <= AMOUNT_BOUND,
                t.ids().len() == t.entries().len(),
                j <= pos@.len(),
                names@.len() == gn.len(),
                sums@.len() == gs.len(),
                forall|i: int| 0 <= i < gn.len() ==> #[trigger] names@[i]@ == gn[i],
                forall|i: int| 0 <= i < gs.len() ==> #[trigger] sums@[i] == gs[i],
                grouped(p, j as int, gn, gs, wit, src),
                total == total_sum(p, j as int),
            decreases pos@.len() - j,
        {
            let k = pos[j];
            proof {
                assert(0 <= t.linked(0, id)[j as int] < t.len());
                assert(store.users().contains(t.entries()[k as int].link(1)));
            }
            let row = t.row_at(k);
            let nick: &String = match users.get(row.user_id) {
                Some(u) => &u.nickname,
                None => {
                    proof {
                        assert(false);
                    }
                    return (Vec::new(), 0);
                },
            };
            let amount = row.amount as i128;
            proof {
                lemma_donation_pair(store, id, j as int);
                assert(p[j as int].0 == nick@);
                assert(p[j as int].1 == amount);
                lemma_sum_bounds(p, j as int, nick@);
            }
            let f = find_name(&names, nick);
            if f < names.len() {
                proof {
                    assert(gn[f as int] == nick@);
                    reveal(grouped);
                    lemma_sum_bounds(p, j as int, gn[f as int]);
                    lemma_grouped_add_existing(p, j as int, gn, gs, wit, src, f as int);
                    gs = gs.update(f as int, gs[f as int] + p[j as int].1);
                    wit = wit.push(f as int);
                }
                let s = sums[f] + amount;
                sums.set(f, s);
            } else {
                proof {
                    assert forall|i: int| 0 <= i < gn.len() implies gn[i] != p[j as int].0 by {
                        assert(names@[i]@ == gn[i]);
                    }
                    lemma_grouped_add_new(p, j as int, gn, gs, wit, src);
                    wit = wit.push(gn.len() as int);
                    src = src.push(j as int);
                    gn = gn.push(p[j as int].0);
                    gs = gs.push(p[j as int].1);
                }
                names.push(nick.clone());
                sums.push(amount);
            }
            total = total + amount;
            j = j + 1;
        }
        let mut out: Vec<TotalDonations> = Vec::new();
        let mut i: usize = 0;
        assert(j == p.len());
        while i < names.len()
            invariant
                names@.len() == sums@.len(),
                names@.len() == gn.len(),
                forall|q: int| 0 <= q < gn.len() ==> #[trigger] names@[q]@ == gn[q],
                forall|q: int| 0 <= q < gs.len() ==> #[trigger] sums@[q] == gs[q],
                sums@.len() == gs.len(),
                i <= names@.len(),
                out@.len() == i,
                forall|q: int| 0 <= q < i ==> #[trigger] out@[q].user@ == gn[q] && out@[q].amount == gs[q],
            decreases names@.len() - i,
        {
            out.push(TotalDonations { user: names[i].clone(), amount: sums[i] });
            i = i + 1;
        }
        proof {
            lemma_grouped_done(p, gn, gs, wit, src);
            assert forall|a: int, b: int| 0 <= a < b < out@.len() implies out@[a].user@ != out@[b].user@ by {
                assert(out@[a].user@ == gn[a]);
                assert(out@[b].user@ == gn[b]);
            }
            assert forall|a: int| 0 <= a < out@.len() implies #[trigger] out@[a].amount == donor_sum(p, p.len() as int, out@[a].user@) by {
                assert(out@[a].user@ == gn[a]);
            }
        }
        let r = (out, total);
        proof {
            assert forall|i: int| 0 <= i < r.0@.len() implies is_donor(store, id, #[trigger] r.0@[i].user@) by {
                assert(r.0@[i].user@ == gn[i]);
                assert(p[src[i]].0 == gn[i]);
            }
            assert forall|q: int| 0 <= q < donation_pairs(store, id).len() implies has_total(r.0@, #[trigger] donation_pairs(store, id)[q].0) by {
                let i = wit[q];
                assert(r.0@[i].user@ == gn[i]);
            }
        }
        r
    }

    /// Every row, in ascending order of identifier, as shown; fails where a
    /// row cannot be shown.
    pub fn get_games(store: &Store) -> (r: Result<Vec<GamesControl>, ServerError>)
        requires
            store.wf(),
        ensures
            r is Ok <==> forall|i: int| 0 <= i < store.games().len() ==> #[trigger] game_displayable(store, store.games().entries()[i]),
            r matches Ok(v) ==> v@.len() == store.games().len() && (forall|i: int| 0 <= i < v@.len() ==> #[trigger] v@[i].shows(
                store,
                store.games().ids()[i],
                store.games().entries()[i],
            )) && (forall|i: int, j: int| 0 <= i < j < v@.len() ==> v@[i].id < v@[j].id),
            r matches Err(e) ==> e is InvalidDate,
    {
        let t = store.game_table();
        proof {
            t.lemma_wf();
        }
        let n = t.size();
        let mut out: Vec<GamesControl> = Vec::new();
        let mut k: usize = 0;
        while k < n
            invariant
                store.wf(),
                *t == store.games(),
                n == t.len(),
                t.ids().len() == t.entries().len(),
                strictly_ascending(t.ids()),
                k <= n,
                out@.len() == k,
                forall|i: int| 0 <= i < k ==> #[trigger] out@[i].shows(store, t.ids()[i], t.entries()[i]),
                forall|i: int| 0 <= i < k ==> #[trigger] game_displayable(store, t.entries()[i]),
            decreases n - k,
        {
            proof {
            assert(store.publishers().contains(t.entries()[k as int].link(0)));
            }
            match GamesControl::make_games_control(store, t.id_at(k), t.row_at(k)) {
                Ok(v) => out.push(v),
                Err(e) => return Err(e),
            }
            k = k + 1;
        }
        proof {
            assert forall|i: int, j: int| 0 <= i < j < out@.len() implies out@[i].id < out@[j].id by {
                assert(out@[i].shows(store, t.ids()[i], t.entries()[i]));
                assert(out@[j].shows(store, t.ids()[j], t.entries()[j]));
            }
        }
        Ok(out)
    }

    /// Row `id` as shown; fails with not-found where there is no such row.
    pub fn get_game_by_id(store: &Store, id: i32) -> (r: Result<GamesControl, ServerError>)
        requires
            store.wf(),
        ensures
            !store.games().contains(id) ==> (r matches Err(e) && e.is_not_found()),
            store.games().contains(id) ==> (r is Ok <==> game_displayable(store, store.games().row(id))),
            r matches Ok(v) ==> store.games().contains(id) && v.shows(store, id, store.games().row(id)),
            store.games().contains(id) ==> (r matches Err(e) ==> e is InvalidDate),
    {
        let t = store.game_table();
        match t.position(id) {
            None => Err(ServerError::not_found()),
            Some(k) => {
                proof {
                    t.lemma_wf();
                    t.lemma_index_of(k as int);
                    assert(store.publishers().contains(t.entries()[k as int].link(0)));
                }
                GamesControl::make_games_control(store, id, t.row_at(k))
            },
        }
    }

    /// Adds a row; fails with `InvalidForeignKey` where one of its foreign
    /// keys names no row, and leaves the store as it was on any failure.
    pub fn add_game(store: &mut Store, row: NewGame) -> (r: Result<(), ServerError>)
        requires
            old(store).wf(),
        ensures
            final(store).wf(),
            r is Ok <==> old(store).game_links_ok(row) && old(store).games().next() < MAX_ID,
            r matches Err(e) ==> *final(store) == *old(store) && if old(store).game_links_ok(row) {
                e is InternalError
            } else {
                e is InvalidForeignKey
            },
            r is Ok ==> final(store).games().ids() == old(store).games().ids().push(old(store).games().next() as i32)
                && final(store).games().entries() == old(store).games().entries().push(row)
                && final(store).same_except(old(store), 1),
    {
        match store.insert_game(row) {
            Ok(_) => Ok(()),
            Err(e) => Err(e),
        }
    }

    /// Replaces every field of row `id`; fails with not-found where there is
    /// no such row, with `InvalidForeignKey` where a foreign key of `row`
    /// names no row, and leaves the store as it was on any failure.
    pub fn update_game(store: &mut Store, id: i32, row: NewGame) -> (r: Result<(), ServerError>)
        requires
            old(store).wf(),
        ensures
            final(store).wf(),
            !old(store).games().contains(id) ==> (r matches Err(e) && e.is_not_found()),
            old(store).games().contains(id) && !old(store).game_links_ok(row) ==> (r matches Err(e)
                && e is InvalidForeignKey),
            old(store).games().contains(id) && old(store).game_links_ok(row) ==> r is Ok,
            r is Err ==> *final(store) == *old(store),
            r is Ok ==> final(store).games().ids() == old(store).games().ids()
                && final(store).games().entries() == old(store).games().entries().update(
                old(store).games().ids().index_of(id),
                row,
            ) && final(store).same_except(old(store), 1),
    {
        store.replace_game(id, row)
    }

    /// Removes row `id`; fails with not-found where there is no such row,
    /// with `InvalidForeignKey` where another row refers to it, and leaves
    /// the store as it was on any failure.
    pub fn delete_game(store: &mut Store, id: i32) -> (r: Result<(), ServerError>)
        requires
            old(store).wf(),
        ensures
            final(store).wf(),
            !old(store).games().contains(id) ==> (r matches Err(e) && e.is_not_found()),
            old(store).games().contains(id) && old(store).game_referenced(id) ==> (r matches Err(e)
                && e is InvalidForeignKey),
            old(store).games().contains(id) && !old(store).game_referenced(id) ==> r is Ok,
            r is Err ==> *final(store) == *old(store),
            r is Ok ==> (final(store).games().ids(), final(store).games().entries()) == old(store).games().without(id)
                && final(store).same_except(old(store), 1),
    {
        store.remove_game(id)
    }

    /// The jobs on game `id`, in ascending order of identifier, as shown; fails where one
    /// cannot be shown.
    pub fn get_game_staff(store: &Store, id: i32) -> (r: Result<Vec<JobsControl>, ServerError>)
        requires
            store.wf(),
        ensures
            r is Ok <==> forall|j: int| 0 <= j < store.jobs().linked(0, id).len()
                ==> #[trigger] job_displayable(store, store.jobs().linked_row(0, id, j)),
            r matches Ok(v) ==> v@.len() == store.jobs().linked(0, id).len()
                && forall|j: int| 0 <= j < v@.len() ==> #[trigger] v@[j].shows(
                store,
                store.jobs().linked_id(0, id, j),
                store.jobs().linked_row(0, id, j),
            ),
            r matches Err(e) ==> e is InvalidDate,
    {
        let t = store.job_table();
        let pos = t.find_linked(0, id);
        proof {
            t.lemma_wf();
            t.lemma_linked_upto(t.len(), 0, id);
        }
        let mut out: Vec<JobsControl> = Vec::new();
        let mut j: usize = 0;
        while j < pos.len()
            invariant
                store.wf(),
                *t == store.jobs(),
                pos@.len() == t.linked(0, id).len(),
                forall|q: int| 0 <= q < pos@.len() ==> pos@[q] as int == #[trigger] t.linked(0, id)[q],
                forall|q: int| 0 <= q < t.linked(0, id).len() ==> 0 <= #[trigger] t.linked(0, id)[q] < t.len(),
                t.ids().len() == t.entries().len(),
                j <= pos@.len(),
                out@.len() == j,
                forall|q: int| 0 <= q < j ==> #[trigger] out@[q].shows(store, t.linked_id(0, id, q), t.linked_row(0, id, q)),
                forall|q: int| 0 <= q < j ==> #[trigger] job_displayable(store, t.linked_row(0, id, q)),
            decreases pos@.len() - j,
        {
            let k = pos[j];
            proof {
                assert(0 <= t.linked(0, id)[j as int] < t.len());
                assert(store.games().contains(t.entries()[k as int].link(0)));
                assert(store.staff().contains(t.entries()[k as int].link(1)));
            }
            match JobsControl::make_jobs_control(store, t.id_at(k), t.row_at(k)) {
                Ok(v) => out.push(v),
                Err(e) => {
                    proof {
                        assert(!job_displayable(store, t.linked_row(0, id, j as int)));
                    }
                    return Err(e);
                },
            }
            j = j + 1;
        }
        Ok(out)
    }

    /// The donations to game `id`, in ascending order of identifier, as shown; fails where one
    /// cannot be shown.
    pub fn get_donations(store: &Store, id: i32) -> (r: Result<Vec<DonationsControl>, ServerError>)
        requires
            store.wf(),
        ensures
            r is Ok <==> forall|j: int| 0 <= j < store.donations().linked(0, id).len()
                ==> #[trigger] donation_displayable(store, store.donations().linked_row(0, id, j)),
            r matches Ok(v) ==> v@.len() == store.donations().linked(0, id).len()
                && forall|j: int| 0 <= j < v@.len() ==> #[trigger] v@[j].shows(
                store,
                store.donations().linked_id(0, id, j),
                store.donations().linked_row(0, id, j),
            ),
            r matches Err(e) ==> e is InvalidDate,
    {
        let t = store.donation_table();
        let pos = t.find_linked(0, id);
        proof {
            t.lemma_wf();
            t.lemma_linked_upto(t.len(), 0, id);
        }
        let mut out: Vec<DonationsControl> = Vec::new();
        let mut j: usize = 0;
        while j < pos.len()
            invariant
                store.wf(),
                *t == store.donations(),
                pos@.len() == t.linked(0, id).len(),
                forall|q: int| 0 <= q < pos@.len() ==> pos@[q] as int == #[trigger] t.linked(0, id)[q],
                forall|q: int| 0 <= q < t.linked(0, id).len() ==> 0 <= #[trigger] t.linked(0, id)[q] < t.len(),
                t.ids().len() == t.entries().len(),
                j <= pos@.len(),
                out@.len() == j,
                forall|q: int| 0 <= q < j ==> #[trigger] out@[q].shows(store, t.linked_id(0, id, q), t.linked_row(0, id, q)),
                forall|q: int| 0 <= q < j ==> #[trigger] donation_displayable(store, t.linked_row(0, id, q)),
            decreases pos@.len() - j,
        {
            let k = pos[j];
            proof {
                assert(0 <= t.linked(0, id)[j as int] < t.len());
                assert(store.games().contains(t.entries()[k as int].link(0)));
                assert(store.users().contains(t.entries()[k as int].link(1)));
            }
            match DonationsControl::make_donations_control(store, t.id_at(k), t.row_at(k)) {
                Ok(v) => out.push(v),
                Err(e) => {
                    proof {
                        assert(!donation_displayable(store, t.linked_row(0, id, j as int)));
                    }
                    return Err(e);
                },
            }
            j = j + 1;
        }
        Ok(out)
    }

    /// The investments in game `id`, in ascending order of identifier, as shown; fails where one
    /// cannot be shown.
    pub fn get_investments(store: &Store, id: i32) -> (r: Result<Vec<InvestmentsControl>, ServerError>)
        requires
            store.wf(),
        ensures
            r is Ok <==> forall|j: int| 0 <= j < store.investments().linked(0, id).len()
                ==> #[trigger] investment_displayable(store, store.investments().linked_row(0, id, j)),
            r matches Ok(v) ==> v@.len() == store.investments().linked(0, id).len()
                && forall|j: int| 0 <= j < v@.len() ==> #[trigger] v@[j].shows(
                store,
                store.investments().linked_id(0, id, j),
                store.investments().linked_row(0, id, j),
            ),
            r matches Err(e) ==> false,
    {
        let t = store.investment_table();
        let pos = t.find_linked(0, id);
        proof {
            t.lemma_wf();
            t.lemma_linked_upto(t.len(), 0, id);
        }
        let mut out: Vec<InvestmentsControl> = Vec::new();
        let mut j: usize = 0;
        while j < pos.len()
            invariant
                store.wf(),
                *t == store.investments(),
                pos@.len() == t.linked(0, id).len(),
                forall|q: int| 0 <= q < pos@.len() ==> pos@[q] as int == #[trigger] t.linked(0, id)[q],
                forall|q: int| 0 <= q < t.linked(0, id).len() ==> 0 <= #[trigger] t.linked(0, id)[q] < t.len(),
                t.ids().len() == t.entries().len(),
                j <= pos@.len(),
                out@.len() == j,
                forall|q: int| 0 <= q < j ==> #[trigger] out@[q].shows(store, t.linked_id(0, id, q), t.linked_row(0, id, q)),
                forall|q: int| 0 <= q < j ==> #[trigger] investment_displayable(store, t.linked_row(0, id, q)),
            decreases pos@.len() - j,
        {
            let k = pos[j];
            proof {
                assert(0 <= t.linked(0, id)[j as int] < t.len());
                assert(store.games().contains(t.entries()[k as int].link(0)));
                assert(store.investors().contains(t.entries()[k as int].link(1)));
            }
            match InvestmentsControl::make_investments_control(store, t.id_at(k), t.row_at(k)) {
                Ok(v) => out.push(v),
                Err(e) => {
                    proof {
                        assert(!investment_displayable(store, t.linked_row(0, id, j as int)));
                    }
                    return Err(e);
                },
            }
            j = j + 1;
        }
        Ok(out)
    }

    /// The statistics of game `id`: the identifier, the jobs on it, the
    /// donations to it, the investments in it, what each donor nickname gave
    /// and the sum of all donations; fails where a job or a donation cannot
    /// be shown.
    pub fn get_statistic(store: &Store, id: i32) -> (r: Result<
        (i32, Vec<JobsControl>, Vec<DonationsControl>, Vec<InvestmentsControl>, Vec<TotalDonations>, i128),
        ServerError,
    >)
        requires
            store.wf(),
        ensures
            r is Ok <==> (forall|j: int| 0 <= j < store.jobs().linked(0, id).len()
                ==> #[trigger] job_displayable(store, store.jobs().linked_row(0, id, j)))
                && (forall|j: int| 0 <= j < store.donations().linked(0, id).len()
                ==> #[trigger] donation_displayable(store, store.donations().linked_row(0, id, j))),
            r matches Ok((i, jobs, donations, investments, totals, sum)) ==> {
                &&& i == id
                &&& jobs@.len() == store.jobs().linked(0, id).len()
                &&& forall|j: int| 0 <= j < jobs@.len() ==> #[trigger] jobs@[j].shows(
                    store,
                    store.jobs().linked_id(0, id, j),
                    store.jobs().linked_row(0, id, j),
                )
                &&& donations@.len() == store.donations().linked(0, id).len()
                &&& forall|j: int| 0 <= j < donations@.len() ==> #[trigger] donations@[j].shows(
                    store,
                    store.donations().linked_id(0, id, j),
                    store.donations().linked_row(0, id, j),
                )
                &&& investments@.len() == store.investments().linked(0, id).len()
                &&& forall|j: int| 0 <= j < investments@.len() ==> #[trigger] investments@[j].shows(
                    store,
                    store.investments().linked_id(0, id, j),
                    store.investments().linked_row(0, id, j),
                )
                &&& forall|a: int, b: int| 0 <= a < b < totals@.len() ==> totals@[a].user@ != totals@[b].user@
                &&& forall|a: int| 0 <= a < totals@.len() ==> #[trigger] totals@[a].amount == donor_sum(
                    donation_pairs(store, id),
                    donation_pairs(store, id).len() as int,
                    totals@[a].user@,
                )
                &&& forall|a: int| 0 <= a < totals@.len() ==> is_donor(store, id, #[trigger] totals@[a].user@)
                &&& forall|q: int| 0 <= q < donation_pairs(store, id).len() ==> has_total(totals@, #[trigger] donation_pairs(store, id)[q].0)
                &&& sum == total_sum(donation_pairs(store, id), donation_pairs(store, id).len() as int)
            },
            r matches Err(e) ==> e is InvalidDate,
    {
        let (totals, sum) = Self::get_total_donations(store, id);
        let jobs = match Self::get_game_staff(store, id) {
            Ok(v) => v,
            Err(e) => return Err(e),
        };
        let donations = match Self::get_donations(store, id) {
            Ok(v) => v,
            Err(e) => return Err(e),
        };
        let investments = match Self::get_investments(store, id) {
            Ok(v) => v,
            Err(e) => return Err(e),
        };
        Ok((id, jobs, donations, investments, totals, sum))
    }
}

} // verus!
