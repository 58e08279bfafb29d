use vstd::prelude::*;
use vstd::string::StringExecFns;

use crate::errors::ServerError;
use crate::records::{
    NewDonation, NewGame, NewInvestment, NewInvestor, NewJob, NewPublisher, NewStaff, NewUser,
};
use crate::table::{
    lemma_links_child_push, lemma_links_child_remove, lemma_links_child_update,
    lemma_links_parent_push, lemma_links_parent_remove, links_into, Linked, Table, MAX_ID,
};

verus! {

/// All records of the studio: one table per kind, and every foreign key
/// naming a row that exists.
pub struct Store {
    publishers: Table<NewPublisher>,
    games: Table<NewGame>,
    staff: Table<NewStaff>,
    jobs: Table<NewJob>,
    users: Table<NewUser>,
    donations: Table<NewDonation>,
    investors: Table<NewInvestor>,
    investments: Table<NewInvestment>,
}

impl Store {
    pub closed spec fn publishers(&self) -> Table<NewPublisher> {
        self.publishers
    }

    pub closed spec fn games(&self) -> Table<NewGame> {
        self.games
    }

    pub closed spec fn staff(&self) -> Table<NewStaff> {
        self.staff
    }

    pub closed spec fn jobs(&self) -> Table<NewJob> {
        self.jobs
    }

    pub closed spec fn users(&self) -> Table<NewUser> {
        self.users
    }

    pub closed spec fn donations(&self) -> Table<NewDonation> {
        self.donations
    }

    pub closed spec fn investors(&self) -> Table<NewInvestor> {
        self.investors
    }

    pub closed spec fn investments(&self) -> Table<NewInvestment> {
        self.investments
    }

    /// Each table is well formed and each foreign key names an existing row.
    pub open spec fn wf(&self) -> bool {
        &&& self.publishers().wf()
        &&& self.games().wf()
        &&& self.staff().wf()
        &&& self.jobs().wf()
        &&& self.users().wf()
        &&& self.donations().wf()
        &&& self.investors().wf()
        &&& self.investments().wf()
        &&& links_into(self.games(), 0, self.publishers())
        &&& links_into(self.jobs(), 0, self.games())
        &&& links_into(self.jobs(), 1, self.staff())
        &&& links_into(self.donations(), 0, self.games())
        &&& links_into(self.donations(), 1, self.users())
        &&& links_into(self.investments(), 0, self.games())
        &&& links_into(self.investments(), 1, self.investors())
    }

    /// Every table but table `t` (in the order publishers, games, staff,
    /// jobs, users, donations, investors, investments) is the same in both.
    pub open spec fn same_except(&self, other: &Store, t: int) -> bool {
        &&& (0 != t ==> self.publishers() == other.publishers())
        &&& (1 != t ==> self.games() == other.games())
        &&& (2 != t ==> self.staff() == other.staff())
        &&& (3 != t ==> self.jobs() == other.jobs())
        &&& (4 != t ==> self.users() == other.users())
        &&& (5 != t ==> self.donations() == other.donations())
        &&& (6 != t ==> self.investors() == other.investors())
        &&& (7 != t ==> self.investments() == other.investments())
    }

    /// A store with no records.
    pub fn new() -> (s: Store)
        ensures
            s.wf(),
            s.publishers().len() == 0,
            s.games().len() == 0,
            s.staff().len() == 0,
            s.jobs().len() == 0,
            s.users().len() == 0,
            s.donations().len() == 0,
            s.investors().len() == 0,
            s.investments().len() == 0,
    {
        Store {
            publishers: Table::new(),
            games: Table::new(),
            staff: Table::new(),
            jobs: Table::new(),
            users: Table::new(),
            donations: Table::new(),
            investors: Table::new(),
            investments: Table::new(),
        }
    }

    pub fn publisher_table(&self) -> (r: &Table<NewPublisher>)
        ensures
            *r == self.publishers(),
    {
        &self.publishers
    }

    /// Whether every foreign key of `row` names an existing row.
    pub open spec fn publisher_links_ok(&self, row: NewPublisher) -> bool {
        true
    }

    /// Whether some row refers to row `id` of this table.
    pub open spec fn publisher_referenced(&self, id: i32) -> bool {
        self.games().refers(0, id)
    }

    /// Adds `row` under a fresh identifier; fails with `InvalidForeignKey`
    /// where a foreign key names no row.
    pub fn insert_publisher(&mut self, row: NewPublisher) -> (r: Result<i32, ServerError>)
        requires
            old(self).wf(),
        ensures
            final(self).wf(),
            r is Ok <==> old(self).publisher_links_ok(row) && old(self).publishers().next() < MAX_ID,
            r matches Err(e) ==> *final(self) == *old(self) && if old(self).publisher_links_ok(row) {
                e is InternalError
            } else {
                e is InvalidForeignKey
            },
            r matches Ok(id) ==> old(self).publisher_links_ok(row) && id == old(self).publishers().next()
                && final(self).publishers().ids() == old(self).publishers().ids().push(id)
                && final(self).publishers().entries() == old(self).publishers().entries().push(row)
                && final(self).same_except(old(self), 0),
    {
        let ghost g = row;
        let r = self.publishers.insert(row);
        proof {
            if r is Ok {
                lemma_links_parent_push(self.games, 0, old(self).publishers, self.publishers, r->Ok_0);
            }
        }
        r
    }

    /// Puts `row` in place of row `id`; fails with not-found where there is
    /// no such row, and with `InvalidForeignKey` where a foreign key of
    /// `row` names no row.
    pub fn replace_publisher(&mut self, id: i32, row: NewPublisher) -> (r: Result<(), ServerError>)
        requires
            old(self).wf(),
        ensures
            final(self).wf(),
            !old(self).publishers().contains(id) ==> (r matches Err(e) && e.is_not_found()),
            old(self).publishers().contains(id) && !old(self).publisher_links_ok(row) ==> (r matches Err(e)
                && e is InvalidForeignKey),
            old(self).publishers().contains(id) && old(self).publisher_links_ok(row) ==> r is Ok,
            r is Err ==> *final(self) == *old(self),
            r is Ok ==> final(self).publishers().ids() == old(self).publishers().ids()
                && final(self).publishers().entries() == old(self).publishers().entries().update(
                old(self).publishers().ids().index_of(id),
                row,
            ) && final(self).publishers().next() == old(self).publishers().next()
                && final(self).same_except(old(self), 0),
    {
        let pos = match self.publishers.position(id) {
            Some(k) => k,
            None => return Err(ServerError::not_found()),
        };
        let ghost g = row;
        let r = self.publishers.replace(id, row);
        proof {
            old(self).publishers.lemma_wf();
            assert(links_into(self.games(), 0, self.publishers()));
        }
        r
    }

    /// Takes out row `id`; fails with not-found where there is no such row,
    /// and with `InvalidForeignKey` where another row refers to it.
    pub fn remove_publisher(&mut self, id: i32) -> (r: Result<(), ServerError>)
        requires
            old(self).wf(),
        ensures
            final(self).wf(),
            !old(self).publishers().contains(id) ==> (r matches Err(e) && e.is_not_found()),
            old(self).publishers().contains(id) && old(self).publisher_referenced(id) ==> (r matches Err(e)
                && e is InvalidForeignKey),
            old(self).publishers().contains(id) && !old(self).publisher_referenced(id) ==> r is Ok,
            r is Err ==> *final(self) == *old(self),
            r is Ok ==> (final(self).publishers().ids(), final(self).publishers().entries()) == old(self).publishers().without(id)
                && final(self).publishers().next() == old(self).publishers().next()
                && final(self).same_except(old(self), 0),
    {
        let pos = match self.publishers.position(id) {
            Some(k) => k,
            None => return Err(ServerError::not_found()),
        };
        if self.games.any_linked(0, id) {
            return Err(ServerError::InvalidForeignKey(String::from_str(
                "update or delete on table \"publishers\" violates foreign key constraint \"games_publisher_id_fkey\" on table \"games\"",
            )));
        }
        let r = self.publishers.remove(id);
        proof {
            old(self).publishers.lemma_wf();
            lemma_links_parent_remove(self.games, 0, old(self).publishers, self.publishers, id);
        }
        match r {
            Ok(_) => Ok(()),
            Err(e) => Err(e),
        }
    }

    pub fn game_table(&self) -> (r: &Table<NewGame>)
        ensures
            *r == self.games(),
    {
        &self.games
    }

    /// Whether every foreign key of `row` names an existing row.
    pub open spec fn game_links_ok(&self, row: NewGame) -> bool {
        self.publishers().contains(row.link(0))
    }

    /// Whether some row refers to row `id` of this table.
    pub open spec fn game_referenced(&self, id: i32) -> bool {
        self.jobs().refers(0, id) || self.donations().refers(0, id) || self.investments().refers(0, id)
    }

    /// Adds `row` under a fresh identifier; fails with `InvalidForeignKey`
    /// where a foreign key names no row.
    pub fn insert_game(&mut self, row: NewGame) -> (r: Result<i32, ServerError>)
        requires
            old(self).wf(),
        ensures
            final(self).wf(),
            r is Ok <==> old(self).game_links_ok(row) && old(self).games().next() < MAX_ID,
            r matches Err(e) ==> *final(self) == *old(self) && if old(self).game_links_ok(row) {
                e is InternalError
            } else {
                e is InvalidForeignKey
            },
            r matches Ok(id) ==> old(self).game_links_ok(row) && id == old(self).games().next()
                && final(self).games().ids() == old(self).games().ids().push(id)
                && final(self).games().entries() == old(self).games().entries().push(row)
                && final(self).same_except(old(self), 1),
    {
        if self.publishers.position(row.publisher_id).is_none() {
            return Err(ServerError::InvalidForeignKey(String::from_str(
                "insert or update on table \"games\" violates foreign key constraint \"games_publisher_id_fkey\"",
            )));
        }
        let ghost g = row;
        let r = self.games.insert(row);
        proof {
            if r is Ok {
                lemma_links_child_push(old(self).games, self.games, g, 0, self.publishers);
                lemma_links_parent_push(self.jobs, 0, old(self).games, self.games, r->Ok_0);
                lemma_links_parent_push(self.donations, 0, old(self).games, self.games, r->Ok_0);
                lemma_links_parent_push(self.investments, 0, old(self).games, self.games, r->Ok_0);
            }
        }
        r
    }

    /// Puts `row` in place of row `id`; fails with not-found where there is
    /// no such row, and with `InvalidForeignKey` where a foreign key of
    /// `row` names no row.
    pub fn replace_game(&mut self, id: i32, row: NewGame) -> (r: Result<(), ServerError>)
        requires
            old(self).wf(),
        ensures
            final(self).wf(),
            !old(self).games().contains(id) ==> (r matches Err(e) && e.is_not_found()),
            old(self).games().contains(id) && !old(self).game_links_ok(row) ==> (r matches Err(e)
                && e is InvalidForeignKey),
            old(self).games().contains(id) && old(self).game_links_ok(row) ==> r is Ok,
            r is Err ==> *final(self) == *old(self),
            r is Ok ==> final(self).games().ids() == old(self).games().ids()
                && final(self).games().entries() == old(self).games().entries().update(
                old(self).games().ids().index_of(id),
                row,
            ) && final(self).games().next() == old(self).games().next()
                && final(self).same_except(old(self), 1),
    {
        let pos = match self.games.position(id) {
            Some(k) => k,
            None => return Err(ServerError::not_found()),
        };
        if self.publishers.position(row.publisher_id).is_none() {
            return Err(ServerError::InvalidForeignKey(String::from_str(
                "insert or update on table \"games\" violates foreign key constraint \"games_publisher_id_fkey\"",
            )));
        }
        let ghost g = row;
        let r = self.games.replace(id, row);
        proof {
            old(self).games.lemma_wf();
            lemma_links_child_update(old(self).games, self.games, pos as int, g, 0, self.publishers);
            assert(links_into(self.jobs(), 0, self.games()));
            assert(links_into(self.donations(), 0, self.games()));
            assert(links_into(self.investments(), 0, self.games()));
        }
        r
    }

    /// Takes out row `id`; fails with not-found where there is no such row,
    /// and with `InvalidForeignKey` where another row refers to it.
    pub fn remove_game(&mut self, id: i32) -> (r: Result<(), ServerError>)
        requires
            old(self).wf(),
        ensures
            final(self).wf(),
            !old(self).games().contains(id) ==> (r matches Err(e) && e.is_not_found()),
            old(self).games().contains(id) && old(self).game_referenced(id) ==> (r matches Err(e)
                && e is InvalidForeignKey),
            old(self).games().contains(id) && !old(self).game_referenced(id) ==> r is Ok,
            r is Err ==> *final(self) == *old(self),
            r is Ok ==> (final(self).games().ids(), final(self).games().entries()) == old(self).games().without(id)
                && final(self).games().next() == old(self).games().next()
                && final(self).same_except(old(self), 1),
    {
        let pos = match self.games.position(id) {
            Some(k) => k,
            None => return Err(ServerError::not_found()),
        };
        if self.jobs.any_linked(0, id) {
            return Err(ServerError::InvalidForeignKey(String::from_str(
                "update or delete on table \"games\" violates foreign key constraint \"jobs_game_id_fkey\" on table \"jobs\"",
            )));
        }
        if self.donations.any_linked(0, id) {
            return Err(ServerError::InvalidForeignKey(String::from_str(
                "update or delete on table \"games\" violates foreign key constraint \"donations_game_id_fkey\" on table \"donations\"",
            )));
        }
        if self.investments.any_linked(0, id) {
            return Err(ServerError::InvalidForeignKey(String::from_str(
                "update or delete on table \"games\" violates foreign key constraint \"investments_game_id_fkey\" on table \"investments\"",
            )));
        }
        let r = self.games.remove(id);
        proof {
            old(self).games.lemma_wf();
            lemma_links_child_remove(old(self).games, self.games, pos as int, 0, self.publishers);
            lemma_links_parent_remove(self.jobs, 0, old(self).games, self.games, id);
            lemma_links_parent_remove(self.donations, 0, old(self).games, self.games, id);
            lemma_links_parent_remove(self.investments, 0, old(self).games, self.games, id);
        }
        match r {
            Ok(_) => Ok(()),
            Err(e) => Err(e),
        }
    }

    pub fn staff_table(&self) -> (r: &Table<NewStaff>)
        ensures
            *r == self.staff(),
    {
        &self.staff
    }

    /// Whether every foreign key of `row` names an existing row.
    pub open spec fn staff_links_ok(&self, row: NewStaff) -> bool {
        true
    }

    /// Whether some row refers to row `id` of this table.
    pub open spec fn staff_referenced(&self, id: i32) -> bool {
        self.jobs().refers(1, id)
    }

    /// Adds `row` under a fresh identifier; fails with `InvalidForeignKey`
    /// where a foreign key names no row.
    pub fn insert_staff(&mut self, row: NewStaff) -> (r: Result<i32, ServerError>)
        requires
            old(self).wf(),
        ensures
            final(self).wf(),
            r is Ok <==> old(self).staff_links_ok(row) && old(self).staff().next() < MAX_ID,
            r matches Err(e) ==> *final(self) == *old(self) && if old(self).staff_links_ok(row) {
                e is InternalError
            } else {
                e is InvalidForeignKey
            },
            r matches Ok(id) ==> old(self).staff_links_ok(row) && id == old(self).staff().next()
                && final(self).staff().ids() == old(self).staff().ids().push(id)
                && final(self).staff().entries() == old(self).staff().entries().push(row)
                && final(self).same_except(old(self), 2),
    {
        let ghost g = row;
        let r = self.staff.insert(row);
        proof {
            if r is Ok {
                lemma_links_parent_push(self.jobs, 1, old(self).staff, self.staff, r->Ok_0);
            }
        }
        r
    }

    /// Puts `row` in place of row `id`; fails with not-found where there is
    /// no such row, and with `InvalidForeignKey` where a foreign key of
    /// `row` names no row.
    pub fn replace_staff(&mut self, id: i32, row: NewStaff) -> (r: Result<(), ServerError>)
        requires
            old(self).wf(),
        ensures
            final(self).wf(),
            !old(self).staff().contains(id) ==> (r matches Err(e) && e.is_not_found()),
            old(self).staff().contains(id) && !old(self).staff_links_ok(row) ==> (r matches Err(e)
                && e is InvalidForeignKey),
            old(self).staff().contains(id) && old(self).staff_links_ok(row) ==> r is Ok,
            r is Err ==> *final(self) == *old(self),
            r is Ok ==> final(self).staff().ids() == old(self).staff().ids()
                && final(self).staff().entries() == old(self).staff().entries().update(
                old(self).staff().ids().index_of(id),
                row,
            ) && final(self).staff().next() == old(self).staff().next()
                && final(self).same_except(old(self), 2),
    {
        let pos = match self.staff.position(id) {
            Some(k) => k,
            None => return Err(ServerError::not_found()),
        };
        let ghost g = row;
        let r = self.staff.replace(id, row);
        proof {
            old(self).staff.lemma_wf();
            assert(links_into(self.jobs(), 1, self.staff()));
        }
        r
    }

    /// Takes out row `id`; fails with not-found where there is no such row,
    /// and with `InvalidForeignKey` where another row refers to it.
    pub fn remove_staff(&mut self, id: i32) -> (r: Result<(), ServerError>)
        requires
            old(self).wf(),
        ensures
            final(self).wf(),
            !old(self).staff().contains(id) ==> (r matches Err(e) && e.is_not_found()),
            old(self).staff().contains(id) && old(self).staff_referenced(id) ==> (r matches Err(e)
                && e is InvalidForeignKey),
            old(self).staff().contains(id) && !old(self).staff_referenced(id) ==> r is Ok,
            r is Err ==> *final(self) == *old(self),
            r is Ok ==> (final(self).staff().ids(), final(self).staff().entries()) == old(self).staff().without(id)
                && final(self).staff().next() == old(self).staff().next()
                && final(self).same_except(old(self), 2),
    {
        let pos = match self.staff.position(id) {
            Some(k) => k,
            None => return Err(ServerError::not_found()),
        };
        if self.jobs.any_linked(1, id) {
            return Err(ServerError::InvalidForeignKey(String::from_str(
                "update or delete on table \"staff\" violates foreign key constraint \"jobs_staff_id_fkey\" on table \"jobs\"",
            )));
        }
        let r = self.staff.remove(id);
        proof {
            old(self).staff.lemma_wf();
            lemma_links_parent_remove(self.jobs, 1, old(self).staff, self.staff, id);
        }
        match r {
            Ok(_) => Ok(()),
            Err(e) => Err(e),
        }
    }

    pub fn job_table(&self) -> (r: &Table<NewJob>)
        ensures
            *r == self.jobs(),
    {
        &self.jobs
    }

    /// Whether every foreign key of `row` names an existing row.
    pub open spec fn job_links_ok(&self, row: NewJob) -> bool {
        self.games().contains(row.link(0)) && self.staff().contains(row.link(1))
    }

    /// Whether some row refers to row `id` of this table.
    pub open spec fn job_referenced(&self, id: i32) -> bool {
        false
    }

    /// Adds `row` under a fresh identifier; fails with `InvalidForeignKey`
    /// where a foreign key names no row.
    pub fn insert_job(&mut self, row: NewJob) -> (r: Result<i32, ServerError>)
        requires
            old(self).wf(),
        ensures
            final(self).wf(),
            r is Ok <==> old(self).job_links_ok(row) && old(self).jobs().next() < MAX_ID,
            r matches Err(e) ==> *final(self) == *old(self) && if old(self).job_links_ok(row) {
                e is InternalError
            } else {
                e is InvalidForeignKey
            },
            r matches Ok(id) ==> old(self).job_links_ok(row) && id == old(self).jobs().next()
                && final(self).jobs().ids() == old(self).jobs().ids().push(id)
                && final(self).jobs().entries() == old(self).jobs().entries().push(row)
                && final(self).same_except(old(self), 3),
    {
        if self.games.position(row.game_id).is_none() {
            return Err(ServerError::InvalidForeignKey(String::from_str(
                "insert or update on table \"jobs\" violates foreign key constraint \"jobs_game_id_fkey\"",
            )));
        }
        if self.staff.position(row.staff_id).is_none() {
            return Err(ServerError::InvalidForeignKey(String::from_str(
                "insert or update on table \"jobs\" violates foreign key constraint \"jobs_staff_id_fkey\"",
            )));
        }
        let ghost g = row;
        let r = self.jobs.insert(row);
        proof {
            if r is Ok {
                lemma_links_child_push(old(self).jobs, self.jobs, g, 0, self.games);
                lemma_links_child_push(old(self).jobs, self.jobs, g, 1, self.staff);
            }
        }
        r
    }

    /// Puts `row` in place of row `id`; fails with not-found where there is
    /// no such row, and with `InvalidForeignKey` where a foreign key of
    /// `row` names no row.
    pub fn replace_job(&mut self, id: i32, row: NewJob) -> (r: Result<(), ServerError>)
        requires
            old(self).wf(),
        ensures
            final(self).wf(),
            !old(self).jobs().contains(id) ==> (r matches Err(e) && e.is_not_found()),
            old(self).jobs().contains(id) && !old(self).job_links_ok(row) ==> (r matches Err(e)
                && e is InvalidForeignKey),
            old(self).jobs().contains(id) && old(self).job_links_ok(row) ==> r is Ok,
            r is Err ==> *final(self) == *old(self),
            r is Ok ==> final(self).jobs().ids() == old(self).jobs().ids()
                && final(self).jobs().entries() == old(self).jobs().entries().update(
                old(self).jobs().ids().index_of(id),
                row,
            ) && final(self).jobs().next() == old(self).jobs().next()
                && final(self).same_except(old(self), 3),
    {
        let pos = match self.jobs.position(id) {
            Some(k) => k,
            None => return Err(ServerError::not_found()),
        };
        if self.games.position(row.game_id).is_none() {
            return Err(ServerError::InvalidForeignKey(String::from_str(
                "insert or update on table \"jobs\" violates foreign key constraint \"jobs_game_id_fkey\"",
            )));
        }
        if self.staff.position(row.staff_id).is_none() {
            return Err(ServerError::InvalidForeignKey(String::from_str(
                "insert or update on table \"jobs\" violates foreign key constraint \"jobs_staff_id_fkey\"",
            )));
        }
        let ghost g = row;
        let r = self.jobs.replace(id, row);
        proof {
            old(self).jobs.lemma_wf();
            lemma_links_child_update(old(self).jobs, self.jobs, pos as int, g, 0, self.games);
            lemma_links_child_update(old(self).jobs, self.jobs, pos as int, g, 1, self.staff);
        }
        r
    }

    /// Takes out row `id`; fails with not-found where there is no such row,
    /// and with `InvalidForeignKey` where another row refers to it.
    pub fn remove_job(&mut self, id: i32) -> (r: Result<(), ServerError>)
        requires
            old(self).wf(),
        ensures
            final(self).wf(),
            !old(self).jobs().contains(id) ==> (r matches Err(e) && e.is_not_found()),
            old(self).jobs().contains(id) && old(self).job_referenced(id) ==> (r matches Err(e)
                && e is InvalidForeignKey),
            old(self).jobs().contains(id) && !old(self).job_referenced(id) ==> r is Ok,
            r is Err ==> *final(self) == *old(self),
            r is Ok ==> (final(self).jobs().ids(), final(self).jobs().entries()) == old(self).jobs().without(id)
                && final(self).jobs().next() == old(self).jobs().next()
                && final(self).same_except(old(self), 3),
    {
        let pos = match self.jobs.position(id) {
            Some(k) => k,
            None => return Err(ServerError::not_found()),
        };
        let r = self.jobs.remove(id);
        proof {
            old(self).jobs.lemma_wf();
            lemma_links_child_remove(old(self).jobs, self.jobs, pos as int, 0, self.games);
            lemma_links_child_remove(old(self).jobs, self.jobs, pos as int, 1, self.staff);
        }
        match r {
            Ok(_) => Ok(()),
            Err(e) => Err(e),
        }
    }

    pub fn user_table(&self) -> (r: &Table<NewUser>)
        ensures
            *r == self.users(),
    {
        &self.users
    }

    /// Whether every foreign key of `row` names an existing row.
    pub open spec fn user_links_ok(&self, row: NewUser) -> bool {
        true
    }

    /// Whether some row refers to row `id` of this table.
    pub open spec fn user_referenced(&self, id: i32) -> bool {
        self.donations().refers(1, id)
    }

    /// Adds `row` under a fresh identifier; fails with `InvalidForeignKey`
    /// where a foreign key names no row.
    pub fn insert_user(&mut self, row: NewUser) -> (r: Result<i32, ServerError>)
        requires
            old(self).wf(),
        ensures
            final(self).wf(),
            r is Ok <==> old(self).user_links_ok(row) && old(self).users().next() < MAX_ID,
            r matches Err(e) ==> *final(self) == *old(self) && if old(self).user_links_ok(row) {
                e is InternalError
            } else {
                e is InvalidForeignKey
            },
            r matches Ok(id) ==> old(self).user_links_ok(row) && id == old(self).users().next()
                && final(self).users().ids() == old(self).users().ids().push(id)
                && final(self).users().entries() == old(self).users().entries().push(row)
                && final(self).same_except(old(self), 4),
    {
        let ghost g = row;
        let r = self.users.insert(row);
        proof {
            if r is Ok {
                lemma_links_parent_push(self.donations, 1, old(self).users, self.users, r->Ok_0);
            }
        }
        r
    }

    /// Puts `row` in place of row `id`; fails with not-found where there is
    /// no such row, and with `InvalidForeignKey` where a foreign key of
    /// `row` names no row.
    pub fn replace_user(&mut self, id: i32, row: NewUser) -> (r: Result<(), ServerError>)
        requires
            old(self).wf(),
        ensures
            final(self).wf(),
            !old(self).users().contains(id) ==> (r matches Err(e) && e.is_not_found()),
            old(self).users().contains(id) && !old(self).user_links_ok(row) ==> (r matches Err(e)
                && e is InvalidForeignKey),
            old(self).users().contains(id) && old(self).user_links_ok(row) ==> r is Ok,
            r is Err ==> *final(self) == *old(self),
            r is Ok ==> final(self).users().ids() == old(self).users().ids()
                && final(self).users().entries() == old(self).users().entries().update(
                old(self).users().ids().index_of(id),
                row,
            ) && final(self).users().next() == old(self).users().next()
                && final(self).same_except(old(self), 4),
    {
        let pos = match self.users.position(id) {
            Some(k) => k,
            None => return Err(ServerError::not_found()),
        };
        let ghost g = row;
        let r = self.users.replace(id, row);
        proof {
            old(self).users.lemma_wf();
            assert(links_into(self.donations(), 1, self.users()));
        }
        r
    }

    /// Takes out row `id`; fails with not-found where there is no such row,
    /// and with `InvalidForeignKey` where another row refers to it.
    pub fn remove_user(&mut self, id: i32) -> (r: Result<(), ServerError>)
        requires
            old(self).wf(),
        ensures
            final(self).wf(),
            !old(self).users().contains(id) ==> (r matches Err(e) && e.is_not_found()),
            old(self).users().contains(id) && old(self).user_referenced(id) ==> (r matches Err(e)
                && e is InvalidForeignKey),
            old(self).users().contains(id) && !old(self).user_referenced(id) ==> r is Ok,
            r is Err ==> *final(self) == *old(self),
            r is Ok ==> (final(self).users().ids(), final(self).users().entries()) == old(self).users().without(id)
                && final(self).users().next() == old(self).users().next()
                && final(self).same_except(old(self), 4),
    {
        let pos = match self.users.position(id) {
            Some(k) => k,
            None => return Err(ServerError::not_found()),
        };
        if self.donations.any_linked(1, id) {
            return Err(ServerError::InvalidForeignKey(String::from_str(
                "update or delete on table \"users\" violates foreign key constraint \"donations_user_id_fkey\" on table \"donations\"",
            )));
        }
        let r = self.users.remove(id);
        proof {
            old(self).users.lemma_wf();
            lemma_links_parent_remove(self.donations, 1, old(self).users, self.users, id);
        }
        match r {
            Ok(_) => Ok(()),
            Err(e) => Err(e),
        }
    }

    pub fn donation_table(&self) -> (r: &Table<NewDonation>)
        ensures
            *r == self.donations(),
    {
        &self.donations
    }

    /// Whether every foreign key of `row` names an existing row.
    pub open spec fn donation_links_ok(&self, row: NewDonation) -> bool {
        self.games().contains(row.link(0)) && self.users().contains(row.link(1))
    }

    /// Whether some row refers to row `id` of this table.
    pub open spec fn donation_referenced(&self, id: i32) -> bool {
        false
    }

    /// Adds `row` under a fresh identifier; fails with `InvalidForeignKey`
    /// where a foreign key names no row.
    pub fn insert_donation(&mut self, row: NewDonation) -> (r: Result<i32, ServerError>)
        requires
            old(self).wf(),
        ensures
            final(self).wf(),
            r is Ok <==> old(self).donation_links_ok(row) && old(self).donations().next() < MAX_ID,
            r matches Err(e) ==> *final(self) == *old(self) && if old(self).donation_links_ok(row) {
                e is InternalError
            } else {
                e is InvalidForeignKey
            },
            r matches Ok(id) ==> old(self).donation_links_ok(row) && id == old(self).donations().next()
                && final(self).donations().ids() == old(self).donations().ids().push(id)
                && final(self).donations().entries() == old(self).donations().entries().push(row)
                && final(self).same_except(old(self), 5),
    {
        if self.games.position(row.game_id).is_none() {
            return Err(ServerError::InvalidForeignKey(String::from_str(
                "insert or update on table \"donations\" violates foreign key constraint \"donations_game_id_fkey\"",
            )));
        }
        if self.users.position(row.user_id).is_none() {
            return Err(ServerError::InvalidForeignKey(String::from_str(
                "insert or update on table \"donations\" violates foreign key constraint \"donations_user_id_fkey\"",
            )));
        }
        let ghost g = row;
        let r = self.donations.insert(row);
        proof {
            if r is Ok {
                lemma_links_child_push(old(self).donations, self.donations, g, 0, self.games);
                lemma_links_child_push(old(self).donations, self.donations, g, 1, self.users);
            }
        }
        r
    }

    /// Puts `row` in place of row `id`; fails with not-found where there is
    /// no such row, and with `InvalidForeignKey` where a foreign key of
    /// `row` names no row.
    pub fn replace_donation(&mut self, id: i32, row: NewDonation) -> (r: Result<(), ServerError>)
        requires
            old(self).wf(),
        ensures
            final(self).wf(),
            !old(self).donations().contains(id) ==> (r matches Err(e) && e.is_not_found()),
            old(self).donations().contains(id) && !old(self).donation_links_ok(row) ==> (r matches Err(e)
                && e is InvalidForeignKey),
            old(self).donations().contains(id) && old(self).donation_links_ok(row) ==> r is Ok,
            r is Err ==> *final(self) == *old(self),
            r is Ok ==> final(self).donations().ids() == old(self).donations().ids()
                && final(self).donations().entries() == old(self).donations().entries().update(
                old(self).donations().ids().index_of(id),
                row,
            ) && final(self).donations().next() == old(self).donations().next()
                && final(self).same_except(old(self), 5),
    {
        let pos = match self.donations.position(id) {
            Some(k) => k,
            None => return Err(ServerError::not_found()),
        };
        if self.games.position(row.game_id).is_none() {
            return Err(ServerError::InvalidForeignKey(String::from_str(
                "insert or update on table \"donations\" violates foreign key constraint \"donations_game_id_fkey\"",
            )));
        }
        if self.users.position(row.user_id).is_none() {
            return Err(ServerError::InvalidForeignKey(String::from_str(
                "insert or update on table \"donations\" violates foreign key constraint \"donations_user_id_fkey\"",
            )));
        }
        let ghost g = row;
        let r = self.donations.replace(id, row);
        proof {
            old(self).donations.lemma_wf();
            lemma_links_child_update(old(self).donations, self.donations, pos as int, g, 0, self.games);
            lemma_links_child_update(old(self).donations, self.donations, pos as int, g, 1, self.users);
        }
        r
    }

    /// Takes out row `id`; fails with not-found where there is no such row,
    /// and with `InvalidForeignKey` where another row refers to it.
    pub fn remove_donation(&mut self, id: i32) -> (r: Result<(), ServerError>)
        requires
            old(self).wf(),
        ensures
            final(self).wf(),
            !old(self).donations().contains(id) ==> (r matches Err(e) && e.is_not_found()),
            old(self).donations().contains(id) && old(self).donation_referenced(id) ==> (r matches Err(e)
                && e is InvalidForeignKey),
            old(self).donations().contains(id) && !old(self).donation_referenced(id) ==> r is Ok,
            r is Err ==> *final(self) == *old(self),
            r is Ok ==> (final(self).donations().ids(), final(self).donations().entries()) == old(self).donations().without(id)
                && final(self).donations().next() == old(self).donations().next()
                && final(self).same_except(old(self), 5),
    {
        let pos = match self.donations.position(id) {
            Some(k) => k,
            None => return Err(ServerError::not_found()),
        };
        let r = self.donations.remove(id);
        proof {
            old(self).donations.lemma_wf();
            lemma_links_child_remove(old(self).donations, self.donations, pos as int, 0, self.games);
            lemma_links_child_remove(old(self).donations, self.donations, pos as int, 1, self.users);
        }
        match r {
            Ok(_) => Ok(()),
            Err(e) => Err(e),
        }
    }

    pub fn investor_table(&self) -> (r: &Table<NewInvestor>)
        ensures
            *r == self.investors(),
    {
        &self.investors
    }

    /// Whether every foreign key of `row` names an existing row.
    pub open spec fn investor_links_ok(&self, row: NewInvestor) -> bool {
        true
    }

    /// Whether some row refers to row `id` of this table.
    pub open spec fn investor_referenced(&self, id: i32) -> bool {
        self.investments().refers(1, id)
    }

    /// Adds `row` under a fresh identifier; fails with `InvalidForeignKey`
    /// where a foreign key names no row.
    pub fn insert_investor(&mut self, row: NewInvestor) -> (r: Result<i32, ServerError>)
        requires
            old(self).wf(),
        ensures
            final(self).wf(),
            r is Ok <==> old(self).investor_links_ok(row) && old(self).investors().next() < MAX_ID,
            r matches Err(e) ==> *final(self) == *old(self) && if old(self).investor_links_ok(row) {
                e is InternalError
            } else {
                e is InvalidForeignKey
            },
            r matches Ok(id) ==> old(self).investor_links_ok(row) && id == old(self).investors().next()
                && final(self).investors().ids() == old(self).investors().ids().push(id)
                && final(self).investors().entries() == old(self).investors().entries().push(row)
                && final(self).same_except(old(self), 6),
    {
        let ghost g = row;
        let r = self.investors.insert(row);
        proof {
            if r is Ok {
                lemma_links_parent_push(self.investments, 1, old(self).investors, self.investors, r->Ok_0);
            }
        }
        r
    }

    /// Puts `row` in place of row `id`; fails with not-found where there is
    /// no such row, and with `InvalidForeignKey` where a foreign key of
    /// `row` names no row.
    pub fn replace_investor(&mut self, id: i32, row: NewInvestor) -> (r: Result<(), ServerError>)
        requires
            old(self).wf(),
        ensures
            final(self).wf(),
            !old(self).investors().contains(id) ==> (r matches Err(e) && e.is_not_found()),
            old(self).investors().contains(id) && !old(self).investor_links_ok(row) ==> (r matches Err(e)
                && e is InvalidForeignKey),
            old(self).investors().contains(id) && old(self).investor_links_ok(row) ==> r is Ok,
            r is Err ==> *final(self) == *old(self),
            r is Ok ==> final(self).investors().ids() == old(self).investors().ids()
                && final(self).investors().entries() == old(self).investors().entries().update(
                old(self).investors().ids().index_of(id),
                row,
            ) && final(self).investors().next() == old(self).investors().next()
                && final(self).same_except(old(self), 6),
    {
        let pos = match self.investors.position(id) {
            Some(k) => k,
            None => return Err(ServerError::not_found()),
        };
        let ghost g = row;
        let r = self.investors.replace(id, row);
        proof {
            old(self).investors.lemma_wf();
            assert(links_into(self.investments(), 1, self.investors()));
        }
        r
    }

    /// Takes out row `id`; fails with not-found where there is no such row,
    /// and with `InvalidForeignKey` where another row refers to it.
    pub fn remove_investor(&mut self, id: i32) -> (r: Result<(), ServerError>)
        requires
            old(self).wf(),
        ensures
            final(self).wf(),
            !old(self).investors().contains(id) ==> (r matches Err(e) && e.is_not_found()),
            old(self).investors().contains(id) && old(self).investor_referenced(id) ==> (r matches Err(e)
                && e is InvalidForeignKey),
            old(self).investors().contains(id) && !old(self).investor_referenced(id) ==> r is Ok,
            r is Err ==> *final(self) == *old(self),
            r is Ok ==> (final(self).investors().ids(), final(self).investors().entries()) == old(self).investors().without(id)
                && final(self).investors().next() == old(self).investors().next()
                && final(self).same_except(old(self), 6),
    {
        let pos = match self.investors.position(id) {
            Some(k) => k,
            None => return Err(ServerError::not_found()),
        };
        if self.investments.any_linked(1, id) {
            return Err(ServerError::InvalidForeignKey(String::from_str(
                "update or delete on table \"investors\" violates foreign key constraint \"investments_investor_id_fkey\" on table \"investments\"",
            )));
        }
        let r = self.investors.remove(id);
        proof {
            old(self).investors.lemma_wf();
            lemma_links_parent_remove(self.investments, 1, old(self).investors, self.investors, id);
        }
        match r {
            Ok(_) => Ok(()),
            Err(e) => Err(e),
        }
    }

    pub fn investment_table(&self) -> (r: &Table<NewInvestment>)
        ensures
            *r == self.investments(),
    {
        &self.investments
    }

    /// Whether every foreign key of `row` names an existing row.
    pub open spec fn investment_links_ok(&self, row: NewInvestment) -> bool {
        self.games().contains(row.link(0)) && self.investors().contains(row.link(1))
    }

    /// Whether some row refers to row `id` of this table.
    pub open spec fn investment_referenced(&self, id: i32) -> bool {
        false
    }

    /// Adds `row` under a fresh identifier; fails with `InvalidForeignKey`
    /// where a foreign key names no row.
    pub fn insert_investment(&mut self, row: NewInvestment) -> (r: Result<i32, ServerError>)
        requires
            old(self).wf(),
        ensures
            final(self).wf(),
            r is Ok <==> old(self).investment_links_ok(row) && old(self).investments().next() < MAX_ID,
            r matches Err(e) ==> *final(self) == *old(self) && if old(self).investment_links_ok(row) {
                e is InternalError
            } else {
                e is InvalidForeignKey
            },
            r matches Ok(id) ==> old(self).investment_links_ok(row) && id == old(self).investments().next()
                && final(self).investments().ids() == old(self).investments().ids().push(id)
                && final(self).investments().entries() == old(self).investments().entries().push(row)
                && final(self).same_except(old(self), 7),
    {
        if self.games.position(row.game_id).is_none() {
            return Err(ServerError::InvalidForeignKey(String::from_str(
                "insert or update on table \"investments\" violates foreign key constraint \"investments_game_id_fkey\"",
            )));
        }
        if self.investors.position(row.investor_id).is_none() {
            return Err(ServerError::InvalidForeignKey(String::from_str(
                "insert or update on table \"investments\" violates foreign key constraint \"investments_investor_id_fkey\"",
            )));
        }
        let ghost g = row;
        let r = self.investments.insert(row);
        proof {
            if r is Ok {
                lemma_links_child_push(old(self).investments, self.investments, g, 0, self.games);
                lemma_links_child_push(old(self).investments, self.investments, g, 1, self.investors);
            }
        }
        r
    }

    /// Puts `row` in place of row `id`; fails with not-found where there is
    /// no such row, and with `InvalidForeignKey` where a foreign key of
    /// `row` names no row.
    pub fn replace_investment(&mut self, id: i32, row: NewInvestment) -> (r: Result<(), ServerError>)
        requires
            old(self).wf(),
        ensures
            final(self).wf(),
            !old(self).investments().contains(id) ==> (r matches Err(e) && e.is_not_found()),
            old(self).investments().contains(id) && !old(self).investment_links_ok(row) ==> (r matches Err(e)
                && e is InvalidForeignKey),
            old(self).investments().contains(id) && old(self).investment_links_ok(row) ==> r is Ok,
            r is Err ==> *final(self) == *old(self),
            r is Ok ==> final(self).investments().ids() == old(self).investments().ids()
                && final(self).investments().entries() == old(self).investments().entries().update(
                old(self).investments().ids().index_of(id),
                row,
            ) && final(self).investments().next() == old(self).investments().next()
                && final(self).same_except(old(self), 7),
    {
        let pos = match self.investments.position(id) {
            Some(k) => k,
            None => return Err(ServerError::not_found()),
        };
        if self.games.position(row.game_id).is_none() {
            return Err(ServerError::InvalidForeignKey(String::from_str(
                "insert or update on table \"investments\" violates foreign key constraint \"investments_game_id_fkey\"",
            )));
        }
        if self.investors.position(row.investor_id).is_none() {
            return Err(ServerError::InvalidForeignKey(String::from_str(
                "insert or update on table \"investments\" violates foreign key constraint \"investments_investor_id_fkey\"",
            )));
        }
        let ghost g = row;
        let r = self.investments.replace(id, row);
        proof {
            old(self).investments.lemma_wf();
            lemma_links_child_update(old(self).investments, self.investments, pos as int, g, 0, self.games);
            lemma_links_child_update(old(self).investments, self.investments, pos as int, g, 1, self.investors);
        }
        r
    }

    /// Takes out row `id`; fails with not-found where there is no such row,
    /// and with `InvalidForeignKey` where another row refers to it.
    pub fn remove_investment(&mut self, id: i32) -> (r: Result<(), ServerError>)
        requires
            old(self).wf(),
        ensures
            final(self).wf(),
            !old(self).investments().contains(id) ==> (r matches Err(e) && e.is_not_found()),
            old(self).investments().contains(id) && old(self).investment_referenced(id) ==> (r matches Err(e)
                && e is InvalidForeignKey),
            old(self).investments().contains(id) && !old(self).investment_referenced(id) ==> r is Ok,
            r is Err ==> *final(self) == *old(self),
            r is Ok ==> (final(self).investments().ids(), final(self).investments().entries()) == old(self).investments().without(id)
                && final(self).investments().next() == old(self).investments().next()
                && final(self).same_except(old(self), 7),
    {
        let pos = match self.investments.position(id) {
            Some(k) => k,
            None => return Err(ServerError::not_found()),
        };
        let r = self.investments.remove(id);
        proof {
            old(self).investments.lemma_wf();
            lemma_links_child_remove(old(self).investments, self.investments, pos as int, 0, self.games);
            lemma_links_child_remove(old(self).investments, self.investments, pos as int, 1, self.investors);
        }
        match r {
            Ok(_) => Ok(()),
            Err(e) => Err(e),
        }
    }

}

} // verus!
