use vstd::prelude::*;

use crate::calendar::Date;
use crate::dates::{
    date_from_text, form_date_stored, parsed_date, parsed_timestamp, stored_from_form,
    timestamp_from_text, Timestamp, FORM_DATE, FORM_TIMESTAMP,
};
use crate::errors::ServerError;
use crate::table::Linked;
use vstd::string::StrSliceExecFns;

verus! {

// Forms: what a request hands in, with money in cents and dates as text.

/// A publisher as a form gives it.
#[derive(Debug)]
pub struct AddPublisher {
    pub name: String,
    pub price: i64,
    pub popularity: i16,
}

/// A game as a form gives it; `release_date` reads as `YYYY-MM-DD`.
#[derive(Debug)]
pub struct AddGame {
    pub name: String,
    pub genre: String,
    pub release_date: String,
    pub prime_cost: i64,
    pub publisher_id: i32,
    pub cost: i64,
    pub is_subscribable: bool,
}

/// An investor as a form gives it.
#[derive(Debug)]
pub struct AddInvestor {
    pub name: String,
    pub is_company: bool,
}

/// A member of staff as a form gives it; `birth` reads as `YYYY-MM-DD`.
#[derive(Debug)]
pub struct AddStaff {
    pub name: String,
    pub birth: String,
}

/// A user as a form gives it; `registration_date` reads as `YYYY-MM-DD`.
#[derive(Debug)]
pub struct AddUser {
    pub nickname: String,
    pub registration_date: String,
}

/// A donation as a form gives it; `donation_time` reads as
/// `YYYY-MM-DDTHH:MM`.
#[derive(Debug)]
pub struct AddDonation {
    pub user_id: i32,
    pub game_id: i32,
    pub amount: i64,
    pub donation_time: String,
}

/// A job as a form gives it; the work days read as `YYYY-MM-DD`, and an
/// empty `last_work_day` means the job goes on.
#[derive(Debug)]
pub struct AddJob {
    pub game_id: i32,
    pub staff_id: i32,
    pub position: String,
    pub first_work_day: String,
    pub last_work_day: String,
    pub salary: i64,
}

/// An investment as a form gives it.
#[derive(Debug)]
pub struct AddInvestment {
    pub game_id: i32,
    pub investor_id: i32,
    pub share: i16,
    pub invested: i64,
}

// Stored rows, without their identifiers: money in cents, dates of games,
// staff and users as shifted day numbers.

#[derive(Debug)]
pub struct NewPublisher {
    pub name: String,
    pub price: i64,
    pub popularity: i16,
}

#[derive(Debug)]
pub struct NewGame {
    pub name: String,
    pub genre: String,
    pub release_date: i32,
    pub prime_cost: i64,
    pub publisher_id: i32,
    pub cost: i64,
    pub is_subscribable: bool,
}

#[derive(Debug)]
pub struct NewInvestor {
    pub name: String,
    pub is_company: bool,
}

#[derive(Debug)]
pub struct NewStaff {
    pub name: String,
    pub birth: i32,
}

#[derive(Debug)]
pub struct NewUser {
    pub nickname: String,
    pub registration_date: i32,
}

#[derive(Debug)]
pub struct NewDonation {
    pub user_id: i32,
    pub game_id: i32,
    pub amount: i64,
    pub donation_time: Timestamp,
}

#[derive(Debug)]
pub struct NewJob {
    pub game_id: i32,
    pub staff_id: i32,
    pub position: String,
    pub first_work_day: Date,
    pub last_work_day: Option<Date>,
    pub salary: i64,
}

#[derive(Debug)]
pub struct NewInvestment {
    pub game_id: i32,
    pub investor_id: i32,
    pub share: i16,
    pub invested: i64,
}

impl Linked for NewGame {
    open spec fn link(&self, k: int) -> i32 {
        self.publisher_id
    }

    fn get_link(&self, k: usize) -> (r: i32) {
        self.publisher_id
    }
}

impl Linked for NewJob {
    open spec fn link(&self, k: int) -> i32 {
        if k == 0 { self.game_id } else { self.staff_id }
    }

    fn get_link(&self, k: usize) -> (r: i32) {
        if k == 0 { self.game_id } else { self.staff_id }
    }
}

impl Linked for NewDonation {
    open spec fn link(&self, k: int) -> i32 {
        if k == 0 { self.game_id } else { self.user_id }
    }

    fn get_link(&self, k: usize) -> (r: i32) {
        if k == 0 { self.game_id } else { self.user_id }
    }
}

impl Linked for NewInvestment {
    open spec fn link(&self, k: int) -> i32 {
        if k == 0 { self.game_id } else { self.investor_id }
    }

    fn get_link(&self, k: usize) -> (r: i32) {
        if k == 0 { self.game_id } else { self.investor_id }
    }
}

/// The optional date a form's text stands for: nothing for an empty text,
/// the date where it reads with `YYYY-MM-DD`, no answer otherwise.
pub open spec fn form_optional_date(s: Seq<char>) -> Option<Option<(int, int, int)>> {
    match parsed_date(s, FORM_DATE@) {
        Some(d) => Some(Some(d)),
        None => if s.len() == 0 {
            Some(None)
        } else {
            None
        },
    }
}

impl NewPublisher {
    pub fn from(publisher: AddPublisher) -> (r: Result<NewPublisher, ServerError>)
        ensures
            r matches Ok(p) && p.name@ == publisher.name@ && p.price == publisher.price
                && p.popularity == publisher.popularity,
    {
        Ok(NewPublisher { name: publisher.name, price: publisher.price, popularity: publisher.popularity })
    }
}

impl NewGame {
    /// Fails with `InvalidDate` where the release date does not read as
    /// `YYYY-MM-DD` or has no stored form.
    pub fn from(game: AddGame) -> (r: Result<NewGame, ServerError>)
        ensures
            match form_date_stored(game.release_date@) {
                Some(n) => r matches Ok(g) && g.release_date == n && g.name@ == game.name@
                    && g.genre@ == game.genre@ && g.prime_cost == game.prime_cost
                    && g.publisher_id == game.publisher_id && g.cost == game.cost
                    && g.is_subscribable == game.is_subscribable,
                None => r matches Err(e) && e is InvalidDate,
            },
    {
        let release_date = match stored_from_form(game.release_date.as_str()) {
            Ok(n) => n,
            Err(e) => return Err(e),
        };
        Ok(
            NewGame {
                name: game.name,
                genre: game.genre,
                release_date,
                prime_cost: game.prime_cost,
                publisher_id: game.publisher_id,
                cost: game.cost,
                is_subscribable: game.is_subscribable,
            },
        )
    }
}

impl NewInvestor {
    pub fn from(investor: AddInvestor) -> (r: Result<NewInvestor, ServerError>)
        ensures
            r matches Ok(i) && i.name@ == investor.name@ && i.is_company == investor.is_company,
    {
        Ok(NewInvestor { name: investor.name, is_company: investor.is_company })
    }
}

impl NewStaff {
    /// Fails with `InvalidDate` where the birth date does not read as
    /// `YYYY-MM-DD` or has no stored form.
    pub fn from(staff: AddStaff) -> (r: Result<NewStaff, ServerError>)
        ensures
            match form_date_stored(staff.birth@) {
                Some(n) => r matches Ok(s) && s.birth == n && s.name@ == staff.name@,
                None => r matches Err(e) && e is InvalidDate,
            },
    {
        let birth = match stored_from_form(staff.birth.as_str()) {
            Ok(n) => n,
            Err(e) => return Err(e),
        };
        Ok(NewStaff { name: staff.name, birth })
    }
}

impl NewUser {
    /// Fails with `InvalidDate` where the registration date does not read as
    /// `YYYY-MM-DD` or has no stored form.
    pub fn from(user: AddUser) -> (r: Result<NewUser, ServerError>)
        ensures
            match form_date_stored(user.registration_date@) {
                Some(n) => r matches Ok(u) && u.registration_date == n && u.nickname@
                    == user.nickname@,
                None => r matches Err(e) && e is InvalidDate,
            },
    {
        let registration_date = match stored_from_form(user.registration_date.as_str()) {
            Ok(n) => n,
            Err(e) => return Err(e),
        };
        Ok(NewUser { nickname: user.nickname, registration_date })
    }
}

impl NewDonation {
    /// Fails with `InvalidDate` where the time does not read as
    /// `YYYY-MM-DDTHH:MM`.
    pub fn from(donation: AddDonation) -> (r: Result<NewDonation, ServerError>)
        ensures
            match parsed_timestamp(donation.donation_time@, FORM_TIMESTAMP@) {
                Some(f) => r matches Ok(d) && d.donation_time.valid() && d.donation_time.fields()
                    == f && d.user_id == donation.user_id && d.game_id == donation.game_id
                    && d.amount == donation.amount,
                None => r matches Err(e) && e is InvalidDate,
            },
    {
        let donation_time = match timestamp_from_text(donation.donation_time.as_str(), FORM_TIMESTAMP) {
            Ok(t) => t,
            Err(e) => return Err(e),
        };
        Ok(
            NewDonation {
                user_id: donation.user_id,
                game_id: donation.game_id,
                amount: donation.amount,
                donation_time,
            },
        )
    }
}

impl NewJob {
    /// Fails with `InvalidDate` where the first work day does not read as
    /// `YYYY-MM-DD`, or the last work day is neither empty nor reads so.
    pub fn from(job: AddJob) -> (r: Result<NewJob, ServerError>)
        ensures
            match (parsed_date(job.first_work_day@, FORM_DATE@), form_optional_date(job.last_work_day@)) {
                (Some(first), Some(last)) => r matches Ok(j) && j.first_work_day.valid()
                    && (j.first_work_day.year as int, j.first_work_day.month as int, j.first_work_day.day as int) == first
                    && match last {
                        Some(l) => j.last_work_day matches Some(d) && d.valid()
                            && (d.year as int, d.month as int, d.day as int) == l,
                        None => j.last_work_day is None,
                    }
                    && j.game_id == job.game_id && j.staff_id == job.staff_id
                    && j.position@ == job.position@ && j.salary == job.salary,
                _ => r matches Err(e) && e is InvalidDate,
            },
    {
        let first_work_day = match date_from_text(job.first_work_day.as_str(), FORM_DATE) {
            Ok(d) => d,
            Err(e) => return Err(e),
        };
        let last_work_day = match date_from_text(job.last_work_day.as_str(), FORM_DATE) {
            Ok(d) => Some(d),
            Err(e) => {
                if job.last_work_day.as_str().unicode_len() != 0 {
                    return Err(e);
                }
                None
            },
        };
        Ok(
            NewJob {
                game_id: job.game_id,
                staff_id: job.staff_id,
                position: job.position,
                first_work_day,
                last_work_day,
                salary: job.salary,
            },
        )
    }
}

impl NewInvestment {
    pub fn from(investment: AddInvestment) -> (r: Result<NewInvestment, ServerError>)
        ensures
            r matches Ok(i) && i.game_id == investment.game_id && i.investor_id
                == investment.investor_id && i.share == investment.share && i.invested
                == investment.invested,
    {
        Ok(
            NewInvestment {
                game_id: investment.game_id,
                investor_id: investment.investor_id,
                share: investment.share,
                invested: investment.invested,
            },
        )
    }
}

} // verus!
