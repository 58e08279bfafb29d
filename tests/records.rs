use game_studio::calendar::Date;
use game_studio::controllers::donations::DonationsControl;
use game_studio::controllers::games::GamesControl;
use game_studio::controllers::investments::InvestmentsControl;
use game_studio::controllers::investors::InvestorsControl;
use game_studio::controllers::jobs::JobsControl;
use game_studio::controllers::publishers::PublishersControl;
use game_studio::controllers::staff::StaffControl;
use game_studio::controllers::users::UsersControl;
use game_studio::dates::{decode_date, encode_date, Timestamp};
use game_studio::errors::ServerError;
use game_studio::records::{
    AddDonation, AddGame, AddInvestment, AddInvestor, AddJob, AddPublisher, AddStaff, AddUser,
    NewDonation, NewGame, NewInvestment, NewInvestor, NewJob, NewPublisher, NewStaff, NewUser,
};
use game_studio::store::Store;

fn is_not_found(e: &ServerError) -> bool {
    match e {
        ServerError::InvalidValue(fields) => fields.len() == 1 && fields[0] == "Id",
        _ => false,
    }
}

fn publisher(name: &str) -> NewPublisher {
    NewPublisher::from(AddPublisher { name: name.to_string(), price: 1999, popularity: 7 }).unwrap()
}

fn game(name: &str, publisher_id: i32, release: &str) -> NewGame {
    NewGame::from(AddGame {
        name: name.to_string(),
        genre: "RPG".to_string(),
        release_date: release.to_string(),
        prime_cost: 100000,
        publisher_id,
        cost: 5999,
        is_subscribable: false,
    })
    .unwrap()
}

fn user(nickname: &str) -> NewUser {
    NewUser::from(AddUser { nickname: nickname.to_string(), registration_date: "2020-01-02".to_string() })
        .unwrap()
}

fn donation(user_id: i32, game_id: i32, amount: i64) -> NewDonation {
    NewDonation::from(AddDonation {
        user_id,
        game_id,
        amount,
        donation_time: "2021-03-04T05:06".to_string(),
    })
    .unwrap()
}

/// A store with one publisher (id 1) and one game of it (id 1).
fn store_with_game() -> Store {
    let mut store = Store::new();
    PublishersControl::add_publisher(&mut store, publisher("Nova")).unwrap();
    GamesControl::add_game(&mut store, game("Star", 1, "2001-06-15")).unwrap();
    store
}

#[test]
fn date_round_trip_through_storage() {
    let d = Date { year: 2001, month: 6, day: 15 };
    let n = encode_date(d).unwrap();
    // The day number of 0002-06-15: 365 days of year 1, 151 before June, then the 15th.
    assert_eq!(n, 531);
    assert_eq!(decode_date(n).unwrap(), d);
    for (y, m, dd) in [(1999, 1, 1), (2024, 12, 31), (1970, 7, 4), (2100, 3, 1)] {
        let d = Date { year: y, month: m, day: dd };
        assert_eq!(decode_date(encode_date(d).unwrap()).unwrap(), d);
    }
}

#[test]
fn leap_day_has_no_stored_form() {
    let d = Date { year: 2000, month: 2, day: 29 };
    assert!(matches!(encode_date(d), Err(ServerError::InvalidDate)));
}

#[test]
fn stored_value_without_date_fails() {
    assert!(matches!(decode_date(i32::MAX), Err(ServerError::InvalidDate)));
}

#[test]
fn form_date_is_shifted_before_storage() {
    let g = game("Star", 1, "2001-06-15");
    assert_eq!(g.release_date, 531);
}

#[test]
fn form_date_that_does_not_parse_is_rejected() {
    let r = NewGame::from(AddGame {
        name: "Star".to_string(),
        genre: "RPG".to_string(),
        release_date: "15/06/2001".to_string(),
        prime_cost: 1,
        publisher_id: 1,
        cost: 1,
        is_subscribable: true,
    });
    assert!(matches!(r, Err(ServerError::InvalidDate)));
    let r = NewStaff::from(AddStaff { name: "Ann".to_string(), birth: "not a date".to_string() });
    assert!(matches!(r, Err(ServerError::InvalidDate)));
    let r = NewUser::from(AddUser { nickname: "Ann".to_string(), registration_date: "2000-02-29".to_string() });
    assert!(matches!(r, Err(ServerError::InvalidDate)));
}

#[test]
fn change_date_format_to_iso() {
    let mut store = Store::new();
    UsersControl::add_user(
        &mut store,
        NewUser::from(AddUser { nickname: "Ann".to_string(), registration_date: "2001-06-15".to_string() }).unwrap(),
    )
    .unwrap();
    let mut u = UsersControl::get_user_by_id(&store, 1).unwrap();
    assert_eq!(u.registration_date, "15-06-2001");
    u.change_date_format("%d-%m-%Y", "%Y-%m-%d").unwrap();
    assert_eq!(u.registration_date, "2001-06-15");
}

#[test]
fn change_date_format_with_wrong_pattern_changes_nothing() {
    let store = store_with_game();
    let mut g = GamesControl::get_game_by_id(&store, 1).unwrap();
    assert_eq!(g.release_date, "15-06-2001");
    let r = g.change_date_format("%Y-%m-%d", "%d-%m-%Y");
    assert!(matches!(r, Err(ServerError::InvalidDate)));
    assert_eq!(g.release_date, "15-06-2001");
}

#[test]
fn job_with_missing_game_is_refused() {
    let mut store = Store::new();
    StaffControl::add_staff(
        &mut store,
        NewStaff::from(AddStaff { name: "Bo".to_string(), birth: "1990-05-05".to_string() }).unwrap(),
    )
    .unwrap();
    let job = NewJob::from(AddJob {
        game_id: 77,
        staff_id: 1,
        position: "Artist".to_string(),
        first_work_day: "2020-01-01".to_string(),
        last_work_day: "".to_string(),
        salary: 300000,
    })
    .unwrap();
    let r = JobsControl::add_job(&mut store, job);
    assert!(matches!(r, Err(ServerError::InvalidForeignKey(_))));
    assert_eq!(JobsControl::get_jobs(&store).unwrap().len(), 0);
}

#[test]
fn lists_come_in_ascending_id_order() {
    let mut store = Store::new();
    for name in ["A", "B", "C"] {
        PublishersControl::add_publisher(&mut store, publisher(name)).unwrap();
    }
    PublishersControl::delete_publisher(&mut store, 2).unwrap();
    PublishersControl::add_publisher(&mut store, publisher("D")).unwrap();
    PublishersControl::update_publisher(&mut store, 1, publisher("A2")).unwrap();
    let list = PublishersControl::get_publishers(&store).unwrap();
    let ids: Vec<i32> = list.iter().map(|p| p.id).collect();
    assert_eq!(ids, vec![1, 3, 4]);
    let names: Vec<&str> = list.iter().map(|p| p.name.as_str()).collect();
    assert_eq!(names, vec!["A2", "C", "D"]);
}

#[test]
fn total_donations_per_nickname() {
    let mut store = store_with_game();
    UsersControl::add_user(&mut store, user("Ann")).unwrap();
    UsersControl::add_user(&mut store, user("Bob")).unwrap();
    DonationsControl::add_donation(&mut store, donation(1, 1, 1000)).unwrap();
    DonationsControl::add_donation(&mut store, donation(2, 1, 500)).unwrap();
    DonationsControl::add_donation(&mut store, donation(1, 1, 2550)).unwrap();
    let (totals, sum) = GamesControl::get_total_donations(&store, 1);
    let mut got: Vec<(String, i128)> = totals.iter().map(|t| (t.user.clone(), t.amount)).collect();
    got.sort();
    assert_eq!(got, vec![("Ann".to_string(), 3550), ("Bob".to_string(), 500)]);
    assert_eq!(sum, 4050);
}

#[test]
fn users_sharing_a_nickname_count_as_one_donor() {
    let mut store = store_with_game();
    UsersControl::add_user(&mut store, user("Ann")).unwrap();
    UsersControl::add_user(&mut store, user("Ann")).unwrap();
    DonationsControl::add_donation(&mut store, donation(1, 1, 100)).unwrap();
    DonationsControl::add_donation(&mut store, donation(2, 1, 250)).unwrap();
    let (totals, sum) = GamesControl::get_total_donations(&store, 1);
    assert_eq!(totals.len(), 1);
    assert_eq!(totals[0].user, "Ann");
    assert_eq!(totals[0].amount, 350);
    assert_eq!(sum, 350);
}

#[test]
fn total_donations_of_game_without_donations() {
    let store = store_with_game();
    let (totals, sum) = GamesControl::get_total_donations(&store, 1);
    assert!(totals.is_empty());
    assert_eq!(sum, 0);
}

#[test]
fn lookup_of_missing_id_is_not_found() {
    let store = store_with_game();
    assert!(is_not_found(&GamesControl::get_game_by_id(&store, 2).unwrap_err()));
    assert!(is_not_found(&PublishersControl::get_publisher_by_id(&store, 0).unwrap_err()));
    assert!(is_not_found(&UsersControl::get_user_by_id(&store, 1).unwrap_err()));
    assert!(is_not_found(&InvestorsControl::get_investor_by_id(&store, -5).unwrap_err()));
}

#[test]
fn delete_then_get_is_not_found() {
    let mut store = store_with_game();
    InvestorsControl::add_investor(
        &mut store,
        NewInvestor::from(AddInvestor { name: "Fund".to_string(), is_company: true }).unwrap(),
    )
    .unwrap();
    assert!(InvestorsControl::get_investor_by_id(&store, 1).is_ok());
    InvestorsControl::delete_investor(&mut store, 1).unwrap();
    assert!(is_not_found(&InvestorsControl::get_investor_by_id(&store, 1).unwrap_err()));
    assert!(is_not_found(&InvestorsControl::delete_investor(&mut store, 1).unwrap_err()));
}

#[test]
fn referenced_row_cannot_be_deleted() {
    let mut store = store_with_game();
    let r = PublishersControl::delete_publisher(&mut store, 1);
    assert!(matches!(r, Err(ServerError::InvalidForeignKey(_))));
    assert_eq!(PublishersControl::get_publishers(&store).unwrap().len(), 1);
    GamesControl::delete_game(&mut store, 1).unwrap();
    PublishersControl::delete_publisher(&mut store, 1).unwrap();
    assert!(PublishersControl::get_publishers(&store).unwrap().is_empty());
}

#[test]
fn update_of_missing_row_is_not_found() {
    let mut store = store_with_game();
    let r = GamesControl::update_game(&mut store, 9, game("X", 1, "2010-10-10"));
    assert!(is_not_found(&r.unwrap_err()));
    let r = GamesControl::update_game(&mut store, 1, game("X", 5, "2010-10-10"));
    assert!(matches!(r, Err(ServerError::InvalidForeignKey(_))));
    GamesControl::update_game(&mut store, 1, game("X", 1, "2010-10-10")).unwrap();
    let g = GamesControl::get_game_by_id(&store, 1).unwrap();
    assert_eq!(g.name, "X");
    assert_eq!(g.release_date, "10-10-2010");
}

#[test]
fn game_shows_current_publisher_name() {
    let mut store = store_with_game();
    let g = GamesControl::get_game_by_id(&store, 1).unwrap();
    assert_eq!(g.publisher, "Nova");
    assert_eq!(g.genre, "RPG");
    assert_eq!(g.prime_cost, 100000);
    assert_eq!(g.cost, 5999);
    PublishersControl::update_publisher(&mut store, 1, publisher("Nova Prime")).unwrap();
    let games = GamesControl::get_games(&store).unwrap();
    assert_eq!(games.len(), 1);
    assert_eq!(games[0].publisher, "Nova Prime");
    assert_eq!(games[0].release_date, "15-06-2001");
    let (id, of_publisher) = PublishersControl::get_statistic(&store, 1).unwrap();
    assert_eq!(id, 1);
    assert_eq!(of_publisher.len(), 1);
    assert_eq!(of_publisher[0].name, "Star");
}

#[test]
fn donation_shows_names_and_time() {
    let mut store = store_with_game();
    UsersControl::add_user(&mut store, user("Ann")).unwrap();
    DonationsControl::add_donation(&mut store, donation(1, 1, 1234)).unwrap();
    let mut d = DonationsControl::get_donation_by_id(&store, 1).unwrap();
    assert_eq!(d.user, "Ann");
    assert_eq!(d.game, "Star");
    assert_eq!(d.amount, 1234);
    assert_eq!(d.donation_time, "04-03-2021, 05:06");
    d.change_date_format("%d-%m-%Y, %H:%M", "%Y-%m-%dT%H:%M").unwrap();
    assert_eq!(d.donation_time, "2021-03-04T05:06");
    let (uid, of_user) = UsersControl::get_statistic(&store, 1).unwrap();
    assert_eq!(uid, 1);
    assert_eq!(of_user.len(), 1);
    assert_eq!(of_user[0].id, 1);
}

#[test]
fn donation_time_that_does_not_parse_is_rejected() {
    let r = NewDonation::from(AddDonation {
        user_id: 1,
        game_id: 1,
        amount: 5,
        donation_time: "2021-03-04 05:06".to_string(),
    });
    assert!(matches!(r, Err(ServerError::InvalidDate)));
}

#[test]
fn job_work_days() {
    let mut store = store_with_game();
    StaffControl::add_staff(
        &mut store,
        NewStaff::from(AddStaff { name: "Bo".to_string(), birth: "1990-05-05".to_string() }).unwrap(),
    )
    .unwrap();
    let open_job = NewJob::from(AddJob {
        game_id: 1,
        staff_id: 1,
        position: "Artist".to_string(),
        first_work_day: "2020-01-01".to_string(),
        last_work_day: "".to_string(),
        salary: 300000,
    })
    .unwrap();
    assert!(open_job.last_work_day.is_none());
    JobsControl::add_job(&mut store, open_job).unwrap();
    let closed_job = NewJob::from(AddJob {
        game_id: 1,
        staff_id: 1,
        position: "Lead".to_string(),
        first_work_day: "2020-01-01".to_string(),
        last_work_day: "2021-12-31".to_string(),
        salary: 400000,
    })
    .unwrap();
    JobsControl::add_job(&mut store, closed_job).unwrap();
    let jobs = JobsControl::get_jobs(&store).unwrap();
    assert_eq!(jobs.len(), 2);
    assert_eq!(jobs[0].first_work_day, "01-01-2020");
    assert_eq!(jobs[0].last_work_day, "");
    assert_eq!(jobs[1].last_work_day, "31-12-2021");
    assert_eq!(jobs[1].game, "Star");
    assert_eq!(jobs[1].staff, "Bo");
    let mut j = jobs.into_iter().next().unwrap();
    j.change_date_format("%d-%m-%Y", "%Y-%m-%d").unwrap();
    assert_eq!(j.first_work_day, "2020-01-01");
    assert_eq!(j.last_work_day, "");
    let (sid, of_staff) = StaffControl::get_statistic(&store, 1).unwrap();
    assert_eq!(sid, 1);
    assert_eq!(of_staff.len(), 2);
    let s = StaffControl::get_staff_by_id(&store, 1).unwrap();
    assert_eq!(s.birth, "05-05-1990");
}

#[test]
fn job_with_bad_last_work_day_is_rejected() {
    let r = NewJob::from(AddJob {
        game_id: 1,
        staff_id: 1,
        position: "Artist".to_string(),
        first_work_day: "2020-01-01".to_string(),
        last_work_day: "someday".to_string(),
        salary: 1,
    });
    assert!(matches!(r, Err(ServerError::InvalidDate)));
}

#[test]
fn game_statistics_bundle() {
    let mut store = store_with_game();
    UsersControl::add_user(&mut store, user("Ann")).unwrap();
    DonationsControl::add_donation(&mut store, donation(1, 1, 700)).unwrap();
    InvestorsControl::add_investor(
        &mut store,
        NewInvestor::from(AddInvestor { name: "Fund".to_string(), is_company: true }).unwrap(),
    )
    .unwrap();
    InvestmentsControl::add_investment(
        &mut store,
        NewInvestment::from(AddInvestment { game_id: 1, investor_id: 1, share: 25, invested: 5000000 }).unwrap(),
    )
    .unwrap();
    let (id, jobs, donations, investments, totals, sum) = GamesControl::get_statistic(&store, 1).unwrap();
    assert_eq!(id, 1);
    assert!(jobs.is_empty());
    assert_eq!(donations.len(), 1);
    assert_eq!(investments.len(), 1);
    assert_eq!(investments[0].investor, "Fund");
    assert_eq!(investments[0].share, 25);
    assert_eq!(totals.len(), 1);
    assert_eq!(sum, 700);
    let (iid, of_investor) = InvestorsControl::get_statistic(&store, 1).unwrap();
    assert_eq!(iid, 1);
    assert_eq!(of_investor[0].game, "Star");
    let r = InvestmentsControl::add_investment(
        &mut store,
        NewInvestment::from(AddInvestment { game_id: 1, investor_id: 9, share: 5, invested: 1 }).unwrap(),
    );
    assert!(matches!(r, Err(ServerError::InvalidForeignKey(_))));
}

#[test]
fn unreadable_fields_are_named_by_label() {
    let paths = vec!["add.release_date".to_string(), "prime_cost".to_string(), "a.b.is_subscribable".to_string()];
    match ServerError::null_values(&paths) {
        ServerError::NullValues(names) => {
            assert_eq!(names, vec!["release date".to_string(), "prime cost".to_string(), "is subscribable".to_string()]);
        }
        other => panic!("unexpected {:?}", other),
    }
    assert_eq!(game_studio::errors::field_label_of("add."), "");
    assert_eq!(game_studio::errors::field_label_of("__x"), "  x");
}

#[test]
fn empty_store_lists_nothing() {
    let store = Store::new();
    assert!(GamesControl::get_games(&store).unwrap().is_empty());
    assert!(PublishersControl::get_publishers(&store).unwrap().is_empty());
    assert!(InvestorsControl::get_investors(&store).unwrap().is_empty());
    assert!(StaffControl::get_staff(&store).unwrap().is_empty());
    assert!(UsersControl::get_users(&store).unwrap().is_empty());
    assert!(DonationsControl::get_donations(&store).unwrap().is_empty());
    assert!(JobsControl::get_jobs(&store).unwrap().is_empty());
    assert!(InvestmentsControl::get_investments(&store).unwrap().is_empty());
    let (id, staff) = StaffControl::get_statistic(&store, 3).unwrap();
    assert_eq!(id, 3);
    assert!(staff.is_empty());
}

#[test]
fn stored_date_of_a_game_that_stands_for_no_date_cannot_be_shown() {
    let mut store = Store::new();
    PublishersControl::add_publisher(&mut store, publisher("Nova")).unwrap();
    let mut g = game("Star", 1, "2001-06-15");
    g.release_date = i32::MAX;
    GamesControl::add_game(&mut store, g).unwrap();
    assert!(matches!(GamesControl::get_game_by_id(&store, 1), Err(ServerError::InvalidDate)));
    assert!(matches!(GamesControl::get_games(&store), Err(ServerError::InvalidDate)));
}
