use doenermann_bot::commands::birthday::{self, next};
use doenermann_bot::commands::{delete_birthday, next_birthdays, set_birthday, BirthdayRow};
use doenermann_bot::commands::{ResolvedOption, ResolvedValue};
use doenermann_bot::date::Date;
use doenermann_bot::db::{Birthday, Database};
use doenermann_bot::error::Error;
use doenermann_bot::response::{Embed, Response};

fn date(year: i32, month: u32, day: u32) -> Date {
    Date { year, month, day }
}

fn text_option(name: &str, value: &str) -> ResolvedOption {
    ResolvedOption { name: name.to_string(), value: ResolvedValue::String(value.to_string()) }
}

fn user_option(id: u64, name: &str) -> ResolvedOption {
    ResolvedOption { name: "user".to_string(), value: ResolvedValue::User(id, name.to_string()) }
}

fn only_embed(r: Result<Response, Error>) -> Embed {
    match r {
        Ok(Response::Message(mut m)) => {
            assert_eq!(m.embeds.len(), 1);
            assert!(m.content.is_none());
            assert!(m.components.is_none());
            assert!(!m.ephemeral);
            m.embeds.remove(0)
        }
        other => panic!("expected a message, got {other:?}"),
    }
}

fn fields(e: &Embed) -> Vec<(String, String)> {
    e.fields.iter().map(|f| (f.name.clone(), f.value.clone())).collect()
}

#[test]
fn next_dates_days_and_ages() {
    // The next occurrence: this year, or next year once passed.
    assert_eq!(next::next_date(date(2000, 3, 7), date(2025, 3, 7)), date(2025, 3, 7));
    assert_eq!(next::next_date(date(2000, 3, 7), date(2025, 3, 8)), date(2026, 3, 7));
    // February 29 in a leap year comes, in other years it does not.
    assert_eq!(next::next_date(date(2000, 2, 29), date(2027, 3, 1)), date(2028, 2, 29));
    assert_eq!(next::next_date(date(2000, 2, 29), date(2025, 3, 1)), date(1970, 1, 1));
    // Days away, over a year end and a leap day.
    assert_eq!(next::days_until(date(2000, 3, 1), date(2024, 2, 1)), 29);
    assert_eq!(next::days_until(date(2000, 1, 2), date(2025, 12, 31)), 2);
    assert_eq!(next::days_until(date(2000, 2, 29), date(2025, 3, 1)), 20148);
    // The age on the next birthday, the same on the birthday itself.
    assert_eq!(next::age(date(2000, 3, 7), date(2025, 3, 6)), 25);
    assert_eq!(next::age(date(2000, 3, 7), date(2025, 3, 7)), 25);
    assert_eq!(next::age(date(2000, 3, 7), date(2025, 3, 8)), 26);
    // Born after today: no whole year, the next birthday makes one.
    assert_eq!(next::age(date(2030, 1, 1), date(2025, 1, 2)), 1);
}

#[test]
fn set_stores_and_confirms() {
    let mut db = Database::new();
    let today = date(2025, 6, 1);
    let r = doenermann_bot::commands::birthday::set::set_on(&vec![text_option("birth", "07.03.2000")], &mut db, 42, "%d.%m.%Y", today);
    let e = only_embed(r);
    assert_eq!(e.title.as_deref(), Some("Your Birthday was set to: 07.03.2000"));
    assert_eq!(db.birthdays.get(42).map(|b| b.date), Some(date(2000, 3, 7)));
}

#[test]
fn set_keeps_the_first_birthday() {
    let mut db = Database::new();
    let today = date(2025, 6, 1);
    doenermann_bot::commands::birthday::set::set_on(&vec![text_option("birth", "07.03.2000")], &mut db, 42, "%d.%m.%Y", today).unwrap();
    doenermann_bot::commands::birthday::set::set_on(&vec![text_option("birth", "08.04.2001")], &mut db, 42, "%d.%m.%Y", today).unwrap();
    assert_eq!(db.birthdays.len(), 1);
    assert_eq!(db.birthdays.get(42).map(|b| b.date), Some(date(2000, 3, 7)));
}

#[test]
fn set_refuses_future_and_unreadable_dates() {
    let mut db = Database::new();
    let today = date(2025, 6, 1);
    match doenermann_bot::commands::birthday::set::set_on(&vec![text_option("birth", "02.06.2025")], &mut db, 1, "%d.%m.%Y", today) {
        Err(Error::InvalidDate(m)) => assert_eq!(m, "You cannot go back in time"),
        other => panic!("unexpected {other:?}"),
    }
    match doenermann_bot::commands::birthday::set::set_on(&vec![text_option("birth", "no date")], &mut db, 1, "%d.%m.%Y", today) {
        Err(Error::InvalidDate(m)) => assert!(!m.is_empty()),
        other => panic!("unexpected {other:?}"),
    }
    match doenermann_bot::commands::birthday::set::set_on(&vec![user_option(1, "x")], &mut db, 1, "%d.%m.%Y", today) {
        Err(Error::OptionResolve) => {}
        other => panic!("unexpected {other:?}"),
    }
    assert_eq!(db.birthdays.len(), 0);
    // A birthday of today is accepted: no whole year is missing.
    assert!(doenermann_bot::commands::birthday::set::set_on(&vec![text_option("birth", "01.06.2025")], &mut db, 1, "%d.%m.%Y", today).is_ok());
}

#[test]
fn next_lists_soonest_first_with_age() {
    let mut db = Database::new();
    db.birthdays.add(Birthday::new(1, date(2000, 3, 7)));
    db.birthdays.add(Birthday::new(2, date(1990, 6, 1)));
    db.birthdays.add(Birthday::new(3, date(1985, 12, 24)));
    let e = only_embed(next::next_on(&db, date(2025, 6, 1)));
    assert_eq!(e.title.as_deref(), Some("Next Birthdays:"));
    assert_eq!(
        fields(&e),
        vec![
            ("01 June 2025".to_string(), "<@2> (35)".to_string()),
            ("24 December 2025".to_string(), "<@3> (40)".to_string()),
            ("07 March 2026".to_string(), "<@1> (26)".to_string()),
        ]
    );
    assert!(e.fields.iter().all(|f| !f.inline));
}

#[test]
fn next_leap_day_and_ties() {
    let mut db = Database::new();
    db.birthdays.add(Birthday::new(9, date(2000, 2, 29)));
    db.birthdays.add(Birthday::new(5, date(2001, 7, 1)));
    db.birthdays.add(Birthday::new(4, date(2002, 7, 1)));
    let e = only_embed(next::next_on(&db, date(2025, 6, 1)));
    let f = fields(&e);
    // Equal distance: the lower user id first.
    assert_eq!(f[0], ("01 July 2025".to_string(), "<@4> (23)".to_string()));
    assert_eq!(f[1], ("01 July 2025".to_string(), "<@5> (24)".to_string()));
    // February 29 exists neither this year nor next: January 1, 1970.
    assert_eq!(f[2], ("01 January 1970".to_string(), "<@9> (26)".to_string()));
}

#[test]
fn next_lists_at_most_ten_and_notes_none() {
    let db = Database::new();
    let e = only_embed(next::next_on(&db, date(2025, 6, 1)));
    assert_eq!(fields(&e), vec![("\u{200B}".to_string(), "None recorded yet!".to_string())]);
    let mut db = Database::new();
    for u in 0..12u64 {
        db.birthdays.add(Birthday::new(u, date(2000, 1, 1 + u as u32)));
    }
    let e = only_embed(next::next_on(&db, date(2025, 1, 3)));
    assert_eq!(e.fields.len(), 10);
    assert_eq!(e.fields[0].value, "<@2> (25)");
}

#[test]
fn delete_own_or_as_admin() {
    let mut db = Database::new();
    db.birthdays.add(Birthday::new(1, date(2000, 3, 7)));
    db.birthdays.add(Birthday::new(2, date(2001, 3, 7)));
    let admins = vec!["99".to_string()];
    match delete_birthday::run(&vec![user_option(2, "bob")], &mut db, 1, &admins) {
        Err(Error::Unauthorized) => {}
        other => panic!("unexpected {other:?}"),
    }
    assert_eq!(db.birthdays.len(), 2);
    let e = only_embed(delete_birthday::run(&vec![user_option(2, "bob")], &mut db, 99, &admins));
    assert_eq!(e.title.as_deref(), Some("The birthday of bob was successfully deleted!"));
    let e = only_embed(delete_birthday::run(&vec![user_option(1, "al")], &mut db, 1, &admins));
    assert_eq!(e.title.as_deref(), Some("The birthday of al was successfully deleted!"));
    let e = only_embed(delete_birthday::run(&vec![user_option(1, "al")], &mut db, 1, &admins));
    assert_eq!(e.title.as_deref(), Some("The selected user al is not inside the birthdays list!"));
    assert_eq!(db.birthdays.len(), 0);
    match delete_birthday::run(&vec![text_option("user", "1")], &mut db, 1, &admins) {
        Err(Error::OptionResolve) => {}
        other => panic!("unexpected {other:?}"),
    }
}

#[test]
fn birthday_subcommands() {
    let mut db = Database::new();
    let admins: Vec<String> = Vec::new();
    let today = date(2025, 6, 1);
    let sub = |name: &str, opts: Vec<ResolvedOption>| {
        vec![ResolvedOption { name: name.to_string(), value: ResolvedValue::SubCommand(opts) }]
    };
    birthday::run_on(&sub("set", vec![text_option("date", "01.02.2003")]), &mut db, 3, "%d.%m.%Y", &admins, today)
        .unwrap();
    assert_eq!(db.birthdays.len(), 1);
    let e = only_embed(birthday::run_on(&sub("next", vec![]), &mut db, 3, "%d.%m.%Y", &admins, today));
    assert_eq!(fields(&e), vec![("01 February 2026".to_string(), "<@3> (23)".to_string())]);
    birthday::run_on(&sub("delete", vec![user_option(3, "c")]), &mut db, 3, "%d.%m.%Y", &admins, today).unwrap();
    assert_eq!(db.birthdays.len(), 0);
    match birthday::run_on(&sub("other", vec![]), &mut db, 3, "%d.%m.%Y", &admins, today) {
        Err(Error::NotFound) => {}
        other => panic!("unexpected {other:?}"),
    }
    match birthday::run_on(&vec![text_option("set", "x")], &mut db, 3, "%d.%m.%Y", &admins, today) {
        Err(Error::OptionResolve) => {}
        other => panic!("unexpected {other:?}"),
    }
}

#[test]
fn set_birthday_is_birthday_set() {
    let mut db = Database::new();
    let r = set_birthday::run(&vec![text_option("birth", "07.03.2000")], &mut db, 8, "%d.%m.%Y");
    assert!(r.is_ok());
    assert_eq!(db.birthdays.get(8).map(|b| b.date), Some(date(2000, 3, 7)));
    let c = set_birthday::register("%d.%m.%Y".to_string());
    assert_eq!(c.name, "set_birthday");
    assert_eq!(c.options[0].description, "Date format: %d.%m.%Y");
    assert!(c.options[0].required);
}

fn rows(dates: &[&str]) -> Vec<BirthdayRow> {
    dates.iter().enumerate().map(|(i, d)| BirthdayRow { birthday: d.to_string(), user: 100 + i as u64 }).collect()
}

#[test]
fn next_birthdays_over_rows() {
    let list = rows(&[
        "2000-01-10", "2000-01-05", "2000-12-31", "2000-01-05", "2000-02-01", "2000-03-01",
        "2000-04-01", "2000-05-01", "2000-06-01", "2000-07-01", "2000-08-01",
    ]);
    let e = only_embed(next_birthdays::run_on(&list, date(2025, 1, 5)));
    assert_eq!(e.title.as_deref(), Some("Next Birthdays:"));
    let f = fields(&e);
    assert_eq!(f.len(), 10);
    // Birthday today: age not increased; stable order among equal distances.
    assert_eq!(f[0], ("05 January 2025".to_string(), "<@101> (25)".to_string()));
    assert_eq!(f[1], ("05 January 2025".to_string(), "<@103> (25)".to_string()));
    assert_eq!(f[2], ("10 January 2025".to_string(), "<@100> (25)".to_string()));
    assert_eq!(f[9], ("01 August 2025".to_string(), "<@110> (25)".to_string()));
}

#[test]
fn next_birthdays_unreadable_row() {
    let mut list = rows(&[
        "2000-01-10", "2000-01-11", "2000-01-12", "2000-01-13", "2000-01-14", "2000-01-15",
        "2000-01-16", "2000-01-17", "2000-01-18", "2000-01-19", "2000-01-20",
    ]);
    // Unreadable, it counts as January 1, 1970 for the order, and is listed.
    list[10].birthday = "garbage".to_string();
    match next_birthdays::run_on(&list, date(2024, 12, 30)) {
        Err(Error::InvalidDate(m)) => assert!(!m.is_empty()),
        other => panic!("unexpected {other:?}"),
    }
    let c = next_birthdays::register();
    assert_eq!(c.name, "next_birthdays");
    assert_eq!(c.description, "The next 10 Upcomming Birthdays");
}

#[test]
fn birthday_registration() {
    let c = birthday::register("%d.%m.%Y".to_string());
    assert_eq!(c.name, "birthday");
    let names: Vec<&str> = c.options.iter().map(|o| o.name.as_str()).collect();
    assert_eq!(names, vec!["set", "delete", "next"]);
    let c = delete_birthday::register();
    assert_eq!(c.name, "delete_birthday");
    assert_eq!(c.options[0].name, "user");
}
