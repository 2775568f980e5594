use dutchman::docs::Game;
use dutchman::handlers::{next_game_step, Outcome, Reply};
use dutchman::schedule::{next_game, parse_date, Date, NextGameSel};

fn text(s: &str) -> Vec<char> {
    s.chars().collect()
}

fn string(v: &Vec<char>) -> String {
    v.iter().collect()
}

fn game(date: &str, teams: &[&str]) -> Game {
    Game {
        date: text(date),
        time: text("20:00"),
        day_of_week: text("sab"),
        teams: teams.iter().map(|t| text(t)).collect(),
        phase: text("grupos"),
    }
}

#[test]
fn dates_parse_in_their_day_month_shapes() {
    assert_eq!(parse_date(&text("5/5")), Some(Date { day: 5, month: 5 }));
    assert_eq!(parse_date(&text("05/5")), Some(Date { day: 5, month: 5 }));
    assert_eq!(parse_date(&text("5/05")), Some(Date { day: 5, month: 5 }));
    assert_eq!(parse_date(&text("31/12")), Some(Date { day: 31, month: 12 }));
    assert_eq!(parse_date(&text("28/02")), Some(Date { day: 28, month: 2 }));
}

#[test]
fn impossible_dates_are_rejected() {
    assert_eq!(parse_date(&text("29/02")), None, "the fixed year is not a leap year");
    assert_eq!(parse_date(&text("31/04")), None);
    assert_eq!(parse_date(&text("0/05")), None);
    assert_eq!(parse_date(&text("10/13")), None);
    assert_eq!(parse_date(&text("10-05")), None);
    assert_eq!(parse_date(&text("10/05/25")), None);
    assert_eq!(parse_date(&text("")), None);
}

#[test]
fn the_next_game_is_the_earliest_not_before_today() {
    let marker = text("T");
    let games = vec![
        game("10/05", &["T", "A"]),
        game("05/05", &["B", "T"]),
    ];
    let today = Date { day: 6, month: 5 };
    match next_game(&games, &marker, today) {
        NextGameSel::Found(i) => assert_eq!(i, 0, "10/05 is the earliest on or after 06/05"),
        _ => panic!("expected a next game"),
    }
}

#[test]
fn today_counts_as_upcoming_and_other_teams_do_not() {
    let marker = text("T");
    let games = vec![
        game("04/05", &["A", "B"]),
        game("06/05", &["T", "A"]),
        game("05/05", &["A", "T"]),
    ];
    let today = Date { day: 6, month: 5 };
    match next_game(&games, &marker, today) {
        NextGameSel::Found(i) => assert_eq!(i, 1),
        _ => panic!("expected a next game"),
    }
}

#[test]
fn all_past_dates_mean_no_upcoming_game() {
    let marker = text("T");
    let games = vec![game("01/05", &["T"]), game("05/05", &["T"])];
    let today = Date { day: 6, month: 5 };
    assert!(matches!(next_game(&games, &marker, today), NextGameSel::NoneUpcoming));
}

#[test]
fn equal_dates_keep_the_earlier_listed_game() {
    let marker = text("T");
    let games = vec![game("10/05", &["T", "A"]), game("10/05", &["T", "B"])];
    let today = Date { day: 1, month: 5 };
    match next_game(&games, &marker, today) {
        NextGameSel::Found(i) => assert_eq!(i, 0),
        _ => panic!("expected a next game"),
    }
}

#[test]
fn a_malformed_tracked_date_is_fatal_to_the_request() {
    let marker = text("T");
    let games = vec![game("someday", &["T"]), game("10/05", &["T"])];
    let today = Date { day: 1, month: 5 };
    match next_game(&games, &marker, today) {
        NextGameSel::BadDate(i) => assert_eq!(i, 0),
        _ => panic!("expected the malformed date to abort the request"),
    }
    match next_game_step(&marker, today, Ok(games)) {
        Outcome::Operator(d) => assert_eq!(string(&d), "someday"),
        _ => panic!("expected no chat reply"),
    }
}

#[test]
fn a_malformed_untracked_date_does_not_matter() {
    let marker = text("T");
    let games = vec![game("someday", &["A"]), game("10/05", &["T"])];
    let today = Date { day: 1, month: 5 };
    match next_game(&games, &marker, today) {
        NextGameSel::Found(i) => assert_eq!(i, 1),
        _ => panic!("expected a next game"),
    }
}

#[test]
fn next_game_step_reports_the_selected_game() {
    let marker = text("T");
    let games = vec![game("10/05", &["T", "A"]), game("05/05", &["B", "T"])];
    let today = Date { day: 6, month: 5 };
    match next_game_step(&marker, today, Ok(games)) {
        Outcome::Chat(Reply::NextGameIs(g)) => assert_eq!(string(&g.date), "10/05"),
        _ => panic!("expected the next game"),
    }
    let none: Vec<Game> = vec![game("01/01", &["T"])];
    match next_game_step(&marker, today, Ok(none)) {
        Outcome::Chat(Reply::NoUpcomingGame) => {},
        _ => panic!("expected no upcoming game"),
    }
}
