use dutchman::docs::{Game, KvDoc, Mission, Player, TicketEntry, TicketsDoc};
use dutchman::handlers::{
    calendar_step, full_calendar_step, kv_step, missions_step, standings_step, tickets_step,
    DocKind, Reply,
};
use dutchman::router::TeamId;
use dutchman::standings::sort_players;

fn text(s: &str) -> Vec<char> {
    s.chars().collect()
}

fn string(v: &Vec<char>) -> String {
    v.iter().collect()
}

fn tickets_doc() -> TicketsDoc {
    TicketsDoc {
        entries: vec![(text("Alice"), TicketEntry {
            tickets: text("2 tickets"),
            vip_tickets: text("1 vip"),
            selected_ticket: text("gold"),
        })],
    }
}

#[test]
fn a_found_ticket_lookup_answers_the_inventory() {
    match tickets_step(text("Alice"), Ok(tickets_doc())) {
        Reply::TicketsInfo(t) => {
            assert_eq!(string(&t.tickets), "2 tickets");
            assert_eq!(string(&t.selected_ticket), "gold");
        },
        _ => panic!("expected the inventory"),
    }
}

#[test]
fn a_missed_ticket_lookup_answers_not_found() {
    match tickets_step(text("Bob"), Ok(tickets_doc())) {
        Reply::NoTicketsFor(name) => assert_eq!(string(&name), "Bob"),
        _ => panic!("expected a miss"),
    }
}

#[test]
fn a_failed_ticket_read_answers_in_chat() {
    match tickets_step(text("Alice"), Err(text("no file"))) {
        Reply::ReadFailed(DocKind::Tickets, e) => assert_eq!(string(&e), "no file"),
        _ => panic!("expected a read failure reply"),
    }
}

#[test]
fn key_value_lookups_answer_hit_miss_and_failure() {
    let doc = KvDoc { entries: vec![(text("Ana"), text("bolo"))] };
    match kv_step(DocKind::Recipes, text("Ana"), Ok(doc)) {
        Reply::KvInfo(DocKind::Recipes, v) => assert_eq!(string(&v), "bolo"),
        _ => panic!("expected the value"),
    }
    let doc = KvDoc { entries: vec![] };
    match kv_step(DocKind::Pieces, text("Bo"), Ok(doc)) {
        Reply::NoKvFor(DocKind::Pieces, name) => assert_eq!(string(&name), "Bo"),
        _ => panic!("expected a miss"),
    }
    match kv_step(DocKind::Pieces, text("Bo"), Err(text("gone"))) {
        Reply::ReadFailed(DocKind::Pieces, e) => assert_eq!(string(&e), "gone"),
        _ => panic!("expected a read failure reply"),
    }
}

fn game(date: &str, teams: &[&str]) -> Game {
    Game {
        date: text(date),
        time: text("20:00"),
        day_of_week: text("sab"),
        teams: teams.iter().map(|t| text(t)).collect(),
        phase: text("grupos"),
    }
}

#[test]
fn the_calendar_keeps_only_the_tracked_teams_games_in_order() {
    let games = vec![
        game("01/05", &["T", "A"]),
        game("02/05", &["A", "B"]),
        game("03/05", &["B", "T"]),
    ];
    match calendar_step(&text("T"), Ok(games)) {
        Reply::GameList(gs) => {
            assert_eq!(gs.len(), 2);
            assert_eq!(string(&gs[0].date), "01/05");
            assert_eq!(string(&gs[1].date), "03/05");
        },
        _ => panic!("expected the filtered calendar"),
    }
}

#[test]
fn the_full_calendar_keeps_every_game() {
    let games = vec![game("01/05", &["A", "B"]), game("02/05", &["C", "D"])];
    match full_calendar_step(Ok(games)) {
        Reply::FullGameList(gs) => assert_eq!(gs.len(), 2),
        _ => panic!("expected the whole calendar"),
    }
}

#[test]
fn the_mission_board_is_answered_whole() {
    let m = Mission { title: text("Semana 1"), text: text("Afundar navios.") };
    match missions_step(Ok(m)) {
        Reply::MissionInfo(m2) => assert_eq!(string(&m2.title), "Semana 1"),
        _ => panic!("expected the board"),
    }
}

fn player(name: &str, points: i32) -> Player {
    Player { name: text(name), user: text(name), points }
}

#[test]
fn standings_come_highest_first() {
    let ps = vec![player("ana", 3), player("bo", 9), player("cy", 5)];
    match standings_step(TeamId::Jack, Ok(ps)) {
        Reply::Standings(TeamId::Jack, sorted) => {
            let order: Vec<String> = sorted.iter().map(|p| string(&p.name)).collect();
            assert_eq!(order, vec!["bo", "cy", "ana"]);
        },
        _ => panic!("expected standings"),
    }
}

#[test]
fn sorting_keeps_every_player() {
    let ps = vec![player("ana", 1), player("bo", 1), player("cy", 1)];
    let sorted = sort_players(ps);
    assert_eq!(sorted.len(), 3);
    let mut names: Vec<String> = sorted.iter().map(|p| string(&p.name)).collect();
    names.sort();
    assert_eq!(names, vec!["ana", "bo", "cy"]);
}

#[test]
fn a_failed_roster_read_answers_in_chat() {
    match standings_step(TeamId::Elizabeth, Err(text("gone"))) {
        Reply::ReadFailed(DocKind::Team, e) => assert_eq!(string(&e), "gone"),
        _ => panic!("expected a read failure reply"),
    }
}
