use dutchman::handlers::{reads_for, DocKind};
use dutchman::router::{route, ArgCmd, Cmd, TeamId};

fn text(s: &str) -> Vec<char> {
    s.chars().collect()
}

fn string(v: &Vec<char>) -> String {
    v.iter().collect()
}

#[test]
fn exact_commands_route() {
    assert!(matches!(route(&text("/bemvindos")), Cmd::Welcome));
    assert!(matches!(route(&text("/calendario")), Cmd::Calendar));
    assert!(matches!(route(&text("/proximojogo")), Cmd::NextGame));
    assert!(matches!(route(&text("/calendariocompleto")), Cmd::FullCalendar));
    assert!(matches!(route(&text("/missoes")), Cmd::Missions));
    assert!(matches!(route(&text("/tripulacao")), Cmd::CrewList));
    assert!(matches!(route(&text("/comandos")), Cmd::Help));
    assert!(matches!(route(&text("/claims")), Cmd::ClaimsList));
    assert!(matches!(route(&text("/reset")), Cmd::Reset));
    assert!(matches!(route(&text("/barbossa")), Cmd::Team(TeamId::Barbossa)));
    assert!(matches!(route(&text("/jack")), Cmd::Team(TeamId::Jack)));
    assert!(matches!(route(&text("/elizabeth")), Cmd::Team(TeamId::Elizabeth)));
}

#[test]
fn not_a_command_is_ignored() {
    assert!(matches!(route(&text("hello crew")), Cmd::NotCommand));
    assert!(matches!(route(&text("/unknown")), Cmd::NotCommand));
    assert!(matches!(route(&text("")), Cmd::NotCommand));
}

#[test]
fn tickets_without_name_asks_for_one_and_reads_nothing() {
    let cmd = route(&text("/tickets"));
    assert!(matches!(cmd, Cmd::NeedArgument(ArgCmd::Tickets)));
    assert_eq!(reads_for(&cmd).len(), 0);
}

#[test]
fn tickets_with_name_reads_exactly_the_tickets_document() {
    let cmd = route(&text("/tickets Alice"));
    match &cmd {
        Cmd::Tickets(name) => assert_eq!(string(name), "Alice"),
        _ => panic!("expected a tickets lookup"),
    }
    let reads = reads_for(&cmd);
    assert_eq!(reads.len(), 1);
    assert_eq!(reads[0], DocKind::Tickets);
}

#[test]
fn tickets_takes_only_the_second_token() {
    match route(&text("/tickets   Alice   Bob")) {
        Cmd::Tickets(name) => assert_eq!(string(&name), "Alice"),
        _ => panic!("expected a tickets lookup"),
    }
}

#[test]
fn recipes_and_pieces_route_like_tickets() {
    assert!(matches!(route(&text("/receitas")), Cmd::NeedArgument(ArgCmd::Recipes)));
    assert!(matches!(route(&text("/pecas")), Cmd::NeedArgument(ArgCmd::Pieces)));
    match route(&text("/receitas Ana")) {
        Cmd::Recipes(name) => assert_eq!(string(&name), "Ana"),
        _ => panic!("expected a recipes lookup"),
    }
    match route(&text("/pecas Bo")) {
        Cmd::Pieces(name) => assert_eq!(string(&name), "Bo"),
        _ => panic!("expected a pieces lookup"),
    }
}

#[test]
fn claim_takes_the_trimmed_remainder() {
    assert!(matches!(route(&text("/claim")), Cmd::NeedArgument(ArgCmd::Claim)));
    assert!(matches!(route(&text("/claim   ")), Cmd::NeedArgument(ArgCmd::Claim)));
    match route(&text("/claim  jack sparrow ")) {
        Cmd::Claim(nick) => assert_eq!(string(&nick), "jack sparrow"),
        _ => panic!("expected a claim"),
    }
    // `/claims` with an argument is a claim whose nickname keeps the `s`.
    match route(&text("/claims x")) {
        Cmd::Claim(nick) => assert_eq!(string(&nick), "s x"),
        _ => panic!("expected a claim"),
    }
}

#[test]
fn will_takes_the_trimmed_question() {
    assert!(matches!(route(&text("/will")), Cmd::NeedArgument(ArgCmd::Will)));
    assert!(matches!(route(&text("/will    ")), Cmd::NeedArgument(ArgCmd::Will)));
    match route(&text("/will  where do we sail? ")) {
        Cmd::Ask(q) => assert_eq!(string(&q), "where do we sail?"),
        _ => panic!("expected a question"),
    }
}

#[test]
fn claim_reads_catalogue_then_claims() {
    let reads = reads_for(&route(&text("/claim jack")));
    assert_eq!(reads.len(), 2);
    assert_eq!(reads[0], DocKind::Roles);
    assert_eq!(reads[1], DocKind::Claims);
}

#[test]
fn reset_and_help_read_nothing() {
    assert_eq!(reads_for(&route(&text("/reset"))).len(), 0);
    assert_eq!(reads_for(&route(&text("/comandos"))).len(), 0);
    assert_eq!(reads_for(&route(&text("/bemvindos"))).len(), 0);
}
