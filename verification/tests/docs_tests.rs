use dutchman::claims::{empty_claims, find_claim, insert_claim};
use dutchman::crew::plan_join;
use dutchman::docs::{Claim, Crew, CrewMember};
use dutchman::json::write_json;
use dutchman::jsondocs::{
    calendar_doc_from_json, claims_doc_from_json, claims_doc_to_json, crew_doc_from_json,
    crew_doc_to_json, kv_doc_from_json, mission_from_json, roles_doc_from_json,
    team_doc_from_json, tickets_doc_from_json,
};
use dutchman::jsonparse::parse_json;

fn text(s: &str) -> Vec<char> {
    s.chars().collect()
}

fn string(v: &Vec<char>) -> String {
    v.iter().collect()
}

fn parse(src: &str) -> dutchman::json::Json {
    parse_json(&text(src)).expect("document parses")
}

#[test]
fn the_tickets_document_reads_into_records() {
    let j = parse(
        "{\"Alice\":{\"tickets\":\"2 tickets\",\"vip_tickets\":\"1 vip\",\"selected_ticket\":\"gold\"}}",
    );
    let d = tickets_doc_from_json(&j).expect("well shaped");
    assert_eq!(d.entries.len(), 1);
    assert_eq!(string(&d.entries[0].0), "Alice");
    assert_eq!(string(&d.entries[0].1.tickets), "2 tickets");
    assert_eq!(string(&d.entries[0].1.vip_tickets), "1 vip");
    assert_eq!(string(&d.entries[0].1.selected_ticket), "gold");
    let bad = parse("{\"Alice\":{\"tickets\":\"2\"}}");
    assert!(tickets_doc_from_json(&bad).is_none(), "a missing field fails the read");
}

#[test]
fn of_repeated_keys_the_last_written_value_answers() {
    let j = parse("{\"Ana\":\"bolo\",\"Ana\":\"peixe\"}");
    let d = kv_doc_from_json(&j).expect("well shaped");
    let at = dutchman::docs::kv_find(&d, &text("Ana")).expect("present");
    assert_eq!(string(&d.entries[at].1), "peixe");
}

#[test]
fn name_to_text_documents_read_into_records() {
    let j = parse("{\"Ana\":\"bolo\",\"Bo\":\"peixe\"}");
    let d = kv_doc_from_json(&j).expect("well shaped");
    assert_eq!(d.entries.len(), 2);
    assert_eq!(string(&d.entries[1].0), "Bo");
    assert_eq!(string(&d.entries[1].1), "peixe");
    let bad = parse("{\"Ana\":1}");
    assert!(kv_doc_from_json(&bad).is_none());
}

#[test]
fn the_role_catalogue_reads_into_records() {
    let j = parse(
        "[{\"name\":\"Captain\",\"emoji\":\"X\",\"nicks\":[\"jack\",\"capitao\"]}]",
    );
    let roles = roles_doc_from_json(&j).expect("well shaped");
    assert_eq!(roles.len(), 1);
    assert_eq!(string(&roles[0].name), "Captain");
    assert_eq!(roles[0].nicks.len(), 2);
    assert_eq!(string(&roles[0].nicks[1]), "capitao");
}

#[test]
fn a_team_roster_reads_scores_in_range() {
    let j = parse(
        "[{\"name\":\"Ana\",\"user\":\"ana\",\"points\":-3},{\"name\":\"Bo\",\"user\":\"bo\",\"points\":12}]",
    );
    let ps = team_doc_from_json(&j).expect("well shaped");
    assert_eq!(ps.len(), 2);
    assert_eq!(ps[0].points, -3);
    assert_eq!(ps[1].points, 12);
    let bad = parse("[{\"name\":\"Ana\",\"user\":\"ana\",\"points\":4294967296}]");
    assert!(team_doc_from_json(&bad).is_none(), "a score outside 32 bits fails the read");
}

#[test]
fn the_calendar_reads_into_games() {
    let j = parse(
        "[{\"date\":\"10/05\",\"time\":\"20:00\",\"day_of_week\":\"sab\",\"teams\":[\"T\",\"A\"],\"phase\":\"final\"}]",
    );
    let gs = calendar_doc_from_json(&j).expect("well shaped");
    assert_eq!(gs.len(), 1);
    assert_eq!(string(&gs[0].date), "10/05");
    assert_eq!(gs[0].teams.len(), 2);
    assert_eq!(string(&gs[0].phase), "final");
}

#[test]
fn the_mission_board_reads_into_a_record() {
    let j = parse("{\"title\":\"Semana 1\",\"text\":\"Afundar navios.\"}");
    let m = mission_from_json(&j).expect("well shaped");
    assert_eq!(string(&m.title), "Semana 1");
    assert_eq!(string(&m.text), "Afundar navios.");
}

#[test]
fn the_claims_document_reads_with_a_later_claimant_winning() {
    let j = parse(
        "{\"Alice\":{\"role_name\":\"Captain\",\"role_emoji\":\"X\"},\"Alice\":{\"role_name\":\"Gunner\",\"role_emoji\":\"Y\"}}",
    );
    let d = claims_doc_from_json(&j).expect("well shaped");
    assert_eq!(d.entries.len(), 1);
    let at = find_claim(&d, &text("Alice")).expect("present");
    assert_eq!(string(&d.entries[at].1.role_name), "Gunner");
}

#[test]
fn claims_written_and_read_back_keep_every_claim() {
    let mut doc = empty_claims();
    insert_claim(&mut doc, text("Alice"), Claim {
        role_name: text("Captain"),
        role_emoji: text("🫀"),
    });
    insert_claim(&mut doc, text("Bo"), Claim {
        role_name: text("Gunner"),
        role_emoji: text("Y"),
    });
    let rendered = write_json(&claims_doc_to_json(&doc));
    let back = claims_doc_from_json(&parse_json(&rendered).expect("parses")).expect("well shaped");
    assert_eq!(back.entries.len(), 2);
    let a = find_claim(&back, &text("Alice")).expect("kept");
    assert_eq!(string(&back.entries[a].1.role_name), "Captain");
    assert_eq!(string(&back.entries[a].1.role_emoji), "🫀");
    let b = find_claim(&back, &text("Bo")).expect("kept");
    assert_eq!(string(&back.entries[b].1.role_name), "Gunner");
}

#[test]
fn after_reset_the_stored_document_reads_back_empty() {
    let rendered = write_json(&claims_doc_to_json(&empty_claims()));
    assert_eq!(string(&rendered), "{}");
    let back = claims_doc_from_json(&parse_json(&rendered).expect("parses")).expect("well shaped");
    assert_eq!(back.entries.len(), 0);
}

fn small_crew() -> Crew {
    Crew {
        captain: vec![CrewMember {
            username: text("will"),
            first_name: text("Will"),
            is_crewmember: true,
        }],
        leader: vec![],
        sub_leader: vec![],
        crew: vec![],
        subs: vec![],
    }
}

#[test]
fn the_crew_roster_round_trips_through_its_file_form() {
    let rendered = write_json(&crew_doc_to_json(&small_crew()));
    let back = crew_doc_from_json(&parse_json(&rendered).expect("parses")).expect("well shaped");
    assert_eq!(back.captain.len(), 1);
    assert_eq!(string(&back.captain[0].first_name), "Will");
    assert!(back.captain[0].is_crewmember);
    assert_eq!(back.subs.len(), 0);
}

#[test]
fn the_crew_roster_reads_the_hyphenated_group_key() {
    let j = parse(
        "{\"captain\":[],\"leader\":[],\"sub-leader\":[{\"username\":\"bo\",\"first_name\":\"Bo\",\"is_crewmember\":false}],\"crew\":[],\"subs\":[]}",
    );
    let c = crew_doc_from_json(&j).expect("well shaped");
    assert_eq!(c.sub_leader.len(), 1);
    assert!(!c.sub_leader[0].is_crewmember);
}

#[test]
fn a_join_appends_exactly_one_record_to_subs() {
    let c = plan_join(Some(small_crew()), Some(text("ana")), &text("Ana"));
    assert_eq!(c.subs.len(), 1);
    assert_eq!(string(&c.subs[0].username), "ana");
    assert_eq!(string(&c.subs[0].first_name), "Ana");
    assert!(c.subs[0].is_crewmember);
    assert_eq!(c.captain.len(), 1, "the other groups are untouched");
}

#[test]
fn a_join_without_a_handle_appends_an_empty_one() {
    let c = plan_join(Some(small_crew()), None, &text("Ana"));
    assert_eq!(c.subs.len(), 1);
    assert_eq!(string(&c.subs[0].username), "");
}

#[test]
fn an_unreadable_roster_is_rebuilt_with_the_one_new_record() {
    let c = plan_join(None, Some(text("ana")), &text("Ana"));
    assert_eq!(c.subs.len(), 1);
    assert_eq!(string(&c.subs[0].username), "ana");
    assert_eq!(string(&c.subs[0].first_name), "Ana");
    assert!(c.subs[0].is_crewmember);
    assert_eq!(c.captain.len(), 0);
    assert_eq!(c.leader.len(), 0);
    assert_eq!(c.sub_leader.len(), 0);
    assert_eq!(c.crew.len(), 0);
}
