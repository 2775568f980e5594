use dutchman::claims::{empty_claims, find_claim, find_role, insert_claim, text_eq_ignore_case};
use dutchman::docs::{Claim, RoleEntry};
use dutchman::handlers::{apply_claim, claimant_name, claims_list_step, ClaimOutcome, Outcome,
    Reply};

fn text(s: &str) -> Vec<char> {
    s.chars().collect()
}

fn string(v: &Vec<char>) -> String {
    v.iter().collect()
}

fn catalogue() -> Vec<RoleEntry> {
    vec![
        RoleEntry {
            name: text("Captain"),
            emoji: text("X"),
            nicks: vec![text("jack"), text("capitao")],
        },
        RoleEntry {
            name: text("Gunner"),
            emoji: text("Y"),
            nicks: vec![text("anamaria")],
        },
    ]
}

#[test]
fn nickname_matching_ignores_ascii_case() {
    assert!(text_eq_ignore_case(&text("Jack"), &text("jack")));
    assert!(text_eq_ignore_case(&text("CAPITAO"), &text("capitao")));
    assert!(!text_eq_ignore_case(&text("jack"), &text("jak")));
    let roles = catalogue();
    assert_eq!(find_role(&roles, &text("Jack")), Some(0));
    assert_eq!(find_role(&roles, &text("ANAMARIA")), Some(1));
    assert_eq!(find_role(&roles, &text("will")), None);
}

#[test]
fn claiming_a_nickname_stores_the_matching_role() {
    match apply_claim(&text("Jack"), text("Alice"), Ok(catalogue()), Ok(empty_claims())) {
        ClaimOutcome::Store { doc, claimant, role_name, role_emoji } => {
            assert_eq!(string(&claimant), "Alice");
            assert_eq!(string(&role_name), "Captain");
            assert_eq!(string(&role_emoji), "X");
            let at = find_claim(&doc, &text("Alice")).expect("claim stored");
            assert_eq!(string(&doc.entries[at].1.role_name), "Captain");
            assert_eq!(string(&doc.entries[at].1.role_emoji), "X");
        },
        _ => panic!("expected a stored claim"),
    }
}

#[test]
fn a_second_claim_by_the_same_caller_overwrites_the_first() {
    let mut doc = empty_claims();
    insert_claim(&mut doc, text("Alice"), Claim {
        role_name: text("Captain"),
        role_emoji: text("X"),
    });
    insert_claim(&mut doc, text("Alice"), Claim {
        role_name: text("Gunner"),
        role_emoji: text("Y"),
    });
    assert_eq!(doc.entries.len(), 1);
    let at = find_claim(&doc, &text("Alice")).expect("claim stored");
    assert_eq!(string(&doc.entries[at].1.role_name), "Gunner");
}

#[test]
fn unknown_nickname_is_a_normal_negative_result() {
    match apply_claim(&text("will"), text("Alice"), Ok(catalogue()), Ok(empty_claims())) {
        ClaimOutcome::NoSuchRole => {},
        _ => panic!("expected no matching role"),
    }
}

#[test]
fn claim_read_failures_stay_with_the_operator() {
    match apply_claim(&text("jack"), text("Alice"), Err(text("gone")), Ok(empty_claims())) {
        ClaimOutcome::CatalogueReadFailed(e) => assert_eq!(string(&e), "gone"),
        _ => panic!("expected a catalogue failure"),
    }
    match apply_claim(&text("jack"), text("Alice"), Ok(catalogue()), Err(text("bad"))) {
        ClaimOutcome::ClaimsReadFailed(e) => assert_eq!(string(&e), "bad"),
        _ => panic!("expected a claims failure"),
    }
}

#[test]
fn claims_listing_read_failure_sends_no_chat_reply() {
    match claims_list_step(Err(text("lost"))) {
        Outcome::Operator(e) => assert_eq!(string(&e), "lost"),
        _ => panic!("expected an operator-only outcome"),
    }
}

#[test]
fn a_missing_sender_claims_as_unknown() {
    assert_eq!(string(&claimant_name(None)), "Unknown");
    assert_eq!(string(&claimant_name(Some(text("Jack")))), "Jack");
}

#[test]
fn after_reset_the_listing_reports_no_claims() {
    let cleared = empty_claims();
    match claims_list_step(Ok(cleared)) {
        Outcome::Chat(Reply::ClaimsInfo(doc)) => assert_eq!(doc.entries.len(), 0),
        _ => panic!("expected the empty listing"),
    }
}
