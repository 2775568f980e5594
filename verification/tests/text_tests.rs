use dutchman::chatlog::log_line;
use dutchman::prompt::{build_context, build_prompt, extract_answer, PartVal};
use dutchman::text::{chars_of, second_token_text, starts_with_text, text_eq, trim_text};

fn text(s: &str) -> Vec<char> {
    s.chars().collect()
}

fn string(v: &Vec<char>) -> String {
    v.iter().collect()
}

#[test]
fn chars_of_yields_the_characters() {
    assert_eq!(chars_of("capitão 🫀"), text("capitão 🫀"));
    assert_eq!(chars_of(""), Vec::<char>::new());
}

#[test]
fn equality_and_prefixes_work_character_wise() {
    assert!(text_eq(&text("abc"), &text("abc")));
    assert!(!text_eq(&text("abc"), &text("abd")));
    assert!(!text_eq(&text("abc"), &text("ab")));
    assert!(starts_with_text(&text("/tickets Alice"), &text("/tickets")));
    assert!(starts_with_text(&text("/tickets"), &text("/tickets")));
    assert!(!starts_with_text(&text("/ticket"), &text("/tickets")));
}

#[test]
fn trimming_strips_both_ends() {
    assert_eq!(string(&trim_text(&text("  a b \t\n"))), "a b");
    assert_eq!(string(&trim_text(&text("ab"))), "ab");
    assert_eq!(string(&trim_text(&text("   "))), "");
    assert_eq!(string(&trim_text(&text(""))), "");
}

#[test]
fn the_second_token_is_the_argument() {
    assert_eq!(second_token_text(&text("/tickets Alice")).map(|v| string(&v)),
        Some("Alice".to_string()));
    assert_eq!(second_token_text(&text("  /tickets   Alice  Bob")).map(|v| string(&v)),
        Some("Alice".to_string()));
    assert_eq!(second_token_text(&text("/tickets")), None);
    assert_eq!(second_token_text(&text("   ")), None);
}

#[test]
fn the_log_line_has_its_fixed_shape() {
    let line = log_line(&text("Mon, 05 May"), &text("Ana"), &text("hello"));
    assert_eq!(string(&line), "[Mon, 05 May] Ana: hello\n");
}

#[test]
fn the_prompt_is_the_context_persona_and_question() {
    let ctx = build_context(&text("CAL"), &text("MIS"), &text("LOG"), &text("CREW"));
    let s = string(&ctx);
    assert_eq!(
        s,
        "Contexto do Calendário:\nCAL\n\nContexto das Missões:\nMIS\n\nContexto do Chat:\nLOG\n\nContexto da Tripulação:\nCREW",
    );
    let p = string(&build_prompt(&ctx, &text("where to?")));
    assert!(p.starts_with("Com base no seguinte contexto:\n\nContexto do Calendário:\nCAL"));
    assert!(p.contains("Você é Will Turner, Capitão do Holandês Voador"));
    assert!(p.ends_with(": where to?"));
}

#[test]
fn the_answer_is_the_first_text_part_of_the_first_candidate() {
    let candidates = vec![
        vec![PartVal::Text(text("ahoy")), PartVal::Text(text("second"))],
        vec![PartVal::Text(text("other candidate"))],
    ];
    assert_eq!(string(&extract_answer(&candidates)), "ahoy");
}

#[test]
fn a_reply_without_usable_content_is_empty_not_an_error() {
    assert_eq!(extract_answer(&vec![]), Vec::<char>::new());
    assert_eq!(extract_answer(&vec![vec![]]), Vec::<char>::new());
    assert_eq!(extract_answer(&vec![vec![PartVal::Other, PartVal::Text(text("late"))]]),
        Vec::<char>::new());
}
