//! The generative-text bridge: assembling the single-turn prompt and
//! extracting the answer from the service's candidates.
//!
//! The four context documents are read fresh for every question, each
//! falling back to empty text when unreadable; the service call itself is
//! made outside the library.

use vstd::prelude::*;

verus! {

use crate::text::{append_text, chars_of, copy_text};

/// One content part of a service candidate: a textual payload or anything
/// else.
pub enum PartVal {
    Text(Vec<char>),
    Other,
}

/// The context block handed to the service: the four documents under their
/// headings.
pub open spec fn context_spec(
    calendar: Seq<char>,
    missions: Seq<char>,
    chat_log: Seq<char>,
    crew: Seq<char>,
) -> Seq<char> {
    "Contexto do Calendário:\n"@ + calendar + "\n\nContexto das Missões:\n"@ + missions
        + "\n\nContexto do Chat:\n"@ + chat_log + "\n\nContexto da Tripulação:\n"@ + crew
}

/// The whole prompt: the context block, the fixed persona instruction, and
/// the question.
pub open spec fn prompt_spec(context: Seq<char>, question: Seq<char>) -> Seq<char> {
    "Com base no seguinte contexto:\n\n"@ + context
        + "\n\nVocê é Will Turner, Capitão do Holandês Voador, do filme Piratas do Caribe. Responda a seguinte pergunta como se você fosse Will Turner do filme Piratas do Caribe, em Português do Brasil. Seja criativo, e tente não narrar tanto: "@
        + question
}

/// Assemble the context block from the four documents' contents.
pub fn build_context(
    calendar: &Vec<char>,
    missions: &Vec<char>,
    chat_log: &Vec<char>,
    crew: &Vec<char>,
) -> (r: Vec<char>)
    ensures
        r@ == context_spec(calendar@, missions@, chat_log@, crew@),
{
    let mut r = chars_of("Contexto do Calendário:\n");
    append_text(&mut r, calendar);
    let h2 = chars_of("\n\nContexto das Missões:\n");
    append_text(&mut r, &h2);
    append_text(&mut r, missions);
    let h3 = chars_of("\n\nContexto do Chat:\n");
    append_text(&mut r, &h3);
    append_text(&mut r, chat_log);
    let h4 = chars_of("\n\nContexto da Tripulação:\n");
    append_text(&mut r, &h4);
    append_text(&mut r, crew);
    r
}

/// Assemble the prompt for one question.
pub fn build_prompt(context: &Vec<char>, question: &Vec<char>) -> (r: Vec<char>)
    ensures
        r@ == prompt_spec(context@, question@),
{
    let mut r = chars_of("Com base no seguinte contexto:\n\n");
    append_text(&mut r, context);
    let persona = chars_of(
        "\n\nVocê é Will Turner, Capitão do Holandês Voador, do filme Piratas do Caribe. Responda a seguinte pergunta como se você fosse Will Turner do filme Piratas do Caribe, em Português do Brasil. Seja criativo, e tente não narrar tanto: ",
    );
    append_text(&mut r, &persona);
    append_text(&mut r, question);
    r
}

/// The text of the first part of the first candidate, when that part is
/// textual; empty text otherwise — a reply without usable content is not
/// an error.
pub fn extract_answer(candidates: &Vec<Vec<PartVal>>) -> (r: Vec<char>)
    ensures
        r@ == if candidates@.len() > 0 && candidates@[0]@.len() > 0 && (candidates@[0]@[0] matches
            PartVal::Text(t)) {
            candidates@[0]@[0]->Text_0@
        } else {
            Seq::<char>::empty()
        },
{
    if candidates.len() > 0 {
        let first = &candidates[0];
        if first.len() > 0 {
            match &first[0] {
                PartVal::Text(t) => {
                    return copy_text(t);
                },
                PartVal::Other => {
                    return Vec::new();
                },
            }
        }
    }
    Vec::new()
}

} // verus!
