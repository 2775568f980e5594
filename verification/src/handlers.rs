//! Command handlers: from a classified command and the documents it reads
//! to the reply it sends and the write it performs.
//!
//! Each handler states its whole behaviour: what is replied when the
//! document was read, when the lookup missed, and when the read failed.
//! Most commands answer a read failure in chat; the claims listing and the
//! role claim only tell the operator — that asymmetry is the bot's, kept
//! deliberately.

use vstd::prelude::*;

verus! {

use crate::claims::{ClaimsDoc, find_role, insert_claim, role_matches};
use crate::docs::{Game, KvDoc, Mission, Crew, Player, RoleEntry, TicketEntry, TicketsDoc,
    kv_find, tickets_find, Claim};
use crate::router::{Cmd, CmdView, TeamId};
use crate::schedule::{Date, NextGameSel, involves, game_date, is_next_game, next_game, upcoming};
use crate::standings::{sort_players, sorted_desc};
use crate::text::copy_text;

/// The documents the adapter can read or write.
#[derive(Clone, Copy, Debug, PartialEq, Eq, Structural)]
pub enum DocKind {
    Tickets,
    Recipes,
    Pieces,
    Roles,
    Claims,
    Calendar,
    Missions,
    Crew,
    Team,
}

/// A chat reply, as data; the wording around it is presentation.
pub enum Reply {
    /// The inventory found for a ticket lookup.
    TicketsInfo(TicketEntry),
    /// A ticket lookup that missed, with the name asked for.
    NoTicketsFor(Vec<char>),
    /// The value found for a recipes or pieces lookup.
    KvInfo(DocKind, Vec<char>),
    /// A recipes or pieces lookup that missed, with the name asked for.
    NoKvFor(DocKind, Vec<char>),
    /// The tracked team's games, in schedule order.
    GameList(Vec<Game>),
    /// The whole schedule, in order.
    FullGameList(Vec<Game>),
    /// The next game of the tracked team.
    NextGameIs(Game),
    /// No tracked game on or after today.
    NoUpcomingGame,
    /// The mission board.
    MissionInfo(Mission),
    /// The crew roster.
    CrewInfo(Crew),
    /// The claimed roles.
    ClaimsInfo(ClaimsDoc),
    /// No catalogue role knows the nickname.
    RoleNotFound(Vec<char>),
    /// A stored claim, confirmed to the chat.
    ClaimStored { claimant: Vec<char>, role_name: Vec<char>, role_emoji: Vec<char> },
    /// The claims list was cleared.
    ResetDone,
    /// A team's players, highest score first.
    Standings(TeamId, Vec<Player>),
    /// A document read failed; the failure text goes to the chat.
    ReadFailed(DocKind, Vec<char>),
}

/// Where a handler's result goes.
pub enum Outcome {
    /// Reply in the chat.
    Chat(Reply),
    /// Tell the operator only; the chat stays silent.
    Operator(Vec<char>),
}

/// What the role-claim command decides.
pub enum ClaimOutcome {
    /// The role catalogue could not be read: operator log only.
    CatalogueReadFailed(Vec<char>),
    /// The claims document could not be read: operator log only.
    ClaimsReadFailed(Vec<char>),
    /// No catalogue role knows the nickname: replied in chat.
    NoSuchRole,
    /// Store `doc`, and on a successful write confirm the claim in chat.
    Store { doc: ClaimsDoc, claimant: Vec<char>, role_name: Vec<char>, role_emoji: Vec<char> },
}

/// The documents a command reads before it can answer, in reading order.
/// A question for the generative-text bridge reads no document here: its
/// four context files are gathered best-effort when the prompt is built.
pub open spec fn reads_spec(c: CmdView) -> Seq<DocKind> {
    match c {
        CmdView::Welcome => Seq::empty(),
        CmdView::Ask(_) => Seq::empty(),
        CmdView::Calendar => seq![DocKind::Calendar],
        CmdView::NextGame => seq![DocKind::Calendar],
        CmdView::FullCalendar => seq![DocKind::Calendar],
        CmdView::Missions => seq![DocKind::Missions],
        CmdView::CrewList => seq![DocKind::Crew],
        CmdView::Help => Seq::empty(),
        CmdView::Tickets(_) => seq![DocKind::Tickets],
        CmdView::Recipes(_) => seq![DocKind::Recipes],
        CmdView::Pieces(_) => seq![DocKind::Pieces],
        CmdView::ClaimsList => seq![DocKind::Claims],
        CmdView::Claim(_) => seq![DocKind::Roles, DocKind::Claims],
        CmdView::Reset => Seq::empty(),
        CmdView::Team(_) => seq![DocKind::Team],
        CmdView::NeedArgument(_) => Seq::empty(),
        CmdView::NotCommand => Seq::empty(),
    }
}

/// The documents to read for a command.
pub fn reads_for(cmd: &Cmd) -> (r: Vec<DocKind>)
    ensures
        r@ == reads_spec(cmd@),
{
    let mut r: Vec<DocKind> = Vec::new();
    match cmd {
        Cmd::Calendar | Cmd::NextGame | Cmd::FullCalendar => {
            r.push(DocKind::Calendar);
        },
        Cmd::Missions => {
            r.push(DocKind::Missions);
        },
        Cmd::CrewList => {
            r.push(DocKind::Crew);
        },
        Cmd::Tickets(_) => {
            r.push(DocKind::Tickets);
        },
        Cmd::Recipes(_) => {
            r.push(DocKind::Recipes);
        },
        Cmd::Pieces(_) => {
            r.push(DocKind::Pieces);
        },
        Cmd::ClaimsList => {
            r.push(DocKind::Claims);
        },
        Cmd::Claim(_) => {
            r.push(DocKind::Roles);
            r.push(DocKind::Claims);
        },
        Cmd::Team(_) => {
            r.push(DocKind::Team);
        },
        _ => {},
    }
    proof {
        assert(r@ =~= reads_spec(cmd@));
    }
    r
}

/// The display name a claim is stored under: the sender's first name, or
/// `Unknown` when the message carries no sender.
pub fn claimant_name(sender: Option<Vec<char>>) -> (r: Vec<char>)
    ensures
        r@ == match sender {
            Some(n) => n@,
            None => "Unknown"@,
        },
{
    match sender {
        Some(n) => n,
        None => crate::text::chars_of("Unknown"),
    }
}

/// Answer a ticket lookup.
pub fn tickets_step(name: Vec<char>, doc: Result<TicketsDoc, Vec<char>>) -> (r: Reply)
    ensures
        match doc {
            Err(e) => r matches Reply::ReadFailed(k, m) && k == DocKind::Tickets && m == e,
            Ok(d) => {
                if d.has_key(name@) {
                    r matches Reply::TicketsInfo(t) && (exists|i: int|
                        {
                            &&& 0 <= i < d.entries@.len()
                            &&& (#[trigger] d.entries@[i]).0@ == name@
                            &&& forall|j: int|
                                i < j < d.entries@.len() ==> (#[trigger] d.entries@[j]).0@ != name@
                            &&& t.tickets@ == d.entries@[i].1.tickets@
                            &&& t.vip_tickets@ == d.entries@[i].1.vip_tickets@
                            &&& t.selected_ticket@ == d.entries@[i].1.selected_ticket@
                        })
                } else {
                    r matches Reply::NoTicketsFor(n) && n@ == name@
                }
            },
        },
{
    match doc {
        Err(e) => Reply::ReadFailed(DocKind::Tickets, e),
        Ok(d) => {
            match tickets_find(&d, &name) {
                Some(i) => {
                    let entry = &d.entries[i].1;
                    let t = TicketEntry {
                        tickets: copy_text(&entry.tickets),
                        vip_tickets: copy_text(&entry.vip_tickets),
                        selected_ticket: copy_text(&entry.selected_ticket),
                    };
                    Reply::TicketsInfo(t)
                },
                None => Reply::NoTicketsFor(name),
            }
        },
    }
}

/// Answer a recipes or pieces lookup; `kind` tags the reply.
pub fn kv_step(kind: DocKind, name: Vec<char>, doc: Result<KvDoc, Vec<char>>) -> (r: Reply)
    ensures
        match doc {
            Err(e) => r matches Reply::ReadFailed(k, m) && k == kind && m == e,
            Ok(d) => {
                if d.has_key(name@) {
                    r matches Reply::KvInfo(k, v) && k == kind && (exists|i: int|
                        {
                            &&& 0 <= i < d.entries@.len()
                            &&& (#[trigger] d.entries@[i]).0@ == name@
                            &&& v@ == d.entries@[i].1@
                        })
                } else {
                    r matches Reply::NoKvFor(k, n) && k == kind && n@ == name@
                }
            },
        },
{
    match doc {
        Err(e) => Reply::ReadFailed(kind, e),
        Ok(d) => {
            match kv_find(&d, &name) {
                Some(i) => Reply::KvInfo(kind, copy_text(&d.entries[i].1)),
                None => Reply::NoKvFor(kind, name),
            }
        },
    }
}

/// The games involving the tracked team, in schedule order.
pub fn filter_games(games: Vec<Game>, marker: &Vec<char>) -> (r: Vec<Game>)
    ensures
        r@ == games@.filter(|g: Game| involves(g, marker@)),
{
    let ghost orig = games@;
    let ghost pred = |g: Game| involves(g, marker@);
    let mut rest = games;
    let mut out: Vec<Game> = Vec::new();
    proof {
        assert(orig.take(0).filter(pred) =~= Seq::<Game>::empty()) by {
            reveal(Seq::filter);
            assert(orig.take(0) =~= Seq::<Game>::empty());
        }
    }
    while rest.len() > 0
        invariant
            rest@.len() <= orig.len(),
            rest@ == orig.skip(orig.len() - rest@.len()),
            out@ == orig.take(orig.len() - rest@.len()).filter(pred),
            pred == (|g: Game| involves(g, marker@)),
        decreases rest@.len(),
    {
        let ghost done = orig.len() - rest@.len();
        let g = rest.remove(0);
        proof {
            assert(rest@ =~= orig.skip(done + 1));
            assert(g == orig[done]);
            assert(orig.take(done + 1).drop_last() =~= orig.take(done));
            assert(orig.take(done + 1).last() == orig[done]);
        }
        let keep = crate::schedule::game_involves(&g, marker);
        proof {
            reveal(Seq::filter);
            assert(orig.take(done + 1).filter(pred) == if pred(orig[done]) {
                orig.take(done).filter(pred).push(orig[done])
            } else {
                orig.take(done).filter(pred)
            });
        }
        if keep {
            out.push(g);
        }
    }
    proof {
        assert(orig.take(orig.len() as int) =~= orig);
    }
    out
}

/// Answer the tracked-team calendar command.
pub fn calendar_step(marker: &Vec<char>, doc: Result<Vec<Game>, Vec<char>>) -> (r: Reply)
    ensures
        match doc {
            Err(e) => r matches Reply::ReadFailed(k, m) && k == DocKind::Calendar && m == e,
            Ok(games) => r matches Reply::GameList(gs) && gs@ == games@.filter(
                |g: Game| involves(g, marker@),
            ),
        },
{
    match doc {
        Err(e) => Reply::ReadFailed(DocKind::Calendar, e),
        Ok(games) => Reply::GameList(filter_games(games, marker)),
    }
}

/// Answer the whole-calendar command.
pub fn full_calendar_step(doc: Result<Vec<Game>, Vec<char>>) -> (r: Reply)
    ensures
        match doc {
            Err(e) => r matches Reply::ReadFailed(k, m) && k == DocKind::Calendar && m == e,
            Ok(games) => r matches Reply::FullGameList(gs) && gs == games,
        },
{
    match doc {
        Err(e) => Reply::ReadFailed(DocKind::Calendar, e),
        Ok(games) => Reply::FullGameList(games),
    }
}

/// Answer the next-game command. A tracked game whose date does not parse
/// is fatal to this request: the operator is told and the chat stays
/// silent, mirroring the abort of the unit handling the message.
pub fn next_game_step(marker: &Vec<char>, today: Date, doc: Result<Vec<Game>, Vec<char>>) -> (r:
    Outcome)
    ensures
        match doc {
            Err(e) => r matches Outcome::Chat(rep) && rep matches Reply::ReadFailed(k, m) && k
                == DocKind::Calendar && m == e,
            Ok(games) => match r {
                Outcome::Chat(rep) => match rep {
                    Reply::NextGameIs(g) => exists|i: int|
                        #![auto]
                        is_next_game(games@, marker@, today, i) && g == games@[i],
                    Reply::NoUpcomingGame => forall|j: int|
                        0 <= j < games@.len() && involves(#[trigger] games@[j], marker@)
                            ==> game_date(games@[j]) is Some && !upcoming(games@[j], today),
                    _ => false,
                },
                Outcome::Operator(d) => exists|k: int|
                    {
                        &&& 0 <= k < games@.len()
                        &&& involves(#[trigger] games@[k], marker@)
                        &&& game_date(games@[k]) is None
                        &&& d@ == games@[k].date@
                    },
            },
        },
{
    match doc {
        Err(e) => Outcome::Chat(Reply::ReadFailed(DocKind::Calendar, e)),
        Ok(mut games) => {
            match next_game(&games, marker, today) {
                NextGameSel::Found(i) => {
                    let g = games.remove(i);
                    Outcome::Chat(Reply::NextGameIs(g))
                },
                NextGameSel::NoneUpcoming => Outcome::Chat(Reply::NoUpcomingGame),
                NextGameSel::BadDate(k) => Outcome::Operator(copy_text(&games[k].date)),
            }
        },
    }
}

/// Answer the mission-board command.
pub fn missions_step(doc: Result<Mission, Vec<char>>) -> (r: Reply)
    ensures
        match doc {
            Err(e) => r matches Reply::ReadFailed(k, m) && k == DocKind::Missions && m == e,
            Ok(mission) => r matches Reply::MissionInfo(m2) && m2 == mission,
        },
{
    match doc {
        Err(e) => Reply::ReadFailed(DocKind::Missions, e),
        Ok(mission) => Reply::MissionInfo(mission),
    }
}

/// Answer the crew-roster command.
pub fn crew_list_step(doc: Result<Crew, Vec<char>>) -> (r: Reply)
    ensures
        match doc {
            Err(e) => r matches Reply::ReadFailed(k, m) && k == DocKind::Crew && m == e,
            Ok(crew) => r matches Reply::CrewInfo(c2) && c2 == crew,
        },
{
    match doc {
        Err(e) => Reply::ReadFailed(DocKind::Crew, e),
        Ok(crew) => Reply::CrewInfo(crew),
    }
}

/// Answer the claims listing. A failed read is told to the operator only;
/// the chat gets no reply.
pub fn claims_list_step(doc: Result<ClaimsDoc, Vec<char>>) -> (r: Outcome)
    ensures
        match doc {
            Err(e) => r matches Outcome::Operator(m) && m == e,
            Ok(d) => r matches Outcome::Chat(rep) && rep matches Reply::ClaimsInfo(d2) && d2 == d,
        },
{
    match doc {
        Err(e) => Outcome::Operator(e),
        Ok(d) => Outcome::Chat(Reply::ClaimsInfo(d)),
    }
}

/// Answer a team-standings command: the roster ordered by points, highest
/// first.
pub fn standings_step(team: TeamId, doc: Result<Vec<Player>, Vec<char>>) -> (r: Reply)
    ensures
        match doc {
            Err(e) => r matches Reply::ReadFailed(k, m) && k == DocKind::Team && m == e,
            Ok(players) => r matches Reply::Standings(t, ps) && t == team && ps@.to_multiset()
                == players@.to_multiset() && ps@.len() == players@.len() && sorted_desc(ps@),
        },
{
    match doc {
        Err(e) => Reply::ReadFailed(DocKind::Team, e),
        Ok(players) => Reply::Standings(team, sort_players(players)),
    }
}

/// Decide a role claim. The catalogue is read first, then the claims
/// document; either failing is told to the operator only. A nickname no
/// catalogue entry knows is answered in chat; a match stores the claim
/// under the claimant's name, overwriting any earlier claim of theirs.
pub fn apply_claim(
    nick: &Vec<char>,
    claimant: Vec<char>,
    roles_doc: Result<Vec<RoleEntry>, Vec<char>>,
    claims_doc: Result<ClaimsDoc, Vec<char>>,
) -> (r: ClaimOutcome)
    requires
        claims_doc matches Ok(d) ==> d.wf(),
    ensures
        match roles_doc {
            Err(e) => r matches ClaimOutcome::CatalogueReadFailed(m) && m == e,
            Ok(roles) => match claims_doc {
                Err(e) => r matches ClaimOutcome::ClaimsReadFailed(m) && m == e,
                Ok(cd) => {
                    if exists|j: int|
                        0 <= j < roles@.len() && role_matches(#[trigger] roles@[j], nick@) {
                        r matches ClaimOutcome::Store { doc, claimant: c2, role_name, role_emoji }
                            && c2@ == claimant@ && doc.wf() && (exists|i: int|
                            {
                                &&& 0 <= i < roles@.len()
                                &&& role_matches(#[trigger] roles@[i], nick@)
                                &&& forall|j: int|
                                    0 <= j < i ==> !role_matches(#[trigger] roles@[j], nick@)
                                &&& role_name@ == roles@[i].name@
                                &&& role_emoji@ == roles@[i].emoji@
                                &&& doc.as_map() == cd.as_map().insert(
                                    claimant@,
                                    (roles@[i].name@, roles@[i].emoji@),
                                )
                            })
                    } else {
                        r matches ClaimOutcome::NoSuchRole
                    }
                },
            },
        },
{
    match roles_doc {
        Err(e) => ClaimOutcome::CatalogueReadFailed(e),
        Ok(roles) => {
            match claims_doc {
                Err(e) => ClaimOutcome::ClaimsReadFailed(e),
                Ok(mut cd) => {
                    match find_role(&roles, nick) {
                        None => ClaimOutcome::NoSuchRole,
                        Some(i) => {
                            let role_name = copy_text(&roles[i].name);
                            let role_emoji = copy_text(&roles[i].emoji);
                            let claim = Claim {
                                role_name: copy_text(&role_name),
                                role_emoji: copy_text(&role_emoji),
                            };
                            let stored_name = copy_text(&claimant);
                            insert_claim(&mut cd, stored_name, claim);
                            ClaimOutcome::Store {
                                doc: cd,
                                claimant,
                                role_name,
                                role_emoji,
                            }
                        },
                    }
                },
            }
        },
    }
}

} // verus!
