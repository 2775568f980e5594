//! The command router: classifies the text of an incoming message as an
//! exact-match command, a prefix command with its argument, or not a
//! command at all.
//!
//! The dispatch order follows the cascade the bot answers with: exact
//! matches are tried before the prefix commands that share their spelling
//! (so `/claims` is a listing, while `/claim s x` is a claim of `s x`).

use vstd::prelude::*;

verus! {

use crate::text::{
    has_prefix, trimmed, second_token, chars_of, text_eq, starts_with_text, trim_text,
    second_token_text, subtext,
};

/// The prefix commands that require an argument.
#[derive(Clone, Copy, Debug, PartialEq, Eq, Structural)]
pub enum ArgCmd {
    Will,
    Tickets,
    Recipes,
    Pieces,
    Claim,
}

/// The three team rosters the bot can report standings for.
#[derive(Clone, Copy, Debug, PartialEq, Eq, Structural)]
pub enum TeamId {
    Barbossa,
    Jack,
    Elizabeth,
}

/// A classified message: which handler is to run, with its argument.
pub enum Cmd {
    /// Welcome photo and speech.
    Welcome,
    /// A question for the generative-text bridge.
    Ask(Vec<char>),
    /// The schedule filtered to the tracked team.
    Calendar,
    /// The next scheduled game of the tracked team.
    NextGame,
    /// The whole schedule.
    FullCalendar,
    /// The mission board.
    Missions,
    /// The crew roster listing.
    CrewList,
    /// The static command overview.
    Help,
    /// Ticket lookup for a player name.
    Tickets(Vec<char>),
    /// Recipe lookup for a player name.
    Recipes(Vec<char>),
    /// Piece lookup for a player name.
    Pieces(Vec<char>),
    /// The list of claimed roles.
    ClaimsList,
    /// A role claim by nickname.
    Claim(Vec<char>),
    /// Clear all role claims.
    Reset,
    /// Standings of one team.
    Team(TeamId),
    /// A prefix command whose required argument is missing.
    NeedArgument(ArgCmd),
    /// Not a command; the message is ignored.
    NotCommand,
}

/// The mathematical image of a `Cmd`, with text as `Seq<char>`.
pub enum CmdView {
    Welcome,
    Ask(Seq<char>),
    Calendar,
    NextGame,
    FullCalendar,
    Missions,
    CrewList,
    Help,
    Tickets(Seq<char>),
    Recipes(Seq<char>),
    Pieces(Seq<char>),
    ClaimsList,
    Claim(Seq<char>),
    Reset,
    Team(TeamId),
    NeedArgument(ArgCmd),
    NotCommand,
}

impl View for Cmd {
    type V = CmdView;

    open spec fn view(&self) -> CmdView {
        match self {
            Cmd::Welcome => CmdView::Welcome,
            Cmd::Ask(q) => CmdView::Ask(q@),
            Cmd::Calendar => CmdView::Calendar,
            Cmd::NextGame => CmdView::NextGame,
            Cmd::FullCalendar => CmdView::FullCalendar,
            Cmd::Missions => CmdView::Missions,
            Cmd::CrewList => CmdView::CrewList,
            Cmd::Help => CmdView::Help,
            Cmd::Tickets(n) => CmdView::Tickets(n@),
            Cmd::Recipes(n) => CmdView::Recipes(n@),
            Cmd::Pieces(n) => CmdView::Pieces(n@),
            Cmd::ClaimsList => CmdView::ClaimsList,
            Cmd::Claim(n) => CmdView::Claim(n@),
            Cmd::Reset => CmdView::Reset,
            Cmd::Team(t) => CmdView::Team(*t),
            Cmd::NeedArgument(c) => CmdView::NeedArgument(*c),
            Cmd::NotCommand => CmdView::NotCommand,
        }
    }
}

/// What the router decides for message text `t`.
///
/// Exact commands match the whole text; prefix commands match any text that
/// begins with their spelling, and take as argument either the second
/// whitespace-separated token (`/tickets`, `/receitas`, `/pecas`) or the
/// trimmed remainder after the spelling (`/will`, `/claim`).
pub open spec fn route_spec(t: Seq<char>) -> CmdView {
    if t == "/bemvindos"@ {
        CmdView::Welcome
    } else if has_prefix(t, "/will"@) {
        let q = trimmed(t.skip("/will"@.len() as int));
        if q.len() == 0 {
            CmdView::NeedArgument(ArgCmd::Will)
        } else {
            CmdView::Ask(q)
        }
    } else if t == "/calendario"@ {
        CmdView::Calendar
    } else if t == "/proximojogo"@ {
        CmdView::NextGame
    } else if t == "/calendariocompleto"@ {
        CmdView::FullCalendar
    } else if t == "/missoes"@ {
        CmdView::Missions
    } else if t == "/tripulacao"@ {
        CmdView::CrewList
    } else if t == "/comandos"@ {
        CmdView::Help
    } else if has_prefix(t, "/tickets"@) {
        let n = second_token(t);
        if n.len() == 0 {
            CmdView::NeedArgument(ArgCmd::Tickets)
        } else {
            CmdView::Tickets(n)
        }
    } else if has_prefix(t, "/receitas"@) {
        let n = second_token(t);
        if n.len() == 0 {
            CmdView::NeedArgument(ArgCmd::Recipes)
        } else {
            CmdView::Recipes(n)
        }
    } else if has_prefix(t, "/pecas"@) {
        let n = second_token(t);
        if n.len() == 0 {
            CmdView::NeedArgument(ArgCmd::Pieces)
        } else {
            CmdView::Pieces(n)
        }
    } else if t == "/claims"@ {
        CmdView::ClaimsList
    } else if has_prefix(t, "/claim"@) {
        let n = trimmed(t.skip("/claim"@.len() as int));
        if n.len() == 0 {
            CmdView::NeedArgument(ArgCmd::Claim)
        } else {
            CmdView::Claim(n)
        }
    } else if t == "/reset"@ {
        CmdView::Reset
    } else if t == "/barbossa"@ {
        CmdView::Team(TeamId::Barbossa)
    } else if t == "/jack"@ {
        CmdView::Team(TeamId::Jack)
    } else if t == "/elizabeth"@ {
        CmdView::Team(TeamId::Elizabeth)
    } else {
        CmdView::NotCommand
    }
}

/// Classify message text.
pub fn route(t: &Vec<char>) -> (r: Cmd)
    ensures
        r@ == route_spec(t@),
{
    if text_eq(t, &chars_of("/bemvindos")) {
        return Cmd::Welcome;
    }
    let will = chars_of("/will");
    if starts_with_text(t, &will) {
        let rest = subtext(t, will.len(), t.len());
        proof {
            assert(rest@ =~= t@.skip("/will"@.len() as int));
        }
        let q = trim_text(&rest);
        if q.len() == 0 {
            return Cmd::NeedArgument(ArgCmd::Will);
        } else {
            return Cmd::Ask(q);
        }
    }
    if text_eq(t, &chars_of("/calendario")) {
        return Cmd::Calendar;
    }
    if text_eq(t, &chars_of("/proximojogo")) {
        return Cmd::NextGame;
    }
    if text_eq(t, &chars_of("/calendariocompleto")) {
        return Cmd::FullCalendar;
    }
    if text_eq(t, &chars_of("/missoes")) {
        return Cmd::Missions;
    }
    if text_eq(t, &chars_of("/tripulacao")) {
        return Cmd::CrewList;
    }
    if text_eq(t, &chars_of("/comandos")) {
        return Cmd::Help;
    }
    if starts_with_text(t, &chars_of("/tickets")) {
        return match second_token_text(t) {
            None => Cmd::NeedArgument(ArgCmd::Tickets),
            Some(n) => Cmd::Tickets(n),
        };
    }
    if starts_with_text(t, &chars_of("/receitas")) {
        return match second_token_text(t) {
            None => Cmd::NeedArgument(ArgCmd::Recipes),
            Some(n) => Cmd::Recipes(n),
        };
    }
    if starts_with_text(t, &chars_of("/pecas")) {
        return match second_token_text(t) {
            None => Cmd::NeedArgument(ArgCmd::Pieces),
            Some(n) => Cmd::Pieces(n),
        };
    }
    if text_eq(t, &chars_of("/claims")) {
        return Cmd::ClaimsList;
    }
    let claim = chars_of("/claim");
    if starts_with_text(t, &claim) {
        let rest = subtext(t, claim.len(), t.len());
        proof {
            assert(rest@ =~= t@.skip("/claim"@.len() as int));
        }
        let n = trim_text(&rest);
        if n.len() == 0 {
            return Cmd::NeedArgument(ArgCmd::Claim);
        } else {
            return Cmd::Claim(n);
        }
    }
    if text_eq(t, &chars_of("/reset")) {
        return Cmd::Reset;
    }
    if text_eq(t, &chars_of("/barbossa")) {
        return Cmd::Team(TeamId::Barbossa);
    }
    if text_eq(t, &chars_of("/jack")) {
        return Cmd::Team(TeamId::Jack);
    }
    if text_eq(t, &chars_of("/elizabeth")) {
        return Cmd::Team(TeamId::Elizabeth);
    }
    Cmd::NotCommand
}

} // verus!
