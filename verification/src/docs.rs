//! The flat records the bot's documents are made of.
//!
//! Every document is deployed beside the bot as a standalone JSON file and
//! loaded whole; these are their in-memory shapes, with all text as
//! `Vec<char>`.

use vstd::prelude::*;

verus! {

/// One player's ticket inventory, keyed by player name in the tickets
/// document.
pub struct TicketEntry {
    pub tickets: Vec<char>,
    pub vip_tickets: Vec<char>,
    pub selected_ticket: Vec<char>,
}

/// One entry of the role catalogue: a role, its emoji, and the nicknames
/// that claim it.
pub struct RoleEntry {
    pub name: Vec<char>,
    pub emoji: Vec<char>,
    pub nicks: Vec<Vec<char>>,
}

/// An active role claim: the claimed role's name and emoji.
pub struct Claim {
    pub role_name: Vec<char>,
    pub role_emoji: Vec<char>,
}

/// One player of a team roster, with a score.
pub struct Player {
    pub name: Vec<char>,
    pub user: Vec<char>,
    pub points: i32,
}

/// One scheduled game: a `day/month` date, a time, a weekday label, the
/// participating team identifiers, and a phase label.
pub struct Game {
    pub date: Vec<char>,
    pub time: Vec<char>,
    pub day_of_week: Vec<char>,
    pub teams: Vec<Vec<char>>,
    pub phase: Vec<char>,
}

/// The mission board, a singleton document.
pub struct Mission {
    pub title: Vec<char>,
    pub text: Vec<char>,
}

/// One member of the crew roster.
pub struct CrewMember {
    pub username: Vec<char>,
    pub first_name: Vec<char>,
    pub is_crewmember: bool,
}

/// The crew roster: five ordered role groups. New members join the `subs`
/// group; the other groups are maintained out-of-band.
pub struct Crew {
    pub captain: Vec<CrewMember>,
    pub leader: Vec<CrewMember>,
    pub sub_leader: Vec<CrewMember>,
    pub crew: Vec<CrewMember>,
    pub subs: Vec<CrewMember>,
}

/// A players-by-name lookup document (recipes, pieces): association list
/// from player name to free text.
pub struct KvDoc {
    pub entries: Vec<(Vec<char>, Vec<char>)>,
}

/// The tickets document: association list from player name to inventory.
pub struct TicketsDoc {
    pub entries: Vec<(Vec<char>, TicketEntry)>,
}

impl KvDoc {
    /// Whether some entry carries the given name as its key.
    pub open spec fn has_key(&self, name: Seq<char>) -> bool {
        exists|i: int| 0 <= i < self.entries@.len() && (#[trigger] self.entries@[i]).0@ == name
    }
}

impl TicketsDoc {
    /// Whether some entry carries the given name as its key.
    pub open spec fn has_key(&self, name: Seq<char>) -> bool {
        exists|i: int| 0 <= i < self.entries@.len() && (#[trigger] self.entries@[i]).0@ == name
    }
}

/// The entry of the recipes or pieces document keyed by `name`; of
/// repeated keys the last one written holds the value, as in a document
/// read whole into a map.
pub fn kv_find(doc: &KvDoc, name: &Vec<char>) -> (r: Option<usize>)
    ensures
        match r {
            Some(i) => i < doc.entries@.len() && doc.entries@[i as int].0@ == name@ && forall|j:
                int| i < j < doc.entries@.len() ==> (#[trigger] doc.entries@[j]).0@ != name@,
            None => !doc.has_key(name@),
        },
{
    let mut found: Option<usize> = None;
    let mut i: usize = 0;
    while i < doc.entries.len()
        invariant
            i <= doc.entries@.len(),
            match found {
                Some(f) => f < i && doc.entries@[f as int].0@ == name@ && forall|j: int|
                    f < j < i ==> (#[trigger] doc.entries@[j]).0@ != name@,
                None => forall|k: int| 0 <= k < i ==> (#[trigger] doc.entries@[k]).0@ != name@,
            },
        decreases doc.entries@.len() - i,
    {
        if crate::text::text_eq(&doc.entries[i].0, name) {
            found = Some(i);
        }
        i = i + 1;
    }
    found
}

/// The entry of the tickets document keyed by `name`; of repeated keys the
/// last one written holds the inventory, as in a document read whole into
/// a map.
pub fn tickets_find(doc: &TicketsDoc, name: &Vec<char>) -> (r: Option<usize>)
    ensures
        match r {
            Some(i) => i < doc.entries@.len() && doc.entries@[i as int].0@ == name@ && forall|j:
                int| i < j < doc.entries@.len() ==> (#[trigger] doc.entries@[j]).0@ != name@,
            None => !doc.has_key(name@),
        },
{
    let mut found: Option<usize> = None;
    let mut i: usize = 0;
    while i < doc.entries.len()
        invariant
            i <= doc.entries@.len(),
            match found {
                Some(f) => f < i && doc.entries@[f as int].0@ == name@ && forall|j: int|
                    f < j < i ==> (#[trigger] doc.entries@[j]).0@ != name@,
                None => forall|k: int| 0 <= k < i ==> (#[trigger] doc.entries@[k]).0@ != name@,
            },
        decreases doc.entries@.len() - i,
    {
        if crate::text::text_eq(&doc.entries[i].0, name) {
            found = Some(i);
        }
        i = i + 1;
    }
    found
}

} // verus!
