//! Typed views of the JSON documents: from a parsed tree to the records
//! the handlers work on, and back for the documents the bot rewrites.
//!
//! Object fields are looked up by their first occurrence; a document whose
//! shape does not fit its record type is rejected whole, which the
//! handlers answer as a read failure.

use vstd::prelude::*;

verus! {

use crate::json::Json;
use crate::docs::{KvDoc, TicketEntry, TicketsDoc, Mission, RoleEntry, Player, Game, CrewMember,
    Crew};
use crate::claims::{ClaimsDoc, map_of};
use crate::docs::Claim;
use crate::text::{chars_of, copy_text, text_eq};

/// The value of the first field named `key`.
pub open spec fn obj_lookup(fields: Seq<(Vec<char>, Json)>, key: Seq<char>) -> Option<Json>
    decreases fields.len(),
{
    if fields.len() == 0 {
        None
    } else if fields[0].0@ == key {
        Some(fields[0].1)
    } else {
        obj_lookup(fields.drop_first(), key)
    }
}

/// The field found at `i`, every earlier field differing, is the lookup's
/// result.
proof fn lemma_obj_lookup_at(fields: Seq<(Vec<char>, Json)>, key: Seq<char>, i: int)
    requires
        0 <= i < fields.len(),
        fields[i].0@ == key,
        forall|j: int| 0 <= j < i ==> (#[trigger] fields[j]).0@ != key,
    ensures
        obj_lookup(fields, key) == Some(fields[i].1),
    decreases i,
{
    if i > 0 {
        assert(forall|j: int|
            0 <= j < i - 1 ==> (#[trigger] fields.drop_first()[j]).0@ == fields[j + 1].0@);
        lemma_obj_lookup_at(fields.drop_first(), key, i - 1);
    }
}

/// With no field named `key`, the lookup misses.
proof fn lemma_obj_lookup_none(fields: Seq<(Vec<char>, Json)>, key: Seq<char>)
    requires
        forall|j: int| 0 <= j < fields.len() ==> (#[trigger] fields[j]).0@ != key,
    ensures
        obj_lookup(fields, key) is None,
    decreases fields.len(),
{
    if fields.len() > 0 {
        assert(forall|j: int|
            0 <= j < fields.len() - 1 ==> (#[trigger] fields.drop_first()[j]).0@ == fields[j
                + 1].0@);
        lemma_obj_lookup_none(fields.drop_first(), key);
    }
}

/// The position of the first field named `key`.
fn obj_get(fields: &Vec<(Vec<char>, Json)>, key: &Vec<char>) -> (r: Option<usize>)
    ensures
        match r {
            Some(i) => i < fields@.len() && obj_lookup(fields@, key@) == Some(
                fields@[i as int].1,
            ) && fields@[i as int].0@ == key@,
            None => obj_lookup(fields@, key@) is None,
        },
{
    let mut i: usize = 0;
    while i < fields.len()
        invariant
            i <= fields@.len(),
            forall|j: int| 0 <= j < i ==> (#[trigger] fields@[j]).0@ != key@,
        decreases fields@.len() - i,
    {
        if text_eq(&fields[i].0, key) {
            proof {
                lemma_obj_lookup_at(fields@, key@, i as int);
            }
            return Some(i);
        }
        i = i + 1;
    }
    proof {
        lemma_obj_lookup_none(fields@, key@);
    }
    None
}

/// The first field named `key` holds a string with these characters.
pub open spec fn str_field(fields: Seq<(Vec<char>, Json)>, key: Seq<char>, val: Seq<char>) -> bool {
    obj_lookup(fields, key) matches Some(Json::Str(s)) && s@ == val
}

/// The first field named `key` holds a string.
pub open spec fn has_str_field(fields: Seq<(Vec<char>, Json)>, key: Seq<char>) -> bool {
    obj_lookup(fields, key) matches Some(Json::Str(_))
}

/// The characters of the first string field named `key`, if it is one.
fn get_str_field(fields: &Vec<(Vec<char>, Json)>, key: &Vec<char>) -> (r: Option<Vec<char>>)
    ensures
        match r {
            Some(s) => str_field(fields@, key@, s@),
            None => !has_str_field(fields@, key@),
        },
{
    match obj_get(fields, key) {
        None => None,
        Some(i) => {
            match &fields[i].1 {
                Json::Str(s) => Some(copy_text(s)),
                _ => None,
            }
        },
    }
}

/// A name-to-text document: every field a string.
pub open spec fn kv_doc_shape(j: Json) -> bool {
    j matches Json::Obj(fields) && forall|i: int|
        0 <= i < fields@.len() ==> (#[trigger] fields@[i]).1 matches Json::Str(_)
}

/// The records a name-to-text document carries, in written order.
pub open spec fn kv_doc_of(j: Json, d: KvDoc) -> bool {
    j matches Json::Obj(fields) && d.entries@.len() == fields@.len() && forall|i: int|
        0 <= i < fields@.len() ==> (#[trigger] d.entries@[i]).0@ == fields@[i].0@ && (fields@[i].1
            matches Json::Str(s) && d.entries@[i].1@ == s@)
}

/// Read a name-to-text document (recipes, pieces).
pub fn kv_doc_from_json(j: &Json) -> (r: Option<KvDoc>)
    ensures
        match r {
            Some(d) => kv_doc_shape(*j) && kv_doc_of(*j, d),
            None => !kv_doc_shape(*j),
        },
{
    match j {
        Json::Obj(fields) => {
            let mut entries: Vec<(Vec<char>, Vec<char>)> = Vec::new();
            let mut i: usize = 0;
            while i < fields.len()
                invariant
                    *j == Json::Obj(*fields),
                    i <= fields@.len(),
                    entries@.len() == i,
                    forall|k: int|
                        0 <= k < i ==> (#[trigger] entries@[k]).0@ == fields@[k].0@ && (fields@[k].1
                            matches Json::Str(s) && entries@[k].1@ == s@),
                decreases fields@.len() - i,
            {
                let item = &fields[i].1;
                proof {
                    assert(*item == (fields@[i as int]).1);
                }
                match item {
                    Json::Str(s) => {
                        entries.push((copy_text(&fields[i].0), copy_text(s)));
                    },
                    _ => {
                        proof {
                            assert(!(*item matches Json::Str(_)));
                            assert(((*j)->Obj_0)@ == fields@);
                            assert(!((((*j)->Obj_0)@[i as int]).1 matches Json::Str(_)));
                            assert(!kv_doc_shape(*j));
                        }
                        return None;
                    },
                }
                i = i + 1;
            }
            proof {
                assert((*j)->Obj_0 == *fields);
                assert forall|k: int|
                    0 <= k < ((*j)->Obj_0)@.len() implies ((#[trigger] ((*j)->Obj_0)@[k]).1
                    matches Json::Str(_)) by {
                    assert(entries@[k].0@ == fields@[k].0@);
                }
                assert(kv_doc_shape(*j));
            }
            Some(KvDoc { entries })
        },
        _ => None,
    }
}

/// One player's inventory: the three ticket texts.
pub open spec fn ticket_entry_shape(j: Json) -> bool {
    j matches Json::Obj(f) && has_str_field(f@, "tickets"@) && has_str_field(f@, "vip_tickets"@)
        && has_str_field(f@, "selected_ticket"@)
}

/// The inventory a ticket object carries.
pub open spec fn ticket_entry_of(j: Json, t: TicketEntry) -> bool {
    j matches Json::Obj(f) && str_field(f@, "tickets"@, t.tickets@) && str_field(
        f@,
        "vip_tickets"@,
        t.vip_tickets@,
    ) && str_field(f@, "selected_ticket"@, t.selected_ticket@)
}

/// Read one ticket object.
fn ticket_entry_from_json(j: &Json) -> (r: Option<TicketEntry>)
    ensures
        match r {
            Some(t) => ticket_entry_shape(*j) && ticket_entry_of(*j, t),
            None => !ticket_entry_shape(*j),
        },
{
    match j {
        Json::Obj(f) => {
            let tickets = match get_str_field(f, &chars_of("tickets")) {
                Some(s) => s,
                None => {
                    return None;
                },
            };
            let vip_tickets = match get_str_field(f, &chars_of("vip_tickets")) {
                Some(s) => s,
                None => {
                    return None;
                },
            };
            let selected_ticket = match get_str_field(f, &chars_of("selected_ticket")) {
                Some(s) => s,
                None => {
                    return None;
                },
            };
            Some(TicketEntry { tickets, vip_tickets, selected_ticket })
        },
        _ => None,
    }
}

/// The tickets document: player name to inventory object.
pub open spec fn tickets_doc_shape(j: Json) -> bool {
    j matches Json::Obj(fields) && forall|i: int|
        0 <= i < fields@.len() ==> ticket_entry_shape((#[trigger] fields@[i]).1)
}

/// The records the tickets document carries, in written order.
pub open spec fn tickets_doc_of(j: Json, d: TicketsDoc) -> bool {
    j matches Json::Obj(fields) && d.entries@.len() == fields@.len() && forall|i: int|
        0 <= i < fields@.len() ==> (#[trigger] d.entries@[i]).0@ == fields@[i].0@
            && ticket_entry_of(fields@[i].1, d.entries@[i].1)
}

/// Read the tickets document.
pub fn tickets_doc_from_json(j: &Json) -> (r: Option<TicketsDoc>)
    ensures
        match r {
            Some(d) => tickets_doc_shape(*j) && tickets_doc_of(*j, d),
            None => !tickets_doc_shape(*j),
        },
{
    match j {
        Json::Obj(fields) => {
            let mut entries: Vec<(Vec<char>, TicketEntry)> = Vec::new();
            let mut i: usize = 0;
            while i < fields.len()
                invariant
                    *j == Json::Obj(*fields),
                    i <= fields@.len(),
                    entries@.len() == i,
                    forall|k: int|
                        0 <= k < i ==> (#[trigger] entries@[k]).0@ == fields@[k].0@
                            && ticket_entry_of(fields@[k].1, entries@[k].1),
                decreases fields@.len() - i,
            {
                match ticket_entry_from_json(&fields[i].1) {
                    Some(t) => {
                        entries.push((copy_text(&fields[i].0), t));
                    },
                    None => {
                        proof {
                            assert(!ticket_entry_shape((fields@[i as int]).1));
                            assert((*j)->Obj_0 == *fields);
                            assert(!ticket_entry_shape((((*j)->Obj_0)@[i as int]).1));
                            assert(!tickets_doc_shape(*j));
                        }
                        return None;
                    },
                }
                i = i + 1;
            }
            proof {
                assert((*j)->Obj_0 == *fields);
                assert forall|k: int|
                    0 <= k < ((*j)->Obj_0)@.len() implies ticket_entry_shape(
                    (#[trigger] ((*j)->Obj_0)@[k]).1,
                ) by {
                    assert(entries@[k].0@ == fields@[k].0@);
                    assert(ticket_entry_of(fields@[k].1, entries@[k].1));
                }
                assert(tickets_doc_shape(*j));
            }
            Some(TicketsDoc { entries })
        },
        _ => None,
    }
}

/// The mission board: a title and a body.
pub open spec fn mission_shape(j: Json) -> bool {
    j matches Json::Obj(f) && has_str_field(f@, "title"@) && has_str_field(f@, "text"@)
}

/// The mission a mission object carries.
pub open spec fn mission_of(j: Json, m: Mission) -> bool {
    j matches Json::Obj(f) && str_field(f@, "title"@, m.title@) && str_field(f@, "text"@, m.text@)
}

/// Read the mission board.
pub fn mission_from_json(j: &Json) -> (r: Option<Mission>)
    ensures
        match r {
            Some(m) => mission_shape(*j) && mission_of(*j, m),
            None => !mission_shape(*j),
        },
{
    match j {
        Json::Obj(f) => {
            let title = match get_str_field(f, &chars_of("title")) {
                Some(s) => s,
                None => {
                    return None;
                },
            };
            let text = match get_str_field(f, &chars_of("text")) {
                Some(s) => s,
                None => {
                    return None;
                },
            };
            Some(Mission { title, text })
        },
        _ => None,
    }
}

/// A claim object: a role name and an emoji.
pub open spec fn claim_shape(j: Json) -> bool {
    j matches Json::Obj(f) && has_str_field(f@, "role_name"@) && has_str_field(f@, "role_emoji"@)
}

/// The claim a claim object carries.
pub open spec fn claim_of(j: Json, c: Claim) -> bool {
    j matches Json::Obj(f) && str_field(f@, "role_name"@, c.role_name@) && str_field(
        f@,
        "role_emoji"@,
        c.role_emoji@,
    )
}

/// The claims document: every value a claim object.
pub open spec fn claims_doc_shape(j: Json) -> bool {
    j matches Json::Obj(fields) && forall|i: int|
        0 <= i < fields@.len() ==> claim_shape((#[trigger] fields@[i]).1)
}

/// The map a claims object describes, a later field overriding an earlier
/// one of the same name.
pub open spec fn claims_json_map(fields: Seq<(Vec<char>, Json)>) -> Map<
    Seq<char>,
    (Seq<char>, Seq<char>),
>
    decreases fields.len(),
{
    if fields.len() == 0 {
        Map::empty()
    } else {
        let f = fields.last();
        claims_json_map(fields.drop_last()).insert(
            f.0@,
            (
                obj_lookup(f.1->Obj_0@, "role_name"@)->Some_0->Str_0@,
                obj_lookup(f.1->Obj_0@, "role_emoji"@)->Some_0->Str_0@,
            ),
        )
    }
}

/// Read the claims document, a later field overriding an earlier one of
/// the same claimant.
pub fn claims_doc_from_json(j: &Json) -> (r: Option<ClaimsDoc>)
    ensures
        match r {
            Some(d) => claims_doc_shape(*j) && d.wf() && (j matches Json::Obj(fields)
                && d.as_map() == claims_json_map(fields@)),
            None => !claims_doc_shape(*j),
        },
{
    match j {
        Json::Obj(fields) => {
            let mut d = crate::claims::empty_claims();
            let mut i: usize = 0;
            proof {
                assert(fields@.take(0int) =~= Seq::<(Vec<char>, Json)>::empty());
            }
            while i < fields.len()
                invariant
                    *j == Json::Obj(*fields),
                    i <= fields@.len(),
                    d.wf(),
                    forall|k: int| 0 <= k < i ==> claim_shape((#[trigger] fields@[k]).1),
                    d.as_map() == claims_json_map(fields@.take(i as int)),
                decreases fields@.len() - i,
            {
                let claim = match &fields[i].1 {
                    Json::Obj(cf) => {
                        let role_name = match get_str_field(cf, &chars_of("role_name")) {
                            Some(s) => s,
                            None => {
                                proof {
                                    assert(!claim_shape((fields@[i as int]).1));
                                    assert((*j)->Obj_0 == *fields);
                                    assert(!claim_shape((((*j)->Obj_0)@[i as int]).1));
                                    assert(!claims_doc_shape(*j));
                                }
                                return None;
                            },
                        };
                        let role_emoji = match get_str_field(cf, &chars_of("role_emoji")) {
                            Some(s) => s,
                            None => {
                                proof {
                                    assert(!claim_shape((fields@[i as int]).1));
                                    assert((*j)->Obj_0 == *fields);
                                    assert(!claim_shape((((*j)->Obj_0)@[i as int]).1));
                                    assert(!claims_doc_shape(*j));
                                }
                                return None;
                            },
                        };
                        Claim { role_name, role_emoji }
                    },
                    _ => {
                        proof {
                            assert(!claim_shape((fields@[i as int]).1));
                            assert((*j)->Obj_0 == *fields);
                            assert(!claim_shape((((*j)->Obj_0)@[i as int]).1));
                            assert(!claims_doc_shape(*j));
                        }
                        return None;
                    },
                };
                let ghost prev = d.as_map();
                crate::claims::insert_claim(&mut d, copy_text(&fields[i].0), claim);
                proof {
                    assert(fields@.take(i + 1 as int).drop_last() =~= fields@.take(i as int));
                    assert(fields@.take(i + 1 as int).last() == fields@[i as int]);
                }
                i = i + 1;
            }
            proof {
                assert(fields@.take(fields@.len() as int) =~= fields@);
                assert((*j)->Obj_0 == *fields);
                assert forall|k: int|
                    0 <= k < ((*j)->Obj_0)@.len() implies claim_shape(
                    (#[trigger] ((*j)->Obj_0)@[k]).1,
                ) by {
                    assert(claim_shape(fields@[k].1));
                }
                assert(claims_doc_shape(*j));
            }
            Some(d)
        },
        _ => None,
    }
}

/// Render one claim as a claim object.
fn claim_to_json(c: &Claim) -> (r: Json)
    ensures
        claim_shape(r),
        claim_of(r, *c),
{
    let mut f: Vec<(Vec<char>, Json)> = Vec::new();
    f.push((chars_of("role_name"), Json::Str(copy_text(&c.role_name))));
    f.push((chars_of("role_emoji"), Json::Str(copy_text(&c.role_emoji))));
    proof {
        reveal_strlit("role_name");
        reveal_strlit("role_emoji");
        assert(f@[0].0@ == "role_name"@);
        assert(f@[1].0@ == "role_emoji"@);
        assert(obj_lookup(f@, "role_name"@) == Some(f@[0].1));
        assert(f@.drop_first()[0] == f@[1]);
        assert(obj_lookup(f@.drop_first(), "role_emoji"@) == Some(f@[1].1));
        assert(obj_lookup(f@, "role_emoji"@) == Some(f@[1].1));
    }
    Json::Obj(f)
}

/// A text array: every element a string.
pub open spec fn str_arr_shape(j: Json) -> bool {
    j matches Json::Arr(items) && forall|i: int|
        0 <= i < items@.len() ==> (#[trigger] items@[i]) matches Json::Str(_)
}

/// The texts a text array carries, in order.
pub open spec fn str_arr_of(j: Json, v: Seq<Vec<char>>) -> bool {
    j matches Json::Arr(items) && v.len() == items@.len() && forall|i: int|
        0 <= i < items@.len() ==> ((#[trigger] items@[i]) matches Json::Str(s) && v[i]@ == s@)
}

/// Read a text array.
fn str_arr_from_json(j: &Json) -> (r: Option<Vec<Vec<char>>>)
    ensures
        match r {
            Some(v) => str_arr_shape(*j) && str_arr_of(*j, v@),
            None => !str_arr_shape(*j),
        },
{
    match j {
        Json::Arr(items) => {
            let mut v: Vec<Vec<char>> = Vec::new();
            let mut i: usize = 0;
            while i < items.len()
                invariant
                    *j == Json::Arr(*items),
                    i <= items@.len(),
                    v@.len() == i,
                    forall|k: int|
                        0 <= k < i ==> ((#[trigger] items@[k]) matches Json::Str(s) && v@[k]@
                            == s@),
                decreases items@.len() - i,
            {
                match &items[i] {
                    Json::Str(s) => {
                        v.push(copy_text(s));
                    },
                    _ => {
                        proof {
                            assert((*j)->Arr_0 == *items);
                            assert(!((((*j)->Arr_0)@[i as int]) matches Json::Str(_)));
                        }
                        return None;
                    },
                }
                i = i + 1;
            }
            proof {
                assert((*j)->Arr_0 == *items);
                assert forall|k: int|
                    0 <= k < ((*j)->Arr_0)@.len() implies ((#[trigger] ((*j)->Arr_0)@[k]) matches
                    Json::Str(_)) by {
                    assert(v@[k]@ == v@[k]@);
                    assert(items@[k] matches Json::Str(s) && v@[k]@ == s@);
                }
                assert(str_arr_shape(*j));
            }
            Some(v)
        },
        _ => None,
    }
}

/// One catalogue role: a name, an emoji, and its nicknames.
pub open spec fn role_entry_shape(j: Json) -> bool {
    j matches Json::Obj(f) && has_str_field(f@, "name"@) && has_str_field(f@, "emoji"@) && (
    obj_lookup(f@, "nicks"@) matches Some(n) && str_arr_shape(n))
}

/// The role a catalogue object carries.
pub open spec fn role_entry_of(j: Json, e: RoleEntry) -> bool {
    j matches Json::Obj(f) && str_field(f@, "name"@, e.name@) && str_field(f@, "emoji"@, e.emoji@)
        && (obj_lookup(f@, "nicks"@) matches Some(n) && str_arr_of(n, e.nicks@))
}

/// Read one catalogue role.
fn role_entry_from_json(j: &Json) -> (r: Option<RoleEntry>)
    ensures
        match r {
            Some(e) => role_entry_shape(*j) && role_entry_of(*j, e),
            None => !role_entry_shape(*j),
        },
{
    match j {
        Json::Obj(f) => {
            let name = match get_str_field(f, &chars_of("name")) {
                Some(s) => s,
                None => {
                    return None;
                },
            };
            let emoji = match get_str_field(f, &chars_of("emoji")) {
                Some(s) => s,
                None => {
                    return None;
                },
            };
            let nicks = match obj_get(f, &chars_of("nicks")) {
                Some(i) => {
                    match str_arr_from_json(&f[i].1) {
                        Some(v) => v,
                        None => {
                            return None;
                        },
                    }
                },
                None => {
                    return None;
                },
            };
            Some(RoleEntry { name, emoji, nicks })
        },
        _ => None,
    }
}

/// The role catalogue: an array of roles.
pub open spec fn roles_doc_shape(j: Json) -> bool {
    j matches Json::Arr(items) && forall|i: int|
        0 <= i < items@.len() ==> role_entry_shape(#[trigger] items@[i])
}

/// The roles the catalogue carries, in order.
pub open spec fn roles_doc_of(j: Json, roles: Seq<RoleEntry>) -> bool {
    j matches Json::Arr(items) && roles.len() == items@.len() && forall|i: int|
        0 <= i < items@.len() ==> role_entry_of(#[trigger] items@[i], roles[i])
}

/// Read the role catalogue.
pub fn roles_doc_from_json(j: &Json) -> (r: Option<Vec<RoleEntry>>)
    ensures
        match r {
            Some(roles) => roles_doc_shape(*j) && roles_doc_of(*j, roles@),
            None => !roles_doc_shape(*j),
        },
{
    match j {
        Json::Arr(items) => {
            let mut roles: Vec<RoleEntry> = Vec::new();
            let mut i: usize = 0;
            while i < items.len()
                invariant
                    *j == Json::Arr(*items),
                    i <= items@.len(),
                    roles@.len() == i,
                    forall|k: int| 0 <= k < i ==> role_entry_of(#[trigger] items@[k], roles@[k]),
                decreases items@.len() - i,
            {
                match role_entry_from_json(&items[i]) {
                    Some(e) => {
                        roles.push(e);
                    },
                    None => {
                        proof {
                            assert((*j)->Arr_0 == *items);
                            assert(!role_entry_shape(((*j)->Arr_0)@[i as int]));
                        }
                        return None;
                    },
                }
                i = i + 1;
            }
            proof {
                assert((*j)->Arr_0 == *items);
                assert forall|k: int|
                    0 <= k < ((*j)->Arr_0)@.len() implies role_entry_shape(
                    #[trigger] ((*j)->Arr_0)@[k],
                ) by {
                    assert(role_entry_of(items@[k], roles@[k]));
                }
                assert(roles_doc_shape(*j));
            }
            Some(roles)
        },
        _ => None,
    }
}

/// One roster player: a name, a handle, and a score in 32-bit range.
pub open spec fn player_shape(j: Json) -> bool {
    j matches Json::Obj(f) && has_str_field(f@, "name"@) && has_str_field(f@, "user"@) && (
    obj_lookup(f@, "points"@) matches Some(Json::Int(p)) && i32::MIN <= p <= i32::MAX)
}

/// The player a roster object carries.
pub open spec fn player_of(j: Json, pl: Player) -> bool {
    j matches Json::Obj(f) && str_field(f@, "name"@, pl.name@) && str_field(f@, "user"@, pl.user@)
        && (obj_lookup(f@, "points"@) matches Some(Json::Int(p)) && pl.points as int == p as int)
}

/// Read one roster player.
fn player_from_json(j: &Json) -> (r: Option<Player>)
    ensures
        match r {
            Some(pl) => player_shape(*j) && player_of(*j, pl),
            None => !player_shape(*j),
        },
{
    match j {
        Json::Obj(f) => {
            let name = match get_str_field(f, &chars_of("name")) {
                Some(s) => s,
                None => {
                    return None;
                },
            };
            let user = match get_str_field(f, &chars_of("user")) {
                Some(s) => s,
                None => {
                    return None;
                },
            };
            let points = match obj_get(f, &chars_of("points")) {
                Some(i) => {
                    match &f[i].1 {
                        Json::Int(p) => {
                            if *p < i32::MIN as i64 || *p > i32::MAX as i64 {
                                return None;
                            }
                            *p as i32
                        },
                        _ => {
                            return None;
                        },
                    }
                },
                None => {
                    return None;
                },
            };
            Some(Player { name, user, points })
        },
        _ => None,
    }
}

/// A team roster: an array of players.
pub open spec fn team_doc_shape(j: Json) -> bool {
    j matches Json::Arr(items) && forall|i: int|
        0 <= i < items@.len() ==> player_shape(#[trigger] items@[i])
}

/// The players the roster carries, in order.
pub open spec fn team_doc_of(j: Json, ps: Seq<Player>) -> bool {
    j matches Json::Arr(items) && ps.len() == items@.len() && forall|i: int|
        0 <= i < items@.len() ==> player_of(#[trigger] items@[i], ps[i])
}

/// Read a team roster.
pub fn team_doc_from_json(j: &Json) -> (r: Option<Vec<Player>>)
    ensures
        match r {
            Some(ps) => team_doc_shape(*j) && team_doc_of(*j, ps@),
            None => !team_doc_shape(*j),
        },
{
    match j {
        Json::Arr(items) => {
            let mut ps: Vec<Player> = Vec::new();
            let mut i: usize = 0;
            while i < items.len()
                invariant
                    *j == Json::Arr(*items),
                    i <= items@.len(),
                    ps@.len() == i,
                    forall|k: int| 0 <= k < i ==> player_of(#[trigger] items@[k], ps@[k]),
                decreases items@.len() - i,
            {
                match player_from_json(&items[i]) {
                    Some(pl) => {
                        ps.push(pl);
                    },
                    None => {
                        proof {
                            assert((*j)->Arr_0 == *items);
                            assert(!player_shape(((*j)->Arr_0)@[i as int]));
                        }
                        return None;
                    },
                }
                i = i + 1;
            }
            proof {
                assert((*j)->Arr_0 == *items);
                assert forall|k: int|
                    0 <= k < ((*j)->Arr_0)@.len() implies player_shape(
                    #[trigger] ((*j)->Arr_0)@[k],
                ) by {
                    assert(player_of(items@[k], ps@[k]));
                }
                assert(team_doc_shape(*j));
            }
            Some(ps)
        },
        _ => None,
    }
}

/// One scheduled game: four texts and the participating teams.
pub open spec fn game_shape(j: Json) -> bool {
    j matches Json::Obj(f) && has_str_field(f@, "date"@) && has_str_field(f@, "time"@)
        && has_str_field(f@, "day_of_week"@) && has_str_field(f@, "phase"@) && (obj_lookup(
        f@,
        "teams"@,
    ) matches Some(n) && str_arr_shape(n))
}

/// The game a schedule object carries.
pub open spec fn game_of(j: Json, g: Game) -> bool {
    j matches Json::Obj(f) && str_field(f@, "date"@, g.date@) && str_field(f@, "time"@, g.time@)
        && str_field(f@, "day_of_week"@, g.day_of_week@) && str_field(f@, "phase"@, g.phase@) && (
    obj_lookup(f@, "teams"@) matches Some(n) && str_arr_of(n, g.teams@))
}

/// Read one scheduled game.
fn game_from_json(j: &Json) -> (r: Option<Game>)
    ensures
        match r {
            Some(g) => game_shape(*j) && game_of(*j, g),
            None => !game_shape(*j),
        },
{
    match j {
        Json::Obj(f) => {
            let date = match get_str_field(f, &chars_of("date")) {
                Some(s) => s,
                None => {
                    return None;
                },
            };
            let time = match get_str_field(f, &chars_of("time")) {
                Some(s) => s,
                None => {
                    return None;
                },
            };
            let day_of_week = match get_str_field(f, &chars_of("day_of_week")) {
                Some(s) => s,
                None => {
                    return None;
                },
            };
            let phase = match get_str_field(f, &chars_of("phase")) {
                Some(s) => s,
                None => {
                    return None;
                },
            };
            let teams = match obj_get(f, &chars_of("teams")) {
                Some(i) => {
                    match str_arr_from_json(&f[i].1) {
                        Some(v) => v,
                        None => {
                            return None;
                        },
                    }
                },
                None => {
                    return None;
                },
            };
            Some(Game { date, time, day_of_week, teams, phase })
        },
        _ => None,
    }
}

/// The schedule: an array of games.
pub open spec fn calendar_doc_shape(j: Json) -> bool {
    j matches Json::Arr(items) && forall|i: int|
        0 <= i < items@.len() ==> game_shape(#[trigger] items@[i])
}

/// The games the schedule carries, in order.
pub open spec fn calendar_doc_of(j: Json, gs: Seq<Game>) -> bool {
    j matches Json::Arr(items) && gs.len() == items@.len() && forall|i: int|
        0 <= i < items@.len() ==> game_of(#[trigger] items@[i], gs[i])
}

/// Read the schedule.
pub fn calendar_doc_from_json(j: &Json) -> (r: Option<Vec<Game>>)
    ensures
        match r {
            Some(gs) => calendar_doc_shape(*j) && calendar_doc_of(*j, gs@),
            None => !calendar_doc_shape(*j),
        },
{
    match j {
        Json::Arr(items) => {
            let mut gs: Vec<Game> = Vec::new();
            let mut i: usize = 0;
            while i < items.len()
                invariant
                    *j == Json::Arr(*items),
                    i <= items@.len(),
                    gs@.len() == i,
                    forall|k: int| 0 <= k < i ==> game_of(#[trigger] items@[k], gs@[k]),
                decreases items@.len() - i,
            {
                match game_from_json(&items[i]) {
                    Some(g) => {
                        gs.push(g);
                    },
                    None => {
                        proof {
                            assert((*j)->Arr_0 == *items);
                            assert(!game_shape(((*j)->Arr_0)@[i as int]));
                        }
                        return None;
                    },
                }
                i = i + 1;
            }
            proof {
                assert((*j)->Arr_0 == *items);
                assert forall|k: int|
                    0 <= k < ((*j)->Arr_0)@.len() implies game_shape(
                    #[trigger] ((*j)->Arr_0)@[k],
                ) by {
                    assert(game_of(items@[k], gs@[k]));
                }
                assert(calendar_doc_shape(*j));
            }
            Some(gs)
        },
        _ => None,
    }
}

/// One crew member: a handle, a display name, and a membership flag.
pub open spec fn member_shape(j: Json) -> bool {
    j matches Json::Obj(f) && has_str_field(f@, "username"@) && has_str_field(f@, "first_name"@)
        && (obj_lookup(f@, "is_crewmember"@) matches Some(Json::Bool(_)))
}

/// The member a roster object carries.
pub open spec fn member_of(j: Json, m: CrewMember) -> bool {
    j matches Json::Obj(f) && str_field(f@, "username"@, m.username@) && str_field(
        f@,
        "first_name"@,
        m.first_name@,
    ) && obj_lookup(f@, "is_crewmember"@) == Some(Json::Bool(m.is_crewmember))
}

/// Read one crew member.
fn member_from_json(j: &Json) -> (r: Option<CrewMember>)
    ensures
        match r {
            Some(m) => member_shape(*j) && member_of(*j, m),
            None => !member_shape(*j),
        },
{
    match j {
        Json::Obj(f) => {
            let username = match get_str_field(f, &chars_of("username")) {
                Some(s) => s,
                None => {
                    return None;
                },
            };
            let first_name = match get_str_field(f, &chars_of("first_name")) {
                Some(s) => s,
                None => {
                    return None;
                },
            };
            let is_crewmember = match obj_get(f, &chars_of("is_crewmember")) {
                Some(i) => {
                    match &f[i].1 {
                        Json::Bool(b) => *b,
                        _ => {
                            return None;
                        },
                    }
                },
                None => {
                    return None;
                },
            };
            Some(CrewMember { username, first_name, is_crewmember })
        },
        _ => None,
    }
}

/// A member group: an array of members.
pub open spec fn members_shape(j: Json) -> bool {
    j matches Json::Arr(items) && forall|i: int|
        0 <= i < items@.len() ==> member_shape(#[trigger] items@[i])
}

/// The members a group carries, in order.
pub open spec fn members_of(j: Json, ms: Seq<CrewMember>) -> bool {
    j matches Json::Arr(items) && ms.len() == items@.len() && forall|i: int|
        0 <= i < items@.len() ==> member_of(#[trigger] items@[i], ms[i])
}

/// Read one member group.
fn members_from_json(j: &Json) -> (r: Option<Vec<CrewMember>>)
    ensures
        match r {
            Some(ms) => members_shape(*j) && members_of(*j, ms@),
            None => !members_shape(*j),
        },
{
    match j {
        Json::Arr(items) => {
            let mut ms: Vec<CrewMember> = Vec::new();
            let mut i: usize = 0;
            while i < items.len()
                invariant
                    *j == Json::Arr(*items),
                    i <= items@.len(),
                    ms@.len() == i,
                    forall|k: int| 0 <= k < i ==> member_of(#[trigger] items@[k], ms@[k]),
                decreases items@.len() - i,
            {
                match member_from_json(&items[i]) {
                    Some(m) => {
                        ms.push(m);
                    },
                    None => {
                        proof {
                            assert((*j)->Arr_0 == *items);
                            assert(!member_shape(((*j)->Arr_0)@[i as int]));
                        }
                        return None;
                    },
                }
                i = i + 1;
            }
            proof {
                assert((*j)->Arr_0 == *items);
                assert forall|k: int|
                    0 <= k < ((*j)->Arr_0)@.len() implies member_shape(
                    #[trigger] ((*j)->Arr_0)@[k],
                ) by {
                    assert(member_of(items@[k], ms@[k]));
                }
                assert(members_shape(*j));
            }
            Some(ms)
        },
        _ => None,
    }
}

/// The crew roster: its five ordered groups, the sub-leader group keyed
/// with the hyphen the file uses.
pub open spec fn crew_doc_shape(j: Json) -> bool {
    j matches Json::Obj(f) && (obj_lookup(f@, "captain"@) matches Some(g1) && members_shape(g1))
        && (obj_lookup(f@, "leader"@) matches Some(g2) && members_shape(g2)) && (obj_lookup(
        f@,
        "sub-leader"@,
    ) matches Some(g3) && members_shape(g3)) && (obj_lookup(f@, "crew"@) matches Some(g4)
        && members_shape(g4)) && (obj_lookup(f@, "subs"@) matches Some(g5) && members_shape(g5))
}

/// The roster a crew object carries.
pub open spec fn crew_doc_of(j: Json, c: Crew) -> bool {
    j matches Json::Obj(f) && (obj_lookup(f@, "captain"@) matches Some(g1) && members_of(
        g1,
        c.captain@,
    )) && (obj_lookup(f@, "leader"@) matches Some(g2) && members_of(g2, c.leader@)) && (obj_lookup(
        f@,
        "sub-leader"@,
    ) matches Some(g3) && members_of(g3, c.sub_leader@)) && (obj_lookup(f@, "crew"@) matches Some(
        g4,
    ) && members_of(g4, c.crew@)) && (obj_lookup(f@, "subs"@) matches Some(g5) && members_of(
        g5,
        c.subs@,
    ))
}

/// Read the crew roster.
pub fn crew_doc_from_json(j: &Json) -> (r: Option<Crew>)
    ensures
        match r {
            Some(c) => crew_doc_shape(*j) && crew_doc_of(*j, c),
            None => !crew_doc_shape(*j),
        },
{
    match j {
        Json::Obj(f) => {
            let captain = match obj_get(f, &chars_of("captain")) {
                Some(i) => {
                    match members_from_json(&f[i].1) {
                        Some(v) => v,
                        None => {
                            return None;
                        },
                    }
                },
                None => {
                    return None;
                },
            };
            let leader = match obj_get(f, &chars_of("leader")) {
                Some(i) => {
                    match members_from_json(&f[i].1) {
                        Some(v) => v,
                        None => {
                            return None;
                        },
                    }
                },
                None => {
                    return None;
                },
            };
            let sub_leader = match obj_get(f, &chars_of("sub-leader")) {
                Some(i) => {
                    match members_from_json(&f[i].1) {
                        Some(v) => v,
                        None => {
                            return None;
                        },
                    }
                },
                None => {
                    return None;
                },
            };
            let crew = match obj_get(f, &chars_of("crew")) {
                Some(i) => {
                    match members_from_json(&f[i].1) {
                        Some(v) => v,
                        None => {
                            return None;
                        },
                    }
                },
                None => {
                    return None;
                },
            };
            let subs = match obj_get(f, &chars_of("subs")) {
                Some(i) => {
                    match members_from_json(&f[i].1) {
                        Some(v) => v,
                        None => {
                            return None;
                        },
                    }
                },
                None => {
                    return None;
                },
            };
            Some(Crew { captain, leader, sub_leader, crew, subs })
        },
        _ => None,
    }
}

/// Render one member as a roster object.
fn member_to_json(m: &CrewMember) -> (r: Json)
    ensures
        member_shape(r),
        member_of(r, *m),
{
    let mut f: Vec<(Vec<char>, Json)> = Vec::new();
    f.push((chars_of("username"), Json::Str(copy_text(&m.username))));
    f.push((chars_of("first_name"), Json::Str(copy_text(&m.first_name))));
    f.push((chars_of("is_crewmember"), Json::Bool(m.is_crewmember)));
    proof {
        reveal_strlit("username");
        reveal_strlit("first_name");
        reveal_strlit("is_crewmember");
        assert(f@[0].0@ == "username"@);
        assert(f@[1].0@ == "first_name"@);
        assert(f@[2].0@ == "is_crewmember"@);
        lemma_obj_lookup_at(f@, "username"@, 0);
        lemma_obj_lookup_at(f@, "first_name"@, 1);
        lemma_obj_lookup_at(f@, "is_crewmember"@, 2);
    }
    Json::Obj(f)
}

/// Render one member group.
fn members_to_json(ms: &Vec<CrewMember>) -> (r: Json)
    ensures
        members_shape(r),
        members_of(r, ms@),
{
    let mut items: Vec<Json> = Vec::new();
    let mut i: usize = 0;
    while i < ms.len()
        invariant
            i <= ms@.len(),
            items@.len() == i,
            forall|k: int|
                0 <= k < i ==> member_shape(#[trigger] items@[k]) && member_of(
                    items@[k],
                    ms@[k],
                ),
        decreases ms@.len() - i,
    {
        items.push(member_to_json(&ms[i]));
        i = i + 1;
    }
    Json::Arr(items)
}

/// Render the crew roster.
pub fn crew_doc_to_json(c: &Crew) -> (r: Json)
    ensures
        crew_doc_shape(r),
        crew_doc_of(r, *c),
{
    let mut f: Vec<(Vec<char>, Json)> = Vec::new();
    f.push((chars_of("captain"), members_to_json(&c.captain)));
    f.push((chars_of("leader"), members_to_json(&c.leader)));
    f.push((chars_of("sub-leader"), members_to_json(&c.sub_leader)));
    f.push((chars_of("crew"), members_to_json(&c.crew)));
    f.push((chars_of("subs"), members_to_json(&c.subs)));
    proof {
        reveal_strlit("captain");
        reveal_strlit("leader");
        reveal_strlit("sub-leader");
        reveal_strlit("crew");
        reveal_strlit("subs");
        assert(f@[0].0@ == "captain"@);
        assert(f@[1].0@ == "leader"@);
        assert(f@[2].0@ == "sub-leader"@);
        assert(f@[3].0@ == "crew"@);
        assert(f@[4].0@ == "subs"@);
        assert("crew"@[0] == 'c' && "subs"@[0] == 's');
        assert("crew"@ != "subs"@);
        lemma_obj_lookup_at(f@, "captain"@, 0);
        lemma_obj_lookup_at(f@, "leader"@, 1);
        lemma_obj_lookup_at(f@, "sub-leader"@, 2);
        lemma_obj_lookup_at(f@, "crew"@, 3);
        lemma_obj_lookup_at(f@, "subs"@, 4);
    }
    Json::Obj(f)
}

/// Render the claims document: one field per claim, in stored order.
pub fn claims_doc_to_json(d: &ClaimsDoc) -> (r: Json)
    ensures
        claims_doc_shape(r),
        r matches Json::Obj(fields) && fields@.len() == d.entries@.len() && forall|i: int|
            0 <= i < d.entries@.len() ==> (#[trigger] fields@[i]).0@ == d.entries@[i].0@
                && claim_of(fields@[i].1, d.entries@[i].1),
{
    let mut fields: Vec<(Vec<char>, Json)> = Vec::new();
    let mut i: usize = 0;
    while i < d.entries.len()
        invariant
            i <= d.entries@.len(),
            fields@.len() == i,
            forall|k: int|
                0 <= k < i ==> (#[trigger] fields@[k]).0@ == d.entries@[k].0@ && claim_shape(
                    fields@[k].1,
                ) && claim_of(fields@[k].1, d.entries@[k].1),
        decreases d.entries@.len() - i,
    {
        fields.push((copy_text(&d.entries[i].0), claim_to_json(&d.entries[i].1)));
        i = i + 1;
    }
    Json::Obj(fields)
}

/// Fields that carry a claims document's entries, name for name and claim
/// for claim, describe exactly that document's map: rendering the claims
/// and reading them back keeps every claim, whatever order the fields
/// take.
pub proof fn lemma_claims_fields_map(
    fields: Seq<(Vec<char>, Json)>,
    entries: Seq<(Vec<char>, Claim)>,
)
    requires
        fields.len() == entries.len(),
        forall|i: int|
            0 <= i < entries.len() ==> (#[trigger] fields[i]).0@ == entries[i].0@ && claim_of(
                fields[i].1,
                entries[i].1,
            ),
    ensures
        claims_json_map(fields) == map_of(entries),
    decreases fields.len(),
{
    if fields.len() == 0 {
        assert(claims_json_map(fields) =~= map_of(entries));
    } else {
        let n = fields.len() - 1;
        assert forall|i: int|
            0 <= i < entries.drop_last().len() implies (#[trigger] fields.drop_last()[i]).0@
            == entries.drop_last()[i].0@ && claim_of(
            fields.drop_last()[i].1,
            entries.drop_last()[i].1,
        ) by {
            assert(fields.drop_last()[i] == fields[i]);
            assert(entries.drop_last()[i] == entries[i]);
        }
        lemma_claims_fields_map(fields.drop_last(), entries.drop_last());
        assert(fields[n].0@ == entries[n].0@);
        assert(claim_of(fields[n].1, entries[n].1));
        assert(fields.last() == fields[n]);
        assert(entries.last() == entries[n]);
        assert(claims_json_map(fields) =~= map_of(entries));
    }
}

} // verus!
