//! Crew roster changes for newly joined members.
//!
//! A new member is appended to the `subs` group, once per joined user,
//! with the membership flag set; the other four groups are untouched.
//! An absent or malformed roster never fails the join: it is treated as
//! empty, so the record is still appended — the write then recreates the
//! file — and the welcome is sent regardless.

use vstd::prelude::*;

verus! {

use crate::docs::{Crew, CrewMember};

/// Append one record for the joined user to the `subs` group.
pub fn join_crew(crew: &mut Crew, username: Option<Vec<char>>, first_name: &Vec<char>)
    ensures
        final(crew).subs@.len() == old(crew).subs@.len() + 1,
        final(crew).subs@.drop_last() == old(crew).subs@,
        final(crew).subs@.last().username@ == match username {
            Some(u) => u@,
            None => Seq::<char>::empty(),
        },
        final(crew).subs@.last().first_name@ == first_name@,
        final(crew).subs@.last().is_crewmember,
        final(crew).captain@ == old(crew).captain@,
        final(crew).leader@ == old(crew).leader@,
        final(crew).sub_leader@ == old(crew).sub_leader@,
        final(crew).crew@ == old(crew).crew@,
{
    let uname = match username {
        Some(u) => u,
        None => Vec::new(),
    };
    let member = CrewMember {
        username: uname,
        first_name: crate::text::subtext(first_name, 0, first_name.len()),
        is_crewmember: true,
    };
    crew.subs.push(member);
    proof {
        assert(crew.subs@.drop_last() =~= old(crew).subs@);
        assert(first_name@.subrange(0, first_name@.len() as int) =~= first_name@);
    }
}

/// The roster to write for one joined user: the read roster — or, when it
/// could not be read, an empty one — with exactly one record for the user
/// appended to `subs`. The welcome reply does not depend on this result.
pub fn plan_join(roster: Option<Crew>, username: Option<Vec<char>>, first_name: &Vec<char>) -> (r:
    Crew)
    ensures
        r.subs@.last().username@ == match username {
            Some(u) => u@,
            None => Seq::<char>::empty(),
        },
        r.subs@.last().first_name@ == first_name@,
        r.subs@.last().is_crewmember,
        match roster {
            Some(c) => {
                &&& r.subs@.len() == c.subs@.len() + 1
                &&& r.subs@.drop_last() == c.subs@
                &&& r.captain@ == c.captain@
                &&& r.leader@ == c.leader@
                &&& r.sub_leader@ == c.sub_leader@
                &&& r.crew@ == c.crew@
            },
            None => {
                &&& r.subs@.len() == 1
                &&& r.captain@ == Seq::<CrewMember>::empty()
                &&& r.leader@ == Seq::<CrewMember>::empty()
                &&& r.sub_leader@ == Seq::<CrewMember>::empty()
                &&& r.crew@ == Seq::<CrewMember>::empty()
            },
        },
{
    let mut c = match roster {
        Some(c) => c,
        None => Crew {
            captain: Vec::new(),
            leader: Vec::new(),
            sub_leader: Vec::new(),
            crew: Vec::new(),
            subs: Vec::new(),
        },
    };
    join_crew(&mut c, username, first_name);
    c
}

} // verus!
