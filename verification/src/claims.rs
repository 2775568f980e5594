//! Role claims: matching a free-text nickname against the role catalogue,
//! and the claims document that binds claimant names to claimed roles.
//!
//! The claims document is an association list with pairwise-distinct keys;
//! its meaning is the finite map `as_map()`. A claimant holds at most one
//! claim, and a later claim by the same claimant overwrites the earlier
//! one.

use vstd::prelude::*;

verus! {

use crate::docs::{Claim, RoleEntry};

/// The code point of `c` with an ASCII capital folded to its small letter.
pub open spec fn fold_char(c: char) -> int {
    if 'A' <= c && c <= 'Z' {
        c as int + 32
    } else {
        c as int
    }
}

/// Equality of two texts up to ASCII case.
pub open spec fn eq_ignore_case(a: Seq<char>, b: Seq<char>) -> bool {
    a.len() == b.len() && forall|i: int| 0 <= i < a.len() ==> fold_char(a[i]) == fold_char(b[i])
}

/// Whether the nickname claims this catalogue entry.
pub open spec fn role_matches(e: RoleEntry, nick: Seq<char>) -> bool {
    exists|i: int| 0 <= i < e.nicks@.len() && eq_ignore_case((#[trigger] e.nicks@[i])@, nick)
}

/// The folded code point of one character.
pub fn fold_char_exec(c: char) -> (r: u32)
    ensures
        r as int == fold_char(c),
{
    if c >= 'A' && c <= 'Z' {
        c as u32 + 32
    } else {
        c as u32
    }
}

/// Equality up to ASCII case, decided character by character.
pub fn text_eq_ignore_case(a: &Vec<char>, b: &Vec<char>) -> (r: bool)
    ensures
        r == eq_ignore_case(a@, b@),
{
    if a.len() != b.len() {
        return false;
    }
    let mut i: usize = 0;
    while i < a.len()
        invariant
            i <= a.len(),
            a.len() == b.len(),
            forall|k: int| 0 <= k < i ==> fold_char(a@[k]) == fold_char(b@[k]),
        decreases a.len() - i,
    {
        if fold_char_exec(a[i]) != fold_char_exec(b[i]) {
            return false;
        }
        i = i + 1;
    }
    true
}

/// The first catalogue entry one of whose nicknames equals `nick` up to
/// ASCII case.
pub fn find_role(roles: &Vec<RoleEntry>, nick: &Vec<char>) -> (r: Option<usize>)
    ensures
        match r {
            Some(i) => i < roles@.len() && role_matches(roles@[i as int], nick@) && forall|j: int|
                0 <= j < i ==> !role_matches(#[trigger] roles@[j], nick@),
            None => forall|j: int|
                0 <= j < roles@.len() ==> !role_matches(#[trigger] roles@[j], nick@),
        },
{
    let mut i: usize = 0;
    while i < roles.len()
        invariant
            i <= roles@.len(),
            forall|j: int| 0 <= j < i ==> !role_matches(#[trigger] roles@[j], nick@),
        decreases roles@.len() - i,
    {
        let entry = &roles[i];
        let mut k: usize = 0;
        while k < entry.nicks.len()
            invariant
                i < roles@.len(),
                k <= entry.nicks@.len(),
                entry == roles@[i as int],
                forall|j: int| 0 <= j < i ==> !role_matches(#[trigger] roles@[j], nick@),
                forall|m: int| 0 <= m < k ==> !eq_ignore_case((#[trigger] entry.nicks@[m])@, nick@),
            decreases entry.nicks@.len() - k,
        {
            if text_eq_ignore_case(&entry.nicks[k], nick) {
                proof {
                    assert(eq_ignore_case((roles@[i as int].nicks@[k as int])@, nick@));
                    assert(role_matches(roles@[i as int], nick@));
                }
                return Some(i);
            }
            k = k + 1;
        }
        assert(!role_matches(roles@[i as int], nick@));
        i = i + 1;
    }
    None
}

/// The claims document: claimant name to claimed role, keys pairwise
/// distinct.
pub struct ClaimsDoc {
    pub entries: Vec<(Vec<char>, Claim)>,
}

/// The map described by an association list, later entries overriding
/// earlier ones.
pub open spec fn map_of(entries: Seq<(Vec<char>, Claim)>) -> Map<Seq<char>, (Seq<char>, Seq<char>)>
    decreases entries.len(),
{
    if entries.len() == 0 {
        Map::empty()
    } else {
        map_of(entries.drop_last()).insert(
            entries.last().0@,
            (entries.last().1.role_name@, entries.last().1.role_emoji@),
        )
    }
}

impl ClaimsDoc {
    /// Keys are pairwise distinct.
    pub open spec fn wf(&self) -> bool {
        forall|i: int, j: int|
            0 <= i < j < self.entries@.len() ==> (#[trigger] self.entries@[i]).0@ != (
            #[trigger] self.entries@[j]).0@
    }

    /// The claims as a map from claimant name to (role name, role emoji).
    pub open spec fn as_map(&self) -> Map<Seq<char>, (Seq<char>, Seq<char>)> {
        map_of(self.entries@)
    }
}

/// Membership in `map_of` is membership among the keys.
proof fn lemma_map_of_dom(entries: Seq<(Vec<char>, Claim)>, k: Seq<char>)
    ensures
        map_of(entries).dom().contains(k) <==> exists|i: int|
            0 <= i < entries.len() && (#[trigger] entries[i]).0@ == k,
    decreases entries.len(),
{
    if entries.len() > 0 {
        lemma_map_of_dom(entries.drop_last(), k);
        if entries.last().0@ == k {
            assert(entries[entries.len() - 1].0@ == k);
        } else if map_of(entries).dom().contains(k) {
            let i = choose|i: int| 0 <= i < entries.len() - 1 && (#[trigger] entries.drop_last()[i]).0@ == k;
            assert(entries[i].0@ == k);
        } else {
            assert forall|i: int| 0 <= i < entries.len() implies (#[trigger] entries[i]).0@ != k by {
                if i < entries.len() - 1 {
                    assert(entries.drop_last()[i].0@ == entries[i].0@);
                }
            }
        }
    }
}

/// With pairwise-distinct keys, the entry at `i` gives the map's value at
/// its key.
proof fn lemma_map_of_at(entries: Seq<(Vec<char>, Claim)>, i: int)
    requires
        0 <= i < entries.len(),
        forall|a: int, b: int|
            0 <= a < b < entries.len() ==> (#[trigger] entries[a]).0@ != (#[trigger] entries[b]).0@,
    ensures
        map_of(entries).dom().contains(entries[i].0@),
        map_of(entries)[entries[i].0@] == (entries[i].1.role_name@, entries[i].1.role_emoji@),
    decreases entries.len(),
{
    if i == entries.len() - 1 {
    } else {
        assert forall|a: int, b: int|
            0 <= a < b < entries.drop_last().len() implies (#[trigger] entries.drop_last()[a]).0@
            != (#[trigger] entries.drop_last()[b]).0@ by {
            assert(entries.drop_last()[a].0@ == entries[a].0@);
            assert(entries.drop_last()[b].0@ == entries[b].0@);
        }
        lemma_map_of_at(entries.drop_last(), i);
        assert(entries.drop_last()[i].0@ == entries[i].0@);
        assert(entries[i].0@ != entries.last().0@);
    }
}

/// A claims document with no claims.
pub fn empty_claims() -> (r: ClaimsDoc)
    ensures
        r.wf(),
        r.as_map() == Map::<Seq<char>, (Seq<char>, Seq<char>)>::empty(),
        r.entries@.len() == 0,
{
    ClaimsDoc { entries: Vec::new() }
}

/// The position of the claim held by `name`, if any; in a well-formed
/// document it is the claim the map holds for that name.
pub fn find_claim(doc: &ClaimsDoc, name: &Vec<char>) -> (r: Option<usize>)
    ensures
        match r {
            Some(i) => i < doc.entries@.len() && doc.entries@[i as int].0@ == name@ && (doc.wf()
                ==> doc.as_map().dom().contains(name@) && doc.as_map()[name@] == (
            doc.entries@[i as int].1.role_name@,
            doc.entries@[i as int].1.role_emoji@,
            )),
            None => !doc.as_map().dom().contains(name@),
        },
{
    proof {
        lemma_map_of_dom(doc.entries@, name@);
    }
    let mut i: usize = 0;
    while i < doc.entries.len()
        invariant
            i <= doc.entries@.len(),
            forall|k: int| 0 <= k < i ==> (#[trigger] doc.entries@[k]).0@ != name@,
        decreases doc.entries@.len() - i,
    {
        if crate::text::text_eq(&doc.entries[i].0, name) {
            proof {
                if doc.wf() {
                    lemma_map_of_at(doc.entries@, i as int);
                }
            }
            return Some(i);
        }
        i = i + 1;
    }
    None
}

/// Record a claim: the claimant's earlier claim, if any, is overwritten.
pub fn insert_claim(doc: &mut ClaimsDoc, name: Vec<char>, claim: Claim)
    requires
        old(doc).wf(),
    ensures
        final(doc).wf(),
        final(doc).as_map() == old(doc).as_map().insert(
            name@,
            (claim.role_name@, claim.role_emoji@),
        ),
{
    proof {
        lemma_map_of_dom(doc.entries@, name@);
    }
    let found = find_claim(doc, &name);
    match found {
        Some(i) => {
            let ghost entries0 = doc.entries@;
            doc.entries.set(i, (name, claim));
            proof {
                lemma_map_of_update(entries0, i as int, doc.entries@[i as int]);
            }
        },
        None => {
            doc.entries.push((name, claim));
            proof {
                assert(doc.entries@.drop_last() =~= old(doc).entries@);
                assert forall|a: int, b: int|
                    0 <= a < b < doc.entries@.len() implies (#[trigger] doc.entries@[a]).0@ != (
                #[trigger] doc.entries@[b]).0@ by {
                    if b == doc.entries@.len() - 1 {
                        assert(old(doc).entries@[a].0@ == doc.entries@[a].0@);
                    }
                }
            }
        },
    }
}

/// Updating the entry at `i` updates the map at the old key's place,
/// provided keys are pairwise distinct and the key written is the key
/// replaced or nowhere else present.
proof fn lemma_map_of_update(entries: Seq<(Vec<char>, Claim)>, i: int, e: (Vec<char>, Claim))
    requires
        0 <= i < entries.len(),
        forall|a: int, b: int|
            0 <= a < b < entries.len() ==> (#[trigger] entries[a]).0@ != (#[trigger] entries[b]).0@,
        e.0@ == entries[i].0@,
    ensures
        map_of(entries.update(i, e)) == map_of(entries).insert(
            e.0@,
            (e.1.role_name@, e.1.role_emoji@),
        ),
    decreases entries.len(),
{
    let updated = entries.update(i, e);
    if i == entries.len() - 1 {
        assert(updated.drop_last() =~= entries.drop_last());
        assert(map_of(updated) =~= map_of(entries).insert(e.0@, (e.1.role_name@, e.1.role_emoji@)));
    } else {
        assert forall|a: int, b: int|
            0 <= a < b < entries.drop_last().len() implies (#[trigger] entries.drop_last()[a]).0@
            != (#[trigger] entries.drop_last()[b]).0@ by {
            assert(entries.drop_last()[a].0@ == entries[a].0@);
            assert(entries.drop_last()[b].0@ == entries[b].0@);
        }
        lemma_map_of_update(entries.drop_last(), i, e);
        assert(updated.drop_last() =~= entries.drop_last().update(i, e));
        assert(updated.last() == entries.last());
        assert(entries[i].0@ != entries.last().0@);
        assert(map_of(updated) =~= map_of(entries).insert(e.0@, (e.1.role_name@, e.1.role_emoji@)));
    }
}

/// A later claim by the same claimant overwrites the earlier one: storing
/// a second claim under the same name leaves exactly the second.
pub proof fn lemma_later_claim_overwrites(
    m: Map<Seq<char>, (Seq<char>, Seq<char>)>,
    name: Seq<char>,
    first: (Seq<char>, Seq<char>),
    second: (Seq<char>, Seq<char>),
)
    ensures
        m.insert(name, first).insert(name, second) == m.insert(name, second),
{
    assert(m.insert(name, first).insert(name, second) =~= m.insert(name, second));
}

} // verus!
