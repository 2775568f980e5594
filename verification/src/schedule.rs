//! The game schedule: filtering by the tracked team and picking the next
//! game.
//!
//! A game's date is a `day/month` pair, one or two digits each, anchored
//! to one fixed, non-leap year: dates carry no year of their own and are
//! ordered by month, then day. Behaviour for a schedule spanning several
//! years is deliberately out of scope.

use vstd::prelude::*;

verus! {

use crate::docs::Game;

/// A calendar date within the schedule's fixed year.
#[derive(Clone, Copy, Debug, PartialEq, Eq, Structural)]
pub struct Date {
    pub day: u8,
    pub month: u8,
}

/// Days of each month in the schedule's fixed, non-leap year.
pub open spec fn days_in_month(m: int) -> int {
    if m == 2 {
        28
    } else if m == 4 || m == 6 || m == 9 || m == 11 {
        30
    } else {
        31
    }
}

/// `a` is on or before `b`.
pub open spec fn date_le(a: Date, b: Date) -> bool {
    a.month < b.month || (a.month == b.month && a.day <= b.day)
}

/// `a` is strictly before `b`.
pub open spec fn date_lt(a: Date, b: Date) -> bool {
    a.month < b.month || (a.month == b.month && a.day < b.day)
}

/// A decimal digit.
pub open spec fn is_digit(c: char) -> bool {
    '0' <= c && c <= '9'
}

/// The value of a decimal digit.
pub open spec fn digit_val(c: char) -> int {
    c as int - '0' as int
}

/// A day and month, both in range for the fixed year.
pub open spec fn check_date(day: int, month: int) -> Option<Date> {
    if 1 <= month <= 12 && 1 <= day <= days_in_month(month) {
        Some(Date { day: day as u8, month: month as u8 })
    } else {
        None
    }
}

/// The date written `day/month`, each one or two digits, if the text has
/// that shape and both parts are in range.
pub open spec fn parse_date_spec(s: Seq<char>) -> Option<Date> {
    if s.len() == 3 && is_digit(s[0]) && s[1] == '/' && is_digit(s[2]) {
        check_date(digit_val(s[0]), digit_val(s[2]))
    } else if s.len() == 4 && is_digit(s[0]) && s[1] == '/' && is_digit(s[2]) && is_digit(s[3]) {
        check_date(digit_val(s[0]), 10 * digit_val(s[2]) + digit_val(s[3]))
    } else if s.len() == 4 && is_digit(s[0]) && is_digit(s[1]) && s[2] == '/' && is_digit(s[3]) {
        check_date(10 * digit_val(s[0]) + digit_val(s[1]), digit_val(s[3]))
    } else if s.len() == 5 && is_digit(s[0]) && is_digit(s[1]) && s[2] == '/' && is_digit(s[3])
        && is_digit(s[4]) {
        check_date(10 * digit_val(s[0]) + digit_val(s[1]), 10 * digit_val(s[3]) + digit_val(s[4]))
    } else {
        None
    }
}

/// The date of a game's `date` field.
pub open spec fn game_date(g: Game) -> Option<Date> {
    parse_date_spec(g.date@)
}

/// Whether the game lists this team identifier among its participants.
pub open spec fn involves(g: Game, marker: Seq<char>) -> bool {
    exists|i: int| 0 <= i < g.teams@.len() && (#[trigger] g.teams@[i])@ == marker
}

/// The game's date parses and is on or after `today`.
pub open spec fn upcoming(g: Game, today: Date) -> bool {
    game_date(g) matches Some(d) && date_le(today, d)
}

/// Days of one month, as a runtime value.
pub fn days_in_month_exec(m: u8) -> (r: u8)
    ensures
        r as int == days_in_month(m as int),
{
    if m == 2 {
        28
    } else if m == 4 || m == 6 || m == 9 || m == 11 {
        30
    } else {
        31
    }
}

/// Whether `c` is a decimal digit.
pub fn digit_char(c: char) -> (r: bool)
    ensures
        r == is_digit(c),
{
    c >= '0' && c <= '9'
}

/// The value of a digit character.
fn digit_val_exec(c: char) -> (r: u8)
    requires
        is_digit(c),
    ensures
        r as int == digit_val(c),
{
    (c as u32 - '0' as u32) as u8
}

/// A day and month checked against the fixed year's calendar.
fn check_date_exec(day: u8, month: u8) -> (r: Option<Date>)
    ensures
        r == check_date(day as int, month as int),
{
    if 1 <= month && month <= 12 && 1 <= day && day <= days_in_month_exec(month) {
        Some(Date { day, month })
    } else {
        None
    }
}

/// Parse a `day/month` date.
pub fn parse_date(s: &Vec<char>) -> (r: Option<Date>)
    ensures
        r == parse_date_spec(s@),
{
    if s.len() == 3 && digit_char(s[0]) && s[1] == '/' && digit_char(s[2]) {
        check_date_exec(digit_val_exec(s[0]), digit_val_exec(s[2]))
    } else if s.len() == 4 && digit_char(s[0]) && s[1] == '/' && digit_char(s[2]) && digit_char(
        s[3],
    ) {
        check_date_exec(digit_val_exec(s[0]), 10 * digit_val_exec(s[2]) + digit_val_exec(s[3]))
    } else if s.len() == 4 && digit_char(s[0]) && digit_char(s[1]) && s[2] == '/' && digit_char(
        s[3],
    ) {
        check_date_exec(10 * digit_val_exec(s[0]) + digit_val_exec(s[1]), digit_val_exec(s[3]))
    } else if s.len() == 5 && digit_char(s[0]) && digit_char(s[1]) && s[2] == '/' && digit_char(
        s[3],
    ) && digit_char(s[4]) {
        check_date_exec(
            10 * digit_val_exec(s[0]) + digit_val_exec(s[1]),
            10 * digit_val_exec(s[3]) + digit_val_exec(s[4]),
        )
    } else {
        None
    }
}

/// `a` is on or before `b`, as a runtime test.
pub fn date_le_exec(a: Date, b: Date) -> (r: bool)
    ensures
        r == date_le(a, b),
{
    a.month < b.month || (a.month == b.month && a.day <= b.day)
}

/// Whether the game lists this team identifier.
pub fn game_involves(g: &Game, marker: &Vec<char>) -> (r: bool)
    ensures
        r == involves(*g, marker@),
{
    let mut i: usize = 0;
    while i < g.teams.len()
        invariant
            i <= g.teams@.len(),
            forall|k: int| 0 <= k < i ==> (#[trigger] g.teams@[k])@ != marker@,
        decreases g.teams@.len() - i,
    {
        if crate::text::text_eq(&g.teams[i], marker) {
            return true;
        }
        i = i + 1;
    }
    false
}

/// What the next-game scan decides.
pub enum NextGameSel {
    /// The position of the next game of the tracked team.
    Found(usize),
    /// Every game of the tracked team is before today.
    NoneUpcoming,
    /// The position of the first tracked-team game whose date does not
    /// parse; the request fails on it, as the lookup treats a malformed
    /// date as fatal rather than skipping the game.
    BadDate(usize),
}

/// Position `i` holds the next game: a tracked, upcoming game, no upcoming
/// tracked game has an earlier date, and of those sharing its date it is
/// the first.
pub open spec fn is_next_game(games: Seq<Game>, marker: Seq<char>, today: Date, i: int) -> bool {
    &&& 0 <= i < games.len()
    &&& involves(games[i], marker)
    &&& upcoming(games[i], today)
    &&& forall|j: int|
        0 <= j < games.len() && involves(#[trigger] games[j], marker) && upcoming(games[j], today)
            ==> date_le(game_date(games[i])->Some_0, game_date(games[j])->Some_0)
    &&& forall|j: int|
        0 <= j < i && involves(#[trigger] games[j], marker) && upcoming(games[j], today)
            ==> date_lt(game_date(games[i])->Some_0, game_date(games[j])->Some_0)
}

/// Scan the schedule for the tracked team's next game on or after `today`.
pub fn next_game(games: &Vec<Game>, marker: &Vec<char>, today: Date) -> (r: NextGameSel)
    ensures
        match r {
            NextGameSel::Found(i) => is_next_game(games@, marker@, today, i as int) && forall|j: int|
                0 <= j < games@.len() && involves(#[trigger] games@[j], marker@) ==> game_date(
                    games@[j],
                ) is Some,
            NextGameSel::NoneUpcoming => forall|j: int|
                0 <= j < games@.len() && involves(#[trigger] games@[j], marker@) ==> game_date(
                    games@[j],
                ) is Some && !upcoming(games@[j], today),
            NextGameSel::BadDate(k) => k < games@.len() && involves(games@[k as int], marker@)
                && game_date(games@[k as int]) is None && forall|j: int|
                0 <= j < k && involves(#[trigger] games@[j], marker@) ==> game_date(
                    games@[j],
                ) is Some,
        },
{
    let mut best: Option<(usize, Date)> = None;
    let mut i: usize = 0;
    while i < games.len()
        invariant
            i <= games@.len(),
            forall|j: int|
                0 <= j < i && involves(#[trigger] games@[j], marker@) ==> game_date(
                    games@[j],
                ) is Some,
            match best {
                Some((b, d)) => {
                    &&& b < i
                    &&& involves(games@[b as int], marker@)
                    &&& upcoming(games@[b as int], today)
                    &&& game_date(games@[b as int]) == Some(d)
                    &&& forall|j: int|
                        0 <= j < i && involves(#[trigger] games@[j], marker@) && upcoming(
                            games@[j],
                            today,
                        ) ==> date_le(d, game_date(games@[j])->Some_0)
                    &&& forall|j: int|
                        0 <= j < b && involves(#[trigger] games@[j], marker@) && upcoming(
                            games@[j],
                            today,
                        ) ==> date_lt(d, game_date(games@[j])->Some_0)
                },
                None => forall|j: int|
                    0 <= j < i && involves(#[trigger] games@[j], marker@) ==> !upcoming(
                        games@[j],
                        today,
                    ),
            },
        decreases games@.len() - i,
    {
        if game_involves(&games[i], marker) {
            match parse_date(&games[i].date) {
                None => {
                    return NextGameSel::BadDate(i);
                },
                Some(d) => {
                    if date_le_exec(today, d) {
                        match best {
                            None => {
                                best = Some((i, d));
                            },
                            Some((_b, bd)) => {
                                if !date_le_exec(bd, d) {
                                    best = Some((i, d));
                                }
                            },
                        }
                    }
                },
            }
        }
        i = i + 1;
    }
    match best {
        Some((b, _d)) => NextGameSel::Found(b),
        None => NextGameSel::NoneUpcoming,
    }
}

} // verus!
