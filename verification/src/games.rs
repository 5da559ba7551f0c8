//! The unsupported-game table and the executable-name screening.
//!
//! A recording start is rejected when the foreground executable's base
//! name — everything before the first `.`, compared with ASCII letters
//! folded to lower case — exactly matches one of a table entry's binary
//! names.  The table is static configuration, loaded once and never
//! mutated.

use vstd::prelude::*;
use vstd::string::StrSliceExecFns;

verus! {

/// One game for which recordings are not accepted: a display name, the
/// lower-cased extension-stripped binary names it runs under, and the
/// reason shown to the operator on rejection.
pub struct UnsupportedGame {
    pub name: String,
    pub binaries: Vec<String>,
    pub reason: String,
}

/// Builds one table entry.
pub fn ug(name: &str, binaries: Vec<String>, reason: &str) -> (g: UnsupportedGame)
    ensures
        g.name@ == name@,
        g.binaries == binaries,
        g.reason@ == reason@,
{
    UnsupportedGame { name: name.to_owned(), binaries, reason: reason.to_owned() }
}

/// Index of the first `.` in `s`, or `s.len()` if there is none: the
/// characters before it form the executable's base name.
pub open spec fn first_dot(s: Seq<char>) -> int
    decreases s.len(),
{
    if s.len() == 0 {
        0
    } else if s[0] == '.' {
        0
    } else {
        1 + first_dot(s.drop_first())
    }
}

/// The executable's base name: everything before the first `.`.
pub open spec fn base_of(s: Seq<char>) -> Seq<char> {
    s.take(first_dot(s))
}

/// `d` is `c` with an ASCII capital letter folded to lower case and any
/// other character kept as it is.
pub open spec fn char_folds_to(c: char, d: char) -> bool {
    if 65 <= c as int <= 90 {
        d as int == c as int + 32
    } else {
        d == c
    }
}

/// `b` is `a` folded to ASCII lower case, character for character.
pub open spec fn chars_match_folded(a: Seq<char>, b: Seq<char>) -> bool {
    a.len() == b.len() && forall|i: int| 0 <= i < a.len() ==> char_folds_to(a[i], b[i])
}

/// The table matches entry `g` for an executable named `exe` when the
/// folded base name of `exe` equals one of the entry's binary names.
pub open spec fn entry_matches(g: UnsupportedGame, exe: Seq<char>) -> bool {
    exists|k: int|
        0 <= k < g.binaries@.len() && chars_match_folded(base_of(exe), g.binaries@[k]@)
}

/// `first_dot(s)` is the unique index bounded by `s.len()` that either
/// sits on a `.` or at the end, with no `.` before it.
proof fn lemma_first_dot_at(s: Seq<char>, i: int)
    requires
        0 <= i <= s.len(),
        forall|j: int| 0 <= j < i ==> s[j] != '.',
        i == s.len() || s[i] == '.',
    ensures
        first_dot(s) == i,
    decreases s.len(),
{
    if s.len() == 0 {
    } else if s[0] == '.' {
    } else {
        assert(forall|j: int| 0 <= j < i - 1 ==> s.drop_first()[j] == s[j + 1]);
        lemma_first_dot_at(s.drop_first(), i - 1);
    }
}

/// Number of characters before the first `.` of `exe`.
fn base_len(exe: &str) -> (n: usize)
    ensures
        n == first_dot(exe@),
        n <= exe@.len(),
{
    let ulen = exe.unicode_len();
    let mut n: usize = 0;
    while n < ulen && exe.get_char(n) != '.'
        invariant
            0 <= n <= ulen == exe@.len(),
            forall|j: int| 0 <= j < n ==> exe@[j] != '.',
        decreases ulen - n,
    {
        n = n + 1;
    }
    proof {
        lemma_first_dot_at(exe@, n as int);
    }
    n
}

/// Whether `binary` equals the extension-stripped, ASCII-lower-cased
/// base name of `exe`.
pub fn matches_folded(exe: &str, binary: &str) -> (r: bool)
    ensures
        r == chars_match_folded(base_of(exe@), binary@),
{
    let base = base_len(exe);
    if binary.unicode_len() != base {
        return false;
    }
    let mut i: usize = 0;
    while i < base
        invariant
            0 <= i <= base == first_dot(exe@) <= exe@.len(),
            binary@.len() == base,
            forall|j: int| 0 <= j < i ==> char_folds_to(base_of(exe@)[j], binary@[j]),
        decreases base - i,
    {
        let e = exe.get_char(i) as u32;
        let b = binary.get_char(i) as u32;
        let same = if 65 <= e && e <= 90 {
            e + 32 == b
        } else {
            e == b
        };
        if !same {
            assert(!char_folds_to(base_of(exe@)[i as int], binary@[i as int]));
            return false;
        }
        assert(char_folds_to(base_of(exe@)[i as int], binary@[i as int]));
        i = i + 1;
    }
    true
}

/// Index of the first table entry matching the executable named `exe`,
/// or `None` when no entry does.
pub fn find_unsupported_game(games: &Vec<UnsupportedGame>, exe: &str) -> (r: Option<usize>)
    ensures
        match r {
            Some(i) => 0 <= i < games@.len() && entry_matches(games@[i as int], exe@) && forall|
                j: int,
            | 0 <= j < i ==> !entry_matches(games@[j], exe@),
            None => forall|j: int| 0 <= j < games@.len() ==> !entry_matches(games@[j], exe@),
        },
{
    let mut i: usize = 0;
    while i < games.len()
        invariant
            0 <= i <= games@.len(),
            forall|j: int| 0 <= j < i ==> !entry_matches(games@[j], exe@),
        decreases games@.len() - i,
    {
        let g = &games[i];
        let mut k: usize = 0;
        while k < g.binaries.len()
            invariant
                0 <= i < games@.len(),
                0 <= k <= g.binaries@.len(),
                g == games@[i as int],
                forall|j: int| 0 <= j < i ==> !entry_matches(games@[j], exe@),
                forall|m: int|
                    0 <= m < k ==> !chars_match_folded(base_of(exe@), g.binaries@[m]@),
            decreases g.binaries@.len() - k,
        {
            if matches_folded(exe, g.binaries[k].as_str()) {
                assert(entry_matches(games@[i as int], exe@)) by {
                    assert(chars_match_folded(base_of(exe@), games@[i as int].binaries@[k as int]@));
                }
                return Some(i);
            }
            k = k + 1;
        }
        assert(!entry_matches(games@[i as int], exe@));
        i = i + 1;
    }
    None
}

/// Rejection reason shared by the games the dataset already covers.
pub const ENOUGH_DATA_REASON: &'static str = "We have enough data for now.";

/// One binary name as a table cell.
fn bins1(a: &str) -> (r: Vec<String>)
    ensures
        r@.len() == 1,
        r@[0]@ == a@,
{
    let mut v: Vec<String> = Vec::new();
    v.push(a.to_owned());
    v
}

/// Two binary names as a table cell.
fn bins2(a: &str, b: &str) -> (r: Vec<String>)
    ensures
        r@.len() == 2,
        r@[0]@ == a@,
        r@[1]@ == b@,
{
    let mut v: Vec<String> = Vec::new();
    v.push(a.to_owned());
    v.push(b.to_owned());
    v
}

/// One entry has the given display name, reason, and exactly the given
/// binary names.
pub open spec fn entry_is(
    g: UnsupportedGame,
    name: Seq<char>,
    binaries: Seq<Seq<char>>,
    reason: Seq<char>,
) -> bool {
    &&& g.name@ == name
    &&& g.reason@ == reason
    &&& g.binaries@.len() == binaries.len()
    &&& forall|k: int| 0 <= k < binaries.len() ==> (#[trigger] g.binaries@[k])@ == binaries[k]
}

/// The static unsupported-game table.
pub fn unsupported_games() -> (r: Vec<UnsupportedGame>)
    ensures
        r@.len() == 13,
        entry_is(r@[0], "Minecraft"@, seq!["minecraft"@], ENOUGH_DATA_REASON@),
        entry_is(r@[1], "Valorant"@, seq!["valorant-win64-shipping"@], ENOUGH_DATA_REASON@),
        entry_is(r@[2], "Counter-Strike: Source"@, seq!["cstrike"@], ENOUGH_DATA_REASON@),
        entry_is(r@[3], "Counter-Strike 2"@, seq!["cs2"@], ENOUGH_DATA_REASON@),
        entry_is(
            r@[4],
            "Fortnite"@,
            seq!["fortniteclient-win64-shipping"@],
            ENOUGH_DATA_REASON@,
        ),
        entry_is(r@[5], "Overwatch 2"@, seq!["overwatch"@], ENOUGH_DATA_REASON@),
        entry_is(r@[6], "Team Fortress 2"@, seq!["tf"@, "tf_win64"@], ENOUGH_DATA_REASON@),
        entry_is(r@[7], "Apex Legends"@, seq!["r5apex"@], ENOUGH_DATA_REASON@),
        entry_is(r@[8], "Rainbow Six Siege"@, seq!["rainbowsix"@], ENOUGH_DATA_REASON@),
        entry_is(r@[9], "Squad"@, seq!["squad"@], ENOUGH_DATA_REASON@),
        entry_is(r@[10], "Hell Let Loose"@, seq!["hll-win64-shipping"@], ENOUGH_DATA_REASON@),
        entry_is(
            r@[11],
            "Roblox"@,
            seq!["robloxstudiobeta"@, "robloxplayerbeta"@],
            "Recorded footage is all-black."@,
        ),
        entry_is(
            r@[12],
            "Split Fiction"@,
            seq!["splitfiction"@],
            "Split-screen games are unsupported."@,
        ),
{
    let mut games: Vec<UnsupportedGame> = Vec::new();
    games.push(ug("Minecraft", bins1("minecraft"), ENOUGH_DATA_REASON));
    games.push(ug("Valorant", bins1("valorant-win64-shipping"), ENOUGH_DATA_REASON));
    games.push(ug("Counter-Strike: Source", bins1("cstrike"), ENOUGH_DATA_REASON));
    games.push(ug("Counter-Strike 2", bins1("cs2"), ENOUGH_DATA_REASON));
    games.push(ug("Fortnite", bins1("fortniteclient-win64-shipping"), ENOUGH_DATA_REASON));
    games.push(ug("Overwatch 2", bins1("overwatch"), ENOUGH_DATA_REASON));
    games.push(ug("Team Fortress 2", bins2("tf", "tf_win64"), ENOUGH_DATA_REASON));
    games.push(ug("Apex Legends", bins1("r5apex"), ENOUGH_DATA_REASON));
    games.push(ug("Rainbow Six Siege", bins1("rainbowsix"), ENOUGH_DATA_REASON));
    games.push(ug("Squad", bins1("squad"), ENOUGH_DATA_REASON));
    games.push(ug("Hell Let Loose", bins1("hll-win64-shipping"), ENOUGH_DATA_REASON));
    games.push(
        ug(
            "Roblox",
            bins2("robloxstudiobeta", "robloxplayerbeta"),
            "Recorded footage is all-black.",
        ),
    );
    games.push(ug("Split Fiction", bins1("splitfiction"), "Split-screen games are unsupported."));
    games
}

} // verus!
