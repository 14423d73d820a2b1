//! The persistence contract: the save record is plain text, one decimal
//! unsigned integer per line, newline-terminated, in the order wave,
//! score, lives. Reading it back is total: a short or non-numeric record
//! is a recoverable error, never a crash.

use vstd::prelude::*;

use crate::components::count_enemies;
use crate::player::player_entity;
use crate::state::{session_survivors, GameState};
use crate::world::World;

verus! {

/// The line terminator.
pub const NL: u8 = 10;

/// The values a save record carries.
#[derive(Clone, Copy, Debug, PartialEq, Eq, Structural)]
pub struct SaveData {
    pub wave: u32,
    pub score: u32,
    pub lives: u32,
}

/// Why a save record could not be read.
#[derive(Clone, Copy, Debug, PartialEq, Eq, Structural)]
pub enum LoadError {
    /// The record has fewer than three lines.
    TooFewLines,
    /// A field is not a decimal number within range.
    NonNumeric,
}

/// The decimal digits of `n`, most significant first.
pub open spec fn dec_rep(n: nat) -> Seq<u8>
    decreases n,
{
    if n < 10 {
        seq![(48 + n) as u8]
    } else {
        dec_rep(n / 10) + seq![(48 + n % 10) as u8]
    }
}

/// Render a number as decimal digits.
pub fn u32_to_dec(n: u32) -> (r: Vec<u8>)
    ensures
        r@ == dec_rep(n as nat),
    decreases n,
{
    if n < 10 {
        let mut v: Vec<u8> = Vec::new();
        v.push(48 + n as u8);
        proof {
            assert(v@ =~= dec_rep(n as nat));
        }
        v
    } else {
        let mut v = u32_to_dec(n / 10);
        v.push(48 + (n % 10) as u8);
        proof {
            assert(v@ =~= dec_rep(n as nat));
        }
        v
    }
}

/// Whether a byte is a decimal digit.
pub open spec fn is_digit(b: u8) -> bool {
    48 <= b <= 57
}

/// Whether every byte of the line is a decimal digit.
pub open spec fn all_digits(s: Seq<u8>) -> bool {
    forall|i: int| 0 <= i < s.len() ==> is_digit(#[trigger] s[i])
}

/// The number a digit line denotes.
pub open spec fn dec_val(s: Seq<u8>) -> int
    decreases s.len(),
{
    if s.len() == 0 {
        0
    } else {
        dec_val(s.drop_last()) * 10 + (s.last() as int - 48)
    }
}

/// Rendering a number and reading the digits back is the identity, and a
/// rendered number is always a nonempty digit line.
pub proof fn lemma_dec_roundtrip(n: nat)
    ensures
        all_digits(dec_rep(n)),
        dec_rep(n).len() >= 1,
        dec_val(dec_rep(n)) == n,
    decreases n,
{
    if n < 10 {
        let s = seq![(48 + n) as u8];
        assert(dec_rep(n) == s);
        assert(s.drop_last() =~= Seq::<u8>::empty());
        assert(dec_val(s) == dec_val(Seq::<u8>::empty()) * 10 + (s.last() as int - 48));
    } else {
        lemma_dec_roundtrip(n / 10);
        assert(dec_rep(n).drop_last() =~= dec_rep(n / 10));
        assert(dec_rep(n).last() == (48 + n % 10) as u8);
        assert(dec_val(dec_rep(n)) == (n / 10) * 10 + (n % 10));
        assert(n / 10 * 10 + n % 10 == n) by {
            vstd::arithmetic::div_mod::lemma_fundamental_div_mod(n as int, 10);
        }
    }
}

/// What a digit line parses to: its value, if the line is nonempty, all
/// digits, and within range.
pub open spec fn parses_to_u32(s: Seq<u8>) -> Option<u32> {
    if s.len() >= 1 && all_digits(s) && dec_val(s) <= u32::MAX as int {
        Some(dec_val(s) as u32)
    } else {
        None
    }
}

proof fn lemma_dec_val_nonneg(s: Seq<u8>)
    requires
        all_digits(s),
    ensures
        dec_val(s) >= 0,
    decreases s.len(),
{
    if s.len() > 0 {
        lemma_dec_val_nonneg(s.drop_last());
    }
}

/// Parse a line as a decimal `u32`; `None` on an empty line, a non-digit
/// byte, or a value out of range.
pub fn parse_u32(s: &Vec<u8>) -> (r: Option<u32>)
    ensures
        r == parses_to_u32(s@),
{
    let n = s.len();
    if n == 0 {
        return None;
    }
    let mut acc: u32 = 0;
    let mut overflow: bool = false;
    let mut i: usize = 0;
    while i < n
        invariant
            n == s@.len(),
            0 <= i <= n,
            all_digits(s@.take(i as int)),
            !overflow ==> acc as int == dec_val(s@.take(i as int)),
            overflow ==> dec_val(s@.take(i as int)) > u32::MAX as int,
        decreases n - i,
    {
        let b = s[i];
        proof {
            assert(s@.take(i + 1).drop_last() =~= s@.take(i as int));
            assert(s@.take(i + 1).last() == s@[i as int]);
        }
        if b < 48 || b > 57 {
            proof {
                assert(!is_digit(s@[i as int]));
            }
            return None;
        }
        let d = b - 48;
        if !overflow {
            let wide: u64 = acc as u64 * 10 + d as u64;
            if wide > u32::MAX as u64 {
                overflow = true;
            } else {
                acc = wide as u32;
            }
        } else {
            proof {
                lemma_dec_val_nonneg(s@.take(i as int));
            }
        }
        i = i + 1;
    }
    proof {
        assert(s@.take(n as int) =~= s@);
    }
    if overflow {
        None
    } else {
        Some(acc)
    }
}

/// The position of the next line terminator at or after `p`, or the end.
pub open spec fn line_end(s: Seq<u8>, p: int) -> int
    decreases s.len() - p,
{
    if p < 0 || p >= s.len() {
        s.len() as int
    } else if s[p] == NL {
        p
    } else {
        line_end(s, p + 1)
    }
}

/// The scan for a terminator never runs backwards.
pub proof fn lemma_line_end_bounds(s: Seq<u8>, p: int)
    requires
        0 <= p <= s.len(),
    ensures
        p <= line_end(s, p) <= s.len(),
    decreases s.len() - p,
{
    if p < s.len() && s[p] != NL {
        lemma_line_end_bounds(s, p + 1);
    }
}

/// The lines of the record from position `p` on: each line runs to the
/// next terminator or the end; the final terminator closes the last line.
pub open spec fn split_from(s: Seq<u8>, p: int) -> Seq<Seq<u8>>
    decreases s.len() + 1 - p,
    via split_from_decreases
{
    if p < 0 || p >= s.len() {
        Seq::empty()
    } else {
        seq![s.subrange(p, line_end(s, p))] + split_from(s, line_end(s, p) + 1)
    }
}

#[via_fn]
proof fn split_from_decreases(s: Seq<u8>, p: int) {
    if !(p < 0 || p >= s.len()) {
        lemma_line_end_bounds(s, p);
    }
}

/// What a whole record parses to: fewer than three lines is a short
/// record; otherwise the first three lines must each be a decimal number,
/// checked in order, and give wave, score and lives.
pub open spec fn parse_save_spec(s: Seq<u8>) -> Result<SaveData, LoadError> {
    let ls = split_from(s, 0);
    if ls.len() < 3 {
        Err(LoadError::TooFewLines)
    } else if parses_to_u32(ls[0]) is None {
        Err(LoadError::NonNumeric)
    } else if parses_to_u32(ls[1]) is None {
        Err(LoadError::NonNumeric)
    } else if parses_to_u32(ls[2]) is None {
        Err(LoadError::NonNumeric)
    } else {
        Ok(
            SaveData {
                wave: parses_to_u32(ls[0]).unwrap(),
                score: parses_to_u32(ls[1]).unwrap(),
                lives: parses_to_u32(ls[2]).unwrap(),
            },
        )
    }
}

/// Find the end of the line that starts at `p`.
fn next_line_end(s: &Vec<u8>, p: usize) -> (e: usize)
    requires
        p <= s@.len(),
    ensures
        e as int == line_end(s@, p as int),
        p <= e <= s@.len(),
{
    let n = s.len();
    let mut j: usize = p;
    while j < n
        invariant
            n == s@.len(),
            p <= j <= n,
            line_end(s@, p as int) == line_end(s@, j as int),
        decreases n - j,
    {
        if s[j] == NL {
            return j;
        }
        j = j + 1;
    }
    n
}

/// Copy the bytes of `s` in `[a, b)`.
fn copy_range(s: &Vec<u8>, a: usize, b: usize) -> (r: Vec<u8>)
    requires
        a <= b <= s@.len(),
    ensures
        r@ == s@.subrange(a as int, b as int),
{
    let mut r: Vec<u8> = Vec::new();
    let mut i: usize = a;
    while i < b
        invariant
            a <= i <= b <= s@.len(),
            r@ == s@.subrange(a as int, i as int),
        decreases b - i,
    {
        r.push(s[i]);
        proof {
            assert(s@.subrange(a as int, i + 1) =~= s@.subrange(a as int, i as int).push(
                s@[i as int],
            ));
        }
        i = i + 1;
    }
    r
}

/// Parse a save record: three newline-terminated decimal lines giving
/// wave, score and lives. A record with fewer than three lines, or whose
/// first three lines are not decimal numbers in range, is rejected with
/// the matching error.
pub fn parse_save(s: &Vec<u8>) -> (r: Result<SaveData, LoadError>)
    ensures
        r == parse_save_spec(s@),
{
    let n = s.len();
    let p0: usize = 0;
    if p0 >= n {
        return Err(LoadError::TooFewLines);
    }
    let e0 = next_line_end(s, p0);
    let l0 = copy_range(s, p0, e0);
    if e0 >= n {
        proof {
            assert(split_from(s@, 0).len() == 1 + split_from(s@, e0 + 1).len());
        }
        return Err(LoadError::TooFewLines);
    }
    let p1 = e0 + 1;
    if p1 >= n {
        proof {
            assert(split_from(s@, 0).len() == 1 + split_from(s@, p1 as int).len());
        }
        return Err(LoadError::TooFewLines);
    }
    let e1 = next_line_end(s, p1);
    let l1 = copy_range(s, p1, e1);
    if e1 >= n {
        proof {
            assert(split_from(s@, 0).len() == 2 + split_from(s@, e1 + 1).len());
        }
        return Err(LoadError::TooFewLines);
    }
    let p2 = e1 + 1;
    if p2 >= n {
        proof {
            assert(split_from(s@, 0).len() == 2 + split_from(s@, p2 as int).len());
        }
        return Err(LoadError::TooFewLines);
    }
    let e2 = next_line_end(s, p2);
    let l2 = copy_range(s, p2, e2);
    proof {
        assert(split_from(s@, 0).len() >= 3);
        assert(split_from(s@, 0)[0] == l0@);
        assert(split_from(s@, 0)[1] == l1@);
        assert(split_from(s@, 0)[2] == l2@);
    }
    let wave = match parse_u32(&l0) {
        Some(x) => x,
        None => {
            return Err(LoadError::NonNumeric);
        },
    };
    let score = match parse_u32(&l1) {
        Some(x) => x,
        None => {
            return Err(LoadError::NonNumeric);
        },
    };
    let lives = match parse_u32(&l2) {
        Some(x) => x,
        None => {
            return Err(LoadError::NonNumeric);
        },
    };
    Ok(SaveData { wave, score, lives })
}

/// The text of a save record.
pub open spec fn save_rep(wave: u32, score: u32, lives: u32) -> Seq<u8> {
    dec_rep(wave as nat) + seq![NL] + dec_rep(score as nat) + seq![NL] + dec_rep(lives as nat)
        + seq![NL]
}

/// Render the save record for the current session: wave, score and lives,
/// one decimal per line, newline-terminated.
pub fn save_record(w: &World) -> (v: Vec<u8>)
    ensures
        v@ == save_rep(w.wave, w.score, w.player.lives),
{
    let mut v = u32_to_dec(w.wave);
    v.push(NL);
    let mut t = u32_to_dec(w.score);
    v.append(&mut t);
    v.push(NL);
    let mut t2 = u32_to_dec(w.player.lives);
    v.append(&mut t2);
    v.push(NL);
    proof {
        assert(v@ =~= save_rep(w.wave, w.score, w.player.lives));
    }
    v
}

/// A terminator scan over a terminator-free span ends at its close.
proof fn lemma_line_end_scan(s: Seq<u8>, p: int, e: int)
    requires
        0 <= p <= e <= s.len(),
        forall|i: int| p <= i < e ==> s[i] != NL,
        e == s.len() || s[e] == NL,
    ensures
        line_end(s, p) == e,
    decreases e - p,
{
    if p < e {
        lemma_line_end_scan(s, p + 1, e);
    }
}

/// Splitting a record of three terminator-free lines yields those lines.
proof fn lemma_split_record(a: Seq<u8>, b: Seq<u8>, c: Seq<u8>)
    requires
        forall|i: int| 0 <= i < a.len() ==> (#[trigger] a[i]) != NL,
        forall|i: int| 0 <= i < b.len() ==> (#[trigger] b[i]) != NL,
        forall|i: int| 0 <= i < c.len() ==> (#[trigger] c[i]) != NL,
    ensures
        split_from(a + seq![NL] + b + seq![NL] + c + seq![NL], 0) =~~= seq![a, b, c],
{
    let s = a + seq![NL] + b + seq![NL] + c + seq![NL];
    let al = a.len() as int;
    let bl = b.len() as int;
    let cl = c.len() as int;
    assert(s.len() == al + bl + cl + 3);
    assert forall|i: int| 0 <= i < al implies s[i] != NL by {
        assert(s[i] == a[i]);
    }
    assert(s[al] == NL);
    lemma_line_end_scan(s, 0, al);
    assert(s.subrange(0, al) =~= a);
    let p1 = al + 1;
    assert forall|i: int| p1 <= i < p1 + bl implies s[i] != NL by {
        assert(s[i] == b[i - p1]);
    }
    assert(s[p1 + bl] == NL);
    lemma_line_end_scan(s, p1, p1 + bl);
    assert(s.subrange(p1, p1 + bl) =~= b);
    let p2 = p1 + bl + 1;
    assert forall|i: int| p2 <= i < p2 + cl implies s[i] != NL by {
        assert(s[i] == c[i - p2]);
    }
    assert(s[p2 + cl] == NL);
    lemma_line_end_scan(s, p2, p2 + cl);
    assert(s.subrange(p2, p2 + cl) =~= c);
    let p3 = p2 + cl + 1;
    assert(p3 == s.len());
    assert(split_from(s, p3) =~= Seq::<Seq<u8>>::empty());
    assert(split_from(s, 0) == seq![s.subrange(0, al)] + split_from(s, al + 1));
    assert(split_from(s, p1) == seq![s.subrange(p1, p1 + bl)] + split_from(s, p2));
    assert(split_from(s, p2) == seq![s.subrange(p2, p2 + cl)] + split_from(s, p3));
    assert(split_from(s, 0) =~~= seq![a, b, c]);
}

/// Saving a session and loading the record back restores the same wave,
/// score and lives.
pub proof fn lemma_save_round_trip(wave: u32, score: u32, lives: u32)
    ensures
        parse_save_spec(save_rep(wave, score, lives)) == Ok::<SaveData, LoadError>(SaveData { wave, score, lives }),
{
    lemma_dec_roundtrip(wave as nat);
    lemma_dec_roundtrip(score as nat);
    lemma_dec_roundtrip(lives as nat);
    let a = dec_rep(wave as nat);
    let b = dec_rep(score as nat);
    let c = dec_rep(lives as nat);
    assert forall|i: int| 0 <= i < a.len() implies (#[trigger] a[i]) != NL by {
        assert(is_digit(a[i]));
    }
    assert forall|i: int| 0 <= i < b.len() implies (#[trigger] b[i]) != NL by {
        assert(is_digit(b[i]));
    }
    assert forall|i: int| 0 <= i < c.len() implies (#[trigger] c[i]) != NL by {
        assert(is_digit(c[i]));
    }
    lemma_split_record(a, b, c);
    assert(save_rep(wave, score, lives) =~= a + seq![NL] + b + seq![NL] + c + seq![NL]);
    let ls = split_from(save_rep(wave, score, lives), 0);
    assert(ls[0] == a && ls[1] == b && ls[2] == c);
    assert(parses_to_u32(a) == Some(wave));
    assert(parses_to_u32(b) == Some(score));
    assert(parses_to_u32(c) == Some(lives));
}

/// Leave the save state for the pause menu. The shell writes the record
/// out while in the save state; success or failure, the game returns to
/// the pause menu.
pub fn finish_save(w: &mut World)
    requires
        old(w).wf(),
        old(w).state is Save,
    ensures
        final(w).wf(),
        final(w).state is Paused,
        final(w).entities@ == old(w).entities@ && final(w).win == old(w).win && final(w).wave == old(w).wave
            && final(w).enemy_count == old(w).enemy_count && final(w).score == old(w).score && final(w).rotated == old(
            w,
        ).rotated && final(w).tick == old(w).tick && final(w).player == old(w).player,
{
    w.state = GameState::Paused;
}

/// Enter play from the load state, given the record the shell read —
/// `None` when no file was present. A good record restores wave, score
/// and lives, clears the enemy count and spawns the player; a missing or
/// malformed record routes back to the main menu with the session values
/// unchanged.
pub fn load_system(w: &mut World, content: Option<&Vec<u8>>)
    requires
        old(w).wf(),
        old(w).state is Load,
        count_enemies(old(w).entities@) == 0,
    ensures
        final(w).wf(),
        match content {
            Some(c) => match parse_save_spec(c@) {
                Ok(d) => {
                    &&& final(w).state is InGame
                    &&& final(w).wave == d.wave
                    &&& final(w).score == d.score
                    &&& final(w).player.lives == d.lives
                    &&& final(w).player.weapon_type == old(w).player.weapon_type
                    &&& final(w).player.weapon_lvl == old(w).player.weapon_lvl
                    &&& final(w).enemy_count == 0
                    &&& final(w).entities@ == old(w).entities@.push(player_entity(old(w).win.h as int))
                },
                Err(_) => {
                    &&& final(w).state is MainMenu
                    &&& final(w).wave == old(w).wave
                    &&& final(w).score == old(w).score
                    &&& final(w).player == old(w).player
                    &&& final(w).enemy_count == old(w).enemy_count
                    &&& final(w).entities@ == session_survivors(old(w).entities@)
                },
            },
            None => {
                &&& final(w).state is MainMenu
                &&& final(w).wave == old(w).wave
                &&& final(w).score == old(w).score
                &&& final(w).player == old(w).player
                &&& final(w).enemy_count == old(w).enemy_count
                &&& final(w).entities@ == session_survivors(old(w).entities@)
            },
        },
        final(w).win == old(w).win && final(w).rotated == old(w).rotated && final(w).tick == old(w).tick,
{
    match content {
        Some(c) => {
            match parse_save(c) {
                Ok(d) => {
                    w.wave = d.wave;
                    w.score = d.score;
                    w.player.lives = d.lives;
                    w.enemy_count = 0;
                    crate::player::player_spawn_system(w);
                    proof {
                        crate::world::lemma_count_enemies_push(
                            old(w).entities@,
                            player_entity(old(w).win.h as int),
                        );
                    }
                    w.state = GameState::InGame;
                },
                Err(_) => {
                    w.state = GameState::MainMenu;
                    crate::state::despawn_system(w);
                },
            }
        },
        None => {
            w.state = GameState::MainMenu;
            crate::state::despawn_system(w);
        },
    }
}

} // verus!
