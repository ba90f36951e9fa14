//! Mpuz: a long multiplication with every digit replaced by a letter. Crack
//! the cipher by guessing which digit each letter stands for.

use vstd::prelude::*;

use crate::arith::{lcg, lcg_next};
use crate::keys::Key;
use crate::text::{char_text, decimal, decimal_string, digit, digit_char, pad_left, push_padded};

verus! {

/// Whether decimal digit `d` occurs in `n` (zero has the digit zero).
pub open spec fn has_digit(n: nat, d: nat) -> bool
    decreases n,
{
    if n < 10 {
        n == d
    } else {
        n % 10 == d || has_digit(n / 10, d)
    }
}

/// Digit `d` is marked in `present`, or is still to come from the digits of
/// `m` that are left.
pub open spec fn seen(present: Seq<bool>, m: u32, d: int) -> bool {
    present[d] || (m > 0 && has_digit(m as nat, d as nat))
}

/// Mark every decimal digit of `n` as present; nothing is ever unmarked.
pub fn digits_of(n: u32, present: &mut [bool; 10])
    ensures
        forall|d: int| 0 <= d < 10 ==> #[trigger] final(present)@[d] == (old(present)@[d] || has_digit(n as nat, d as nat)),
{
    if n == 0 {
        present[0] = true;
        return;
    }
    let mut m = n;
    while m > 0
        invariant
            0 < n,
            forall|d: int| 0 <= d < 10 ==> #[trigger] seen(present@, m, d) == (old(present)@[d] || has_digit(n as nat, d as nat)),
        decreases m,
    {
        let digit = (m % 10) as usize;
        let ghost before = present@;
        present[digit] = true;
        proof {
            assert forall|d: int| 0 <= d < 10 implies #[trigger] seen(present@, m / 10, d)
                == (old(present)@[d] || has_digit(n as nat, d as nat)) by {
                assert(seen(before, m, d) == (old(present)@[d] || has_digit(n as nat, d as nat)));
                assert(has_digit(m as nat, d as nat) == ((m % 10) as int == d || (m / 10 > 0 && has_digit((m / 10) as nat, d as nat))));
            }
        }
        m = m / 10;
    }
    assert forall|d: int| 0 <= d < 10 implies #[trigger] present@[d] == (old(present)@[d] || has_digit(n as nat, d as nat)) by {
        assert(seen(present@, m, d) == (old(present)@[d] || has_digit(n as nat, d as nat)));
    }
}

/// The five numbers the board shows: the two factors, the two partial
/// products and the product.
pub open spec fn shown(m1: u32, m2: u32) -> Seq<nat> {
    seq![m1 as nat, m2 as nat, (m1 * (m2 % 10)) as nat, (m1 * (m2 / 10)) as nat, (m1 * m2) as nat]
}

/// `c` in upper case, when it is an ASCII letter.
pub open spec fn upper(c: char) -> char {
    if 97 <= (c as u32) <= 122 { ((c as u32) - 32) as char } else { c }
}

/// Whether `letter` stands for `digit` on a board still to crack there:
/// the digit is on the board and `letter` is the first letter of the cipher
/// that is `digit`'s.
pub open spec fn right_guess(p: Puzzle, letter: char, digit: int) -> bool {
    0 <= digit < 10 && p.cipher@[digit] == upper(letter) && (forall|k: int| 0 <= k < digit ==> p.cipher@[k] != upper(letter))
        && p.present@[digit]
}

/// What the status line says after guessing `d` for `l`, the board then
/// being `p`: the solve with its error count, a correct guess, or a wrong one
/// with the error count.
pub open spec fn guess_status(p: Puzzle, right: bool, l: char, d: nat) -> Seq<char> {
    if right {
        if p.spec_solved() {
            "Solved with "@ + decimal(p.errors as nat) + " errors!  n: new puzzle"@
        } else {
            seq![l] + " = "@ + decimal(d) + ". Correct."@
        }
    } else {
        seq![l] + " is not "@ + decimal(d) + ". Errors: "@ + decimal(p.errors as nat)
    }
}

/// The multiplicand a seed deals: from its first draw.
pub open spec fn seed_m1(seed: u64) -> u32 {
    (100 + ((lcg_next(seed | 1) >> 33) % 900)) as u32
}

/// The multiplier a seed deals: from its second draw.
pub open spec fn seed_m2(seed: u64) -> u32 {
    (10 + ((lcg_next(lcg_next(seed | 1)) >> 33) % 90)) as u32
}

/// The shuffle of `perm` from generator state `s`, positions `i` down to
/// one: each draws a position at or below it and swaps with it.
pub open spec fn shuffled(perm: Seq<u8>, s: u64, i: int) -> Seq<u8>
    decreases i,
{
    if i < 1 {
        perm
    } else {
        let next = lcg_next(s);
        let j = ((next >> 33) % ((i + 1) as u64)) as int;
        shuffled(perm.update(i, perm[j]).update(j, perm[i]), next, i - 1)
    }
}

/// The digits in the order a seed deals them out to `A`..`J`: the ten
/// digits shuffled from the state after the seed's first two draws.
pub open spec fn seed_perm(seed: u64) -> Seq<u8> {
    shuffled(seq![0u8, 1, 2, 3, 4, 5, 6, 7, 8, 9], lcg_next(lcg_next(seed | 1)), 9)
}

/// `p` is the puzzle dealt from `seed`: its factors and its letters as the
/// seed's draws give them, nothing cracked and no error yet.
pub open spec fn dealt_from(seed: u64, p: Puzzle) -> bool {
    &&& p.m1 == seed_m1(seed)
    &&& p.m2 == seed_m2(seed)
    &&& forall|d: int| 0 <= d < 10 ==> #[trigger] p.cipher@[d] == (65 + seed_perm(seed)[d]) as char
    &&& forall|d: int| 0 <= d < 10 ==> #[trigger] p.present@[d] == (exists|k: int| 0 <= k < 5 && has_digit(#[trigger] shown(p.m1, p.m2)[k], d as nat))
    &&& forall|d: int| 0 <= d < 10 ==> !#[trigger] p.revealed@[d]
    &&& p.errors == 0
}

/// The puzzle: the letter standing for each digit, the two factors, which
/// digits appear anywhere on the board, which have been cracked, and how many
/// wrong guesses were made.
pub struct Puzzle {
    pub cipher: [char; 10],
    pub m1: u32,
    pub m2: u32,
    pub present: [bool; 10],
    pub revealed: [bool; 10],
    pub errors: u32,
}

impl Clone for Puzzle {
    fn clone(&self) -> (r: Self)
        ensures
            r == *self,
    {
        Puzzle {
            cipher: self.cipher,
            m1: self.m1,
            m2: self.m2,
            present: self.present,
            revealed: self.revealed,
            errors: self.errors,
        }
    }
}

/// An ASCII letter in upper case; anything else as it is.
pub fn to_upper(c: char) -> (r: char)
    ensures
        r == upper(c),
{
    if 97 <= (c as u32) && (c as u32) <= 122 {
        ((c as u8) - 32) as char
    } else {
        c
    }
}

/// `q` is `p` after guessing that `letter` stands for `digit`: a right
/// guess reveals the digit, anything else counts an error; the board itself
/// stays as it is.
pub open spec fn guessed(p: Puzzle, letter: char, digit: int, q: Puzzle) -> bool {
    let r = right_guess(p, letter, digit);
    &&& r ==> q.revealed@ == p.revealed@.update(digit, true) && q.errors == p.errors
    &&& !r ==> q.errors == crate::arith::sat_u32(p.errors + 1) && q.revealed == p.revealed
    &&& q.cipher == p.cipher
    &&& q.present == p.present
    &&& q.m1 == p.m1
    &&& q.m2 == p.m2
}

/// Guessing, digit by digit, the letter each digit on the board is dealt
/// to cracks the whole board without a single error, whatever was already
/// revealed: `boards[d + 1]` is `boards[d]` after the guess for digit `d`,
/// or the same board when `d` is not on it.
pub proof fn guessing_every_digit_solves(boards: Seq<Puzzle>)
    requires
        boards.len() == 11,
        forall|i: int, j: int| 0 <= i < j < 10 ==> boards[0].cipher@[i] != boards[0].cipher@[j],
        forall|d: int| 0 <= d < 10 ==> 65 <= (#[trigger] boards[0].cipher@[d]) as u32 <= 90,
        forall|d: int| 0 <= d < 10 ==> {
            &&& boards[d].present@[d] ==> guessed(boards[d], boards[d].cipher@[d], d, #[trigger] boards[d + 1])
            &&& !boards[d].present@[d] ==> boards[d + 1] == boards[d]
        },
    ensures
        boards[10].spec_solved(),
        boards[10].errors == boards[0].errors,
{
    cracked_up_to(boards, 10);
}

/// The boards before digit `d`'s guess have every earlier digit on the
/// board cracked, the same board, and no new errors.
proof fn cracked_up_to(boards: Seq<Puzzle>, d: int)
    requires
        0 <= d <= 10,
        boards.len() == 11,
        forall|i: int, j: int| 0 <= i < j < 10 ==> boards[0].cipher@[i] != boards[0].cipher@[j],
        forall|k: int| 0 <= k < 10 ==> 65 <= (#[trigger] boards[0].cipher@[k]) as u32 <= 90,
        forall|k: int| 0 <= k < 10 ==> {
            &&& boards[k].present@[k] ==> guessed(boards[k], boards[k].cipher@[k], k, #[trigger] boards[k + 1])
            &&& !boards[k].present@[k] ==> boards[k + 1] == boards[k]
        },
    ensures
        boards[d].cipher == boards[0].cipher,
        boards[d].present == boards[0].present,
        boards[d].errors == boards[0].errors,
        forall|k: int| 0 <= k < d && boards[0].present@[k] ==> #[trigger] boards[d].revealed@[k],
    decreases d,
{
    if d > 0 {
        cracked_up_to(boards, d - 1);
        let e = d - 1;
        let (p, q) = (boards[e], boards[e + 1]);
        assert(e + 1 == d);
        if p.present@[e] {
            let c = p.cipher@[e];
            assert(guessed(p, c, e, q));
            assert(upper(c) == c);
            assert(right_guess(p, c, e));
        }
    }
}

impl Puzzle {
    /// A puzzle dealt from `seed`: a three-digit by two-digit multiplication,
    /// and the ten digits dealt out to the letters `A` to `J` at random, each
    /// letter used once.
    pub fn from_seed(seed: u64) -> (r: Puzzle)
        ensures
            100 <= r.m1 <= 999,
            10 <= r.m2 <= 99,
            forall|d: int| 0 <= d < 10 ==> 65 <= (#[trigger] r.cipher@[d]) as u32 <= 74,
            forall|i: int, j: int| 0 <= i < j < 10 ==> r.cipher@[i] != r.cipher@[j],
            forall|d: int| 0 <= d < 10 ==> #[trigger] r.present@[d] == (exists|k: int| 0 <= k < 5 && has_digit(#[trigger] shown(r.m1, r.m2)[k], d as nat)),
            forall|d: int| 0 <= d < 10 ==> !#[trigger] r.revealed@[d],
            r.errors == 0,
            dealt_from(seed, r),
    {
        let (s1, a) = lcg(seed | 1);
        let m1: u32 = 100 + (a % 900) as u32;
        let (s2, b) = lcg(s1);
        let m2: u32 = 10 + (b % 90) as u32;
        let mut perm: Vec<u8> = vec![0, 1, 2, 3, 4, 5, 6, 7, 8, 9];
        let mut s = s2;
        let mut i: usize = 9;
        assert(perm@ =~= seq![0u8, 1, 2, 3, 4, 5, 6, 7, 8, 9]);
        while i >= 1
            invariant
                i <= 9,
                perm@.len() == 10,
                shuffled(perm@, s, i as int) == seed_perm(seed),
                forall|k: int| 0 <= k < 10 ==> #[trigger] perm@[k] < 10,
                forall|k: int, l: int| 0 <= k < l < 10 ==> perm@[k] != perm@[l],
            decreases i,
        {
            let (next, out) = lcg(s);
            s = next;
            let j = (out % (i as u64 + 1)) as usize;
            let t = perm[i];
            let u = perm[j];
            let ghost before = perm@;
            perm.set(i, u);
            perm.set(j, t);
            assert(perm@ =~= before.update(i as int, before[j as int]).update(j as int, before[i as int]));
            i = i - 1;
        }
        let mut cipher: [char; 10] = ['A'; 10];
        let mut d: usize = 0;
        while d < 10
            invariant
                d <= 10,
                perm@.len() == 10,
                forall|k: int| 0 <= k < 10 ==> #[trigger] perm@[k] < 10,
                forall|k: int, l: int| 0 <= k < l < 10 ==> perm@[k] != perm@[l],
                forall|k: int| 0 <= k < d ==> #[trigger] cipher@[k] == (65 + perm@[k]) as char,
                perm@ == seed_perm(seed),
                forall|k: int| 0 <= k < d ==> 65 <= (#[trigger] cipher@[k]) as u32 <= 74,
            decreases 10 - d,
        {
            cipher[d] = (65u8 + perm[d]) as char;
            d = d + 1;
        }
        let mut present: [bool; 10] = [false; 10];
        assert(m1 * (m2 % 10) <= 999 * 9 && m1 * (m2 / 10) <= 999 * 9 && m1 * m2 <= 999 * 99) by (nonlinear_arith)
            requires 100 <= m1 <= 999, 10 <= m2 <= 99, m2 % 10 <= 9, m2 / 10 <= 9;
        let p1 = m1 * (m2 % 10);
        let p2 = m1 * (m2 / 10);
        let p3 = m1 * m2;
        digits_of(m1, &mut present);
        digits_of(m2, &mut present);
        digits_of(p1, &mut present);
        digits_of(p2, &mut present);
        digits_of(p3, &mut present);
        proof {
            let sh = shown(m1, m2);
            assert forall|d: int| 0 <= d < 10 implies #[trigger] present@[d] == (exists|k: int| 0 <= k < 5 && has_digit(#[trigger] sh[k], d as nat)) by {
                if present@[d] {
                    if has_digit(m1 as nat, d as nat) {
                        assert(has_digit(sh[0], d as nat));
                    } else if has_digit(m2 as nat, d as nat) {
                        assert(has_digit(sh[1], d as nat));
                    } else if has_digit(p1 as nat, d as nat) {
                        assert(has_digit(sh[2], d as nat));
                    } else if has_digit(p2 as nat, d as nat) {
                        assert(has_digit(sh[3], d as nat));
                    } else {
                        assert(has_digit(sh[4], d as nat));
                    }
                }
            }
            assert forall|k: int, l: int| 0 <= k < l < 10 implies cipher@[k] != cipher@[l] by {
                assert(cipher@[k] == (65 + perm@[k]) as char);
                assert(cipher@[l] == (65 + perm@[l]) as char);
            }
        }
        Puzzle { cipher, m1, m2, present, revealed: [false; 10], errors: 0 }
    }

    /// The digit a letter stands for, case aside, if it stands for one.
    pub fn digit_for(&self, letter: char) -> (r: Option<usize>)
        ensures
            r matches Some(d) ==> d < 10 && self.cipher@[d as int] == upper(letter)
                && forall|k: int| 0 <= k < d ==> self.cipher@[k] != upper(letter),
            r is None ==> forall|k: int| 0 <= k < 10 ==> self.cipher@[k] != upper(letter),
    {
        let up = to_upper(letter);
        let mut i: usize = 0;
        while i < 10
            invariant
                i <= 10,
                up == upper(letter),
                forall|k: int| 0 <= k < i ==> self.cipher@[k] != up,
            decreases 10 - i,
        {
            if self.cipher[i] == up {
                return Some(i);
            }
            i = i + 1;
        }
        None
    }

    /// Guess that `letter` stands for `digit`. A right guess about a digit on
    /// the board reveals it; anything else is an error.
    pub fn guess(&mut self, letter: char, digit: usize) -> (r: bool)
        ensures
            r == (digit < 10 && old(self).cipher@[digit as int] == upper(letter)
                && (forall|k: int| 0 <= k < digit ==> old(self).cipher@[k] != upper(letter))
                && old(self).present@[digit as int]),
            guessed(*old(self), letter, digit as int, *final(self)),
    {
        match self.digit_for(letter) {
            Some(d) => {
                if d == digit && self.present[d] {
                    self.revealed[d] = true;
                    return true;
                }
            },
            None => {},
        }
        self.errors = self.errors.saturating_add(1);
        false
    }

    pub open spec fn spec_solved(&self) -> bool {
        forall|d: int| 0 <= d < 10 ==> !(#[trigger] self.present@[d]) || self.revealed@[d]
    }

    /// Solved once every digit on the board has been cracked.
    pub fn solved(&self) -> (r: bool)
        ensures
            r == self.spec_solved(),
    {
        let mut d: usize = 0;
        while d < 10
            invariant
                d <= 10,
                forall|k: int| 0 <= k < d ==> !(#[trigger] self.present@[k]) || self.revealed@[k],
            decreases 10 - d,
        {
            if self.present[d] && !self.revealed[d] {
                return false;
            }
            d = d + 1;
        }
        true
    }
}

/// The Mpuz overlay: the puzzle, the seed it was dealt from, a letter waiting
/// for its digit, and the status line.
pub struct Mpuz {
    pub puzzle: Puzzle,
    pub seed: u64,
    pub pending: Option<char>,
    pub status: String,
}

impl Mpuz {
    /// The puzzle dealt from seed one, with the how-to line showing.
    pub fn new() -> (r: Mpuz)
        ensures
            r.seed == 1,
            r.pending is None,
            r.status@ == "Press a letter, then the digit you think it is."@,
    {
        Mpuz {
            puzzle: Puzzle::from_seed(1),
            seed: 1,
            pending: None,
            status: String::from_str("Press a letter, then the digit you think it is."),
        }
    }

    /// Deal a fresh puzzle from the next seed.
    pub fn deal(&mut self)
        ensures
            dealt_anew(*old(self), *final(self)),
    {
        self.seed = self.seed.wrapping_add(1);
        self.puzzle = Puzzle::from_seed(self.seed);
        self.pending = None;
        self.status = String::from_str("New puzzle.");
    }

    /// A letter was pressed: hold it, upper-cased, until its digit comes.
    pub fn key_letter(&mut self, l: char)
        ensures
            letter_held(*old(self), l, *final(self)),
    {
        let up = to_upper(l);
        self.pending = Some(up);
        let mut s = char_text(up);
        s.append(" = ?  (press a digit)");
        self.status = s;
    }

    /// A digit was pressed: guess it for the held letter, if there is one, and
    /// say how it went.
    pub fn key_digit(&mut self, d: usize)
        ensures
            digit_guessed(*old(self), d as int, *final(self)),
    {
        match self.pending.take() {
            Some(l) => {
                let digit = decimal_string(d as u64);
                if self.puzzle.guess(l, d) {
                    if self.puzzle.solved() {
                        let mut s = String::from_str("Solved with ");
                        let errors = decimal_string(self.puzzle.errors as u64);
                        s.append(errors.as_str());
                        s.append(" errors!  n: new puzzle");
                        self.status = s;
                    } else {
                        let mut s = char_text(l);
                        s.append(" = ");
                        s.append(digit.as_str());
                        s.append(". Correct.");
                        self.status = s;
                    }
                } else {
                    let mut s = char_text(l);
                    s.append(" is not ");
                    s.append(digit.as_str());
                    s.append(". Errors: ");
                    let errors = decimal_string(self.puzzle.errors as u64);
                    s.append(errors.as_str());
                    self.status = s;
                }
            },
            None => {
                self.status = String::from_str("Press a letter first.");
            },
        }
    }
}

/// `h` is `g` with a fresh puzzle dealt from the next seed, nothing held and
/// the status saying so.
pub open spec fn dealt_anew(g: Mpuz, h: Mpuz) -> bool {
    &&& h.seed == g.seed.wrapping_add(1)
    &&& dealt_from(h.seed, h.puzzle)
    &&& h.pending is None
    &&& h.status@ == "New puzzle."@
}

/// `h` is `g` holding the letter `l`, upper-cased, until its digit comes.
pub open spec fn letter_held(g: Mpuz, l: char, h: Mpuz) -> bool {
    &&& h.pending == Some(upper(l))
    &&& h.status@ == seq![upper(l)] + " = ?  (press a digit)"@
    &&& h.puzzle == g.puzzle
    &&& h.seed == g.seed
}

/// `h` is `g` after the digit `d` is pressed: with no letter held it asks
/// for one; otherwise the guess of `d` for the held letter cracks it when
/// right and counts an error when wrong, and the status says how it went.
/// The held letter is let go either way.
pub open spec fn digit_guessed(g: Mpuz, d: int, h: Mpuz) -> bool {
    &&& h.seed == g.seed
    &&& h.pending is None
    &&& g.pending is None ==> h.status@ == "Press a letter first."@ && h.puzzle == g.puzzle
    &&& g.pending matches Some(l) ==> {
        let right = right_guess(g.puzzle, l, d);
        let p = h.puzzle;
        &&& right ==> p.revealed@ == g.puzzle.revealed@.update(d, true) && p.errors == g.puzzle.errors
        &&& !right ==> p.errors == crate::arith::sat_u32(g.puzzle.errors + 1) && p.revealed == g.puzzle.revealed
        &&& p.cipher == g.puzzle.cipher && p.present == g.puzzle.present
        &&& p.m1 == g.puzzle.m1 && p.m2 == g.puzzle.m2
        &&& h.status@ == guess_status(p, right, l, d as nat)
    }
}

/// `h` is `g` after a key that does not close the overlay: `n` deals a new
/// puzzle, a letter `A`..`J` (either case) is held, a digit is guessed for
/// the held letter, and any other key leaves all as it was.
pub open spec fn key_played(g: Mpuz, key: Key, h: Mpuz) -> bool {
    match key {
        Key::Char(c) => if c == 'n' {
            dealt_anew(g, h)
        } else if ('A' <= c <= 'J') || ('a' <= c <= 'j') {
            letter_held(g, c, h)
        } else if '0' <= c <= '9' {
            digit_guessed(g, c as int - 48, h)
        } else {
            h == g
        },
        _ => h == g,
    }
}

impl Mpuz {
    /// Read one key: quit, deal a new puzzle, hold a letter `A`..`J` (either
    /// case), or guess a digit for the held letter. Whether the overlay
    /// closes.
    pub fn handle_key(&mut self, key: Key) -> (close: bool)
        ensures
            close == (key == Key::Char('q') || key == Key::Esc || key == Key::Ctrl('c')),
            close ==> *final(self) == *old(self),
            !close ==> key_played(*old(self), key, *final(self)),
    {
        match key {
            Key::Char('q') | Key::Esc | Key::Ctrl('c') => true,
            Key::Char('n') => {
                self.deal();
                false
            },
            Key::Char(c) => {
                if ('A' <= c && c <= 'J') || ('a' <= c && c <= 'j') {
                    self.key_letter(c);
                } else if '0' <= c && c <= '9' {
                    let d = (c as u32 - '0' as u32) as usize;
                    self.key_digit(d);
                }
                false
            },
            _ => false,
        }
    }
}

/// What the board shows for the character `c` of a number: a digit shows as
/// itself once cracked and as its cipher letter before.
pub open spec fn glyph_char(p: Puzzle, c: char) -> char {
    let d = (c as u32) - 48;
    if 0 <= d < 10 {
        if p.revealed@[d] { digit_char(d as nat) } else { p.cipher@[d] }
    } else {
        c
    }
}

/// `n` as the board shows it, right-aligned in `w` columns.
pub open spec fn show_of(p: Puzzle, n: nat, w: nat) -> Seq<char> {
    pad_left(decimal(n).map_values(|c: char| glyph_char(p, c)), w)
}

/// The board's five number rows: the two factors (the second after an `x`),
/// the two partial products and the product, all right-aligned to the
/// product's width.
pub open spec fn board_of(p: Puzzle) -> Seq<Seq<char>> {
    let w = decimal((p.m1 * p.m2) as nat).len();
    seq![
        show_of(p, p.m1 as nat, w),
        seq!['x'] + show_of(p, p.m2 as nat, (w - 1) as nat),
        show_of(p, (p.m1 * (p.m2 % 10)) as nat, w),
        show_of(p, (p.m1 * (p.m2 / 10)) as nat, w),
        show_of(p, (p.m1 * p.m2) as nat, w),
    ]
}

proof fn decimal_nonempty(n: nat)
    ensures
        decimal(n).len() >= 1,
    decreases n,
{
    if n >= 10 {
        decimal_nonempty(n / 10);
    }
}

impl Puzzle {
    /// The glyph shown for digit `d`: the digit once cracked, else its
    /// cipher letter.
    pub fn glyph(&self, d: usize) -> (c: char)
        requires
            d < 10,
        ensures
            c == glyph_char(*self, digit_char(d as nat)),
    {
        if self.revealed[d] {
            digit(d as u32)
        } else {
            self.cipher[d]
        }
    }

    /// `n` as the board shows it, right-aligned in `w` columns.
    pub fn show(&self, n: u32, w: usize) -> (s: String)
        ensures
            s@ == show_of(*self, n as nat, w as nat),
    {
        let digits = decimal_string(n as u64);
        let k = digits.as_str().unicode_len();
        let ghost ds = digits@;
        let mut out = String::new();
        let mut i: usize = 0;
        while i < k
            invariant
                i <= k,
                k == ds.len(),
                ds == digits@,
                out@ == ds.take(i as int).map_values(|c: char| glyph_char(*self, c)),
            decreases k - i,
        {
            let c = digits.as_str().get_char(i);
            let g = if '0' <= c && c <= '9' {
                let d = (c as u32) - 48;
                if self.revealed[d as usize] {
                    digit(d)
                } else {
                    self.cipher[d as usize]
                }
            } else {
                c
            };
            assert(g == glyph_char(*self, c));
            let gs = char_text(g);
            out.append(gs.as_str());
            assert(ds.take(i + 1) =~= ds.take(i as int).push(c));
            assert(out@ =~= ds.take(i + 1).map_values(|c: char| glyph_char(*self, c)));
            i = i + 1;
        }
        assert(ds.take(k as int) =~= ds);
        let mut s = String::new();
        push_padded(&mut s, out.as_str(), w);
        assert(s@ =~= show_of(*self, n as nat, w as nat));
        s
    }

    /// The board's five number rows.
    pub fn board_rows(&self) -> (rows: Vec<String>)
        requires
            self.m1 * self.m2 <= u32::MAX,
        ensures
            rows@.len() == 5,
            forall|k: int| 0 <= k < 5 ==> (#[trigger] rows@[k])@ == board_of(*self)[k],
    {
        assert(self.m1 * (self.m2 % 10) <= self.m1 * self.m2) by (nonlinear_arith);
        assert(self.m1 * (self.m2 / 10) <= self.m1 * self.m2) by (nonlinear_arith);
        let product = self.m1 * self.m2;
        let p1 = self.m1 * (self.m2 % 10);
        let p2 = self.m1 * (self.m2 / 10);
        let w = decimal_string(product as u64).as_str().unicode_len();
        proof {
            decimal_nonempty(product as nat);
        }
        let mut second = String::from_str("x");
        let m2 = self.show(self.m2, w - 1);
        second.append(m2.as_str());
        proof {
            reveal_strlit("x");
        }
        let rows = vec![self.show(self.m1, w), second, self.show(p1, w), self.show(p2, w), self.show(product, w)];
        assert(rows@[1]@ =~= board_of(*self)[1]);
        rows
    }
}

} // verus!
