#![allow(unused_imports, unused_variables, unused_mut, dead_code)]

use zmax_term::mpuz::{Puzzle, digits_of};



#[test]
fn cipher_is_a_bijection() {
    let p = Puzzle::from_seed(5);
    let mut seen = [false; 10];
    for &c in &p.cipher {
        let i = (c as u8 - b'A') as usize;
        assert!(i < 10 && !seen[i], "letter repeated: {c}");
        seen[i] = true;
    }
}

#[test]
fn present_matches_the_actual_digits() {
    let p = Puzzle::from_seed(3);
    // Every digit flagged present must occur in one of the shown numbers.
    let mut want = [false; 10];
    for n in [
        p.m1,
        p.m2,
        p.m1 * (p.m2 % 10),
        p.m1 * (p.m2 / 10),
        p.m1 * p.m2,
    ] {
        digits_of(n, &mut want);
    }
    assert_eq!(p.present, want);
}

#[test]
fn correct_guess_reveals_wrong_guess_errors() {
    let mut p = Puzzle::from_seed(9);
    // Find a present digit and its letter.
    let d = (0..10).find(|&d| p.present[d]).unwrap();
    let letter = p.cipher[d];
    assert!(p.guess(letter, d), "true mapping should be accepted");
    assert!(p.revealed[d]);
    // A wrong digit for the same letter is an error.
    let wrong = (0..10).find(|&x| x != d).unwrap();
    let before = p.errors;
    assert!(!p.guess(letter, wrong));
    assert_eq!(p.errors, before + 1);
}

#[test]
fn solving_all_present_digits_wins() {
    let mut p = Puzzle::from_seed(2);
    assert!(!p.solved());
    for d in 0..10 {
        if p.present[d] {
            assert!(p.guess(p.cipher[d], d));
        }
    }
    assert!(p.solved());
}


#[test]
fn board_rows_show_cracked_digits_and_letters() {
    let mut revealed = [false; 10];
    revealed[5] = true;
    let p = Puzzle {
        cipher: ['A', 'B', 'C', 'D', 'E', 'F', 'G', 'H', 'I', 'J'],
        m1: 123,
        m2: 45,
        present: [true; 10],
        revealed,
        errors: 0,
    };
    assert_eq!(p.glyph(5), '5');
    assert_eq!(p.glyph(4), 'E');
    assert_eq!(p.show(123, 2), "BCD");
    assert_eq!(p.board_rows(), vec![" BCD", "x E5", " GB5", " EJC", "55D5"]);
}
