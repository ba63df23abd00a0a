use vstd::prelude::*;

verus! {

/// The sixteen keys of the keypad, one bit per key: bit `k` is set while key
/// `k` is held.
pub struct KeyPad {
    pub keys: u16,
}

/// The key of the hexadecimal keypad that a keyboard character stands for.
/// The left four columns of a QWERTY keyboard are laid out like the keypad:
///
/// ```text
/// 1 2 3 4        1 2 3 C
/// q w e r        4 5 6 D
/// a s d f   ->   7 8 9 E
/// z x c v        A 0 B F
/// ```
pub open spec fn key_of_char(c: char) -> Option<u16> {
    if c == '1' {
        Some(0x1)
    } else if c == '2' {
        Some(0x2)
    } else if c == '3' {
        Some(0x3)
    } else if c == '4' {
        Some(0xC)
    } else if c == 'q' {
        Some(0x4)
    } else if c == 'w' {
        Some(0x5)
    } else if c == 'e' {
        Some(0x6)
    } else if c == 'r' {
        Some(0xD)
    } else if c == 'a' {
        Some(0x7)
    } else if c == 's' {
        Some(0x8)
    } else if c == 'd' {
        Some(0x9)
    } else if c == 'f' {
        Some(0xE)
    } else if c == 'z' {
        Some(0xA)
    } else if c == 'x' {
        Some(0x0)
    } else if c == 'c' {
        Some(0xB)
    } else if c == 'v' {
        Some(0xF)
    } else {
        None
    }
}

/// Whether some character stands for the key `k`.
pub open spec fn some_char_stands_for(k: u16) -> bool {
    exists|c: char| key_of_char(c) == Some(k)
}

/// Sixteen characters stand for keys, each for a different key, and every key
/// of the keypad has one.
pub proof fn lemma_key_of_char_is_one_to_one(c1: char, c2: char)
    ensures
        key_of_char(c1) matches Some(k) ==> k < 16,
        key_of_char(c1) is Some && key_of_char(c1) == key_of_char(c2) ==> c1 == c2,
        forall|k: u16| k < 16 ==> #[trigger] some_char_stands_for(k),
{
    assert forall|k: u16| k < 16 implies #[trigger] some_char_stands_for(k) by {
        if k == 0 {
            assert(key_of_char('x') == Some(k));
        } else if k == 1 {
            assert(key_of_char('1') == Some(k));
        } else if k == 2 {
            assert(key_of_char('2') == Some(k));
        } else if k == 3 {
            assert(key_of_char('3') == Some(k));
        } else if k == 4 {
            assert(key_of_char('q') == Some(k));
        } else if k == 5 {
            assert(key_of_char('w') == Some(k));
        } else if k == 6 {
            assert(key_of_char('e') == Some(k));
        } else if k == 7 {
            assert(key_of_char('a') == Some(k));
        } else if k == 8 {
            assert(key_of_char('s') == Some(k));
        } else if k == 9 {
            assert(key_of_char('d') == Some(k));
        } else if k == 10 {
            assert(key_of_char('z') == Some(k));
        } else if k == 11 {
            assert(key_of_char('c') == Some(k));
        } else if k == 12 {
            assert(key_of_char('4') == Some(k));
        } else if k == 13 {
            assert(key_of_char('r') == Some(k));
        } else if k == 14 {
            assert(key_of_char('f') == Some(k));
        } else {
            assert(key_of_char('v') == Some(k));
        }
    }
}

/// The key bits of one press of the character `c`: the bit of the key that `c`
/// stands for, or none.
pub open spec fn key_mask(c: char) -> u16 {
    match key_of_char(c) {
        Some(key) => 1u16 << key,
        None => 0u16,
    }
}

/// One press of a character sets at most one key bit: the bit of the key it
/// stands for, or none at all.
pub proof fn lemma_press_sets_at_most_one_key(c: char, j: u16, k: u16)
    ensures
        key_of_char(c) is None ==> key_mask(c) == 0,
        j < 16 && k < 16 && (key_mask(c) >> j) & 1 == 1 && (key_mask(c) >> k) & 1 == 1 ==> j == k,
{
    if key_of_char(c) is Some {
        let key = key_of_char(c)->0;
        assert(key < 16);
        let m = key_mask(c);
        assert(m == 1u16 << key);
        assert(key < 16 && m == 1u16 << key && j < 16 && k < 16 && (m >> j) & 1 == 1 && (m >> k) & 1
            == 1 ==> j == k) by (bit_vector);
    } else {
        let m = key_mask(c);
        assert(m == 0u16 ==> (m >> j) & 1 != 1) by (bit_vector);
    }
}

/// The keyboard block and the keypad have the same 4 x 4 layout: the character
/// in place `k` (row by row) of `1 2 3 4 / q w e r / a s d f / z x c v` stands
/// for the key in place `k` of `1 2 3 C / 4 5 6 D / 7 8 9 E / A 0 B F`.
pub proof fn lemma_keyboard_layout(k: int)
    requires
        0 <= k < 16,
    ensures
        key_of_char(
            seq!['1', '2', '3', '4', 'q', 'w', 'e', 'r', 'a', 's', 'd', 'f', 'z', 'x', 'c', 'v'][k],
        ) == Some(
            seq![0x1u16, 0x2, 0x3, 0xC, 0x4, 0x5, 0x6, 0xD, 0x7, 0x8, 0x9, 0xE, 0xA, 0x0, 0xB, 0xF][k],
        ),
{
}

impl KeyPad {
    /// The keypad with no key held.
    pub fn new() -> (k: KeyPad)
        ensures
            k.keys == 0,
    {
        KeyPad { keys: 0 }
    }

    /// The keypad state for one key press of the character `c`: only the bit of
    /// the key that `c` stands for, or no bit for any other character.
    pub fn from_char(c: char) -> (k: KeyPad)
        ensures
            k.keys == key_mask(c),
    {
        let mut new_state: KeyPad = KeyPad { keys: 0 };
        if c == '1' {
            new_state.keys += 1 << 0x1;
        }
        if c == '2' {
            new_state.keys += 1 << 0x2;
        }
        if c == '3' {
            new_state.keys += 1 << 0x3;
        }
        if c == '4' {
            new_state.keys += 1 << 0xC;
        }
        if c == 'q' {
            new_state.keys += 1 << 0x4;
        }
        if c == 'w' {
            new_state.keys += 1 << 0x5;
        }
        if c == 'e' {
            new_state.keys += 1 << 0x6;
        }
        if c == 'r' {
            new_state.keys += 1 << 0xD;
        }
        if c == 'a' {
            new_state.keys += 1 << 0x7;
        }
        if c == 's' {
            new_state.keys += 1 << 0x8;
        }
        if c == 'd' {
            new_state.keys += 1 << 0x9;
        }
        if c == 'f' {
            new_state.keys += 1 << 0xe;
        }
        if c == 'z' {
            new_state.keys += 1 << 0xA;
        }
        if c == 'x' {
            new_state.keys += 1 << 0x0;
        }
        if c == 'c' {
            new_state.keys += 1 << 0xB;
        }
        if c == 'v' {
            new_state.keys += 1 << 0xF;
        }
        KeyPad { keys: new_state.keys }
    }

    /// The keypad state from one poll of the keyboard: `pressed` is the
    /// character of a plain key press, or `None` when there was no event, or an
    /// event of another kind (a release, a key with a modifier, the mouse).
    pub fn from_press(pressed: Option<char>) -> (k: KeyPad)
        ensures
            k.keys == match pressed {
                Some(c) => key_mask(c),
                None => 0u16,
            },
    {
        match pressed {
            Some(c) => KeyPad::from_char(c),
            None => KeyPad::new(),
        }
    }
}

} // verus!
