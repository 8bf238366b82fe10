//! The front end's logic: which keyboard key is which keypad key, how a
//! key event changes the keypad, and which rectangles a frame fills.
use crate::cpu::display_view;
use vstd::prelude::*;

verus! {

/// Side of one screen pixel, in window pixels.
pub const MULTIPLIER: i32 = 16;

/// The keyboard key under keypad key `k`, for `k` in `0..16`:
/// ```text
/// 1 2 3 4        1 2 3 C
/// q w e r   ->   4 5 6 D
/// a s d f        7 8 9 E
/// z x c v        A 0 B F
/// ```
pub const KEYPAD: [char; 16] = [
    'x', '1', '2', '3', 'q', 'w', 'e', 'a', 's', 'd', 'z', 'c', '4', 'r', 'f', 'v',
];

/// Keypad key `k` sits under keyboard key `key`.
pub open spec fn key_under(key: char, k: int) -> bool {
    0 <= k < 16 && KEYPAD@[k] == key
}

/// The keypad key under keyboard key `key`, if any.
pub fn keypad_index(key: char) -> (k: Option<usize>)
    ensures
        match k {
            Some(k) => key_under(key, k as int),
            None => forall|j: int| !key_under(key, j),
        },
{
    let mut k: usize = 0;
    while k < 16
        invariant
            k <= 16,
            forall|j: int| 0 <= j < k ==> KEYPAD@[j] != key,
        decreases 16 - k,
    {
        if KEYPAD[k] == key {
            return Some(k);
        }
        k += 1;
    }
    None
}

/// The keyboard key that closes the window: Escape.
pub const QUIT_KEY: char = '\u{1b}';

/// Keyboard key `key` going down ends the session.
pub fn is_quit_key(key: char) -> (quit: bool)
    ensures
        quit == (key == QUIT_KEY),
{
    key == QUIT_KEY
}

/// The keypad after keyboard key `key` went down (`pressed`) or up: the
/// keypad key under it takes `pressed`; a key with no keypad key under it
/// changes nothing.
pub open spec fn key_event(keys: Seq<bool>, key: char, pressed: bool) -> Seq<bool> {
    if exists|k: int| key_under(key, k) {
        keys.update(choose|k: int| key_under(key, k), pressed)
    } else {
        keys
    }
}

/// Records a key going down (`pressed`) or up.
pub fn apply_key_event(keys: &mut [bool; 16], key: char, pressed: bool)
    ensures
        final(keys)@ == key_event(old(keys)@, key, pressed),
{
    match keypad_index(key) {
        Some(k) => {
            proof {
                lemma_keypad_unique(key, k as int);
            }
            keys[k] = pressed;
        },
        None => {},
    }
}

/// No keyboard key is under two keypad keys.
pub proof fn lemma_keypad_unique(key: char, k: int)
    requires
        key_under(key, k),
    ensures
        (choose|j: int| key_under(key, j)) == k,
        forall|j: int| #[trigger] key_under(key, j) ==> j == k,
{
    assert forall|j: int| #[trigger] key_under(key, j) implies j == k by {
        assert(KEYPAD@[j] == KEYPAD@[k]);
    }
}

/// The rectangle (x, y, width, height) that shows pixel `(a, b)`.
pub open spec fn pixel_rect(a: int, b: int) -> (i32, i32, u32, u32) {
    ((a * MULTIPLIER) as i32, (b * MULTIPLIER) as i32, MULTIPLIER as u32, MULTIPLIER as u32)
}

/// The rectangles of the lit pixels among the first `k` pixels, columns
/// left to right and each column top to bottom.
pub open spec fn lit_rects(d: Seq<Seq<bool>>, k: int) -> Seq<(i32, i32, u32, u32)>
    decreases k,
{
    if k <= 0 {
        seq![]
    } else {
        let a = (k - 1) / 32;
        let b = (k - 1) % 32;
        lit_rects(d, k - 1) + if d[a][b] {
            seq![pixel_rect(a, b)]
        } else {
            Seq::empty()
        }
    }
}

/// The rectangles to fill for a frame: one per lit pixel, columns left to
/// right and each column top to bottom.
pub fn frame_rects(display: &[[bool; 32]; 64]) -> (rects: Vec<(i32, i32, u32, u32)>)
    ensures
        rects@ == lit_rects(display_view(*display), 2048),
{
    let mut rects: Vec<(i32, i32, u32, u32)> = Vec::new();
    let mut a: usize = 0;
    while a < 64
        invariant
            a <= 64,
            rects@ == lit_rects(display_view(*display), a * 32 as int),
        decreases 64 - a,
    {
        let column = display[a];
        let mut b: usize = 0;
        while b < 32
            invariant
                a < 64,
                b <= 32,
                column == display@[a as int],
                rects@ == lit_rects(display_view(*display), a * 32 + b as int),
            decreases 32 - b,
        {
            let ghost k = a * 32 + b + 1;
            assert((k - 1) / 32 == a && (k - 1) % 32 == b);
            if column[b] {
                rects.push((a as i32 * MULTIPLIER, b as i32 * MULTIPLIER, MULTIPLIER as u32, MULTIPLIER as u32));
            }
            assert(rects@ =~= lit_rects(display_view(*display), k));
            b += 1;
        }
        a += 1;
    }
    rects
}

} // verus!
