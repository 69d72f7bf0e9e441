//! The host keyboard layout of the sixteen-key pad.
use vstd::prelude::*;

verus! {

/// The host key of each pad key 0x0 to 0xF. The four rows of host keys
/// `1 2 3 4`, `Q W E R`, `A S D F`, `Z X C V` stand for the pad rows
/// `1 2 3 C`, `4 5 6 D`, `7 8 9 E`, `A 0 B F`.
pub const KEY_LAYOUT: [char; 16] = [
    'X', '1', '2', '3', 'Q', 'W', 'E', 'A', 'S', 'D', 'Z', 'C', '4', 'R', 'F', 'V',
];

/// The pad key that host key `key` stands for, if any.
pub fn key_index(key: char) -> (r: Option<usize>)
    ensures
        r matches Some(k) ==> k < 16 && KEY_LAYOUT@[k as int] == key,
        r is None ==> forall|k: int| 0 <= k < 16 ==> KEY_LAYOUT@[k] != key,
{
    let mut k: usize = 0;
    while k < 16
        invariant
            k <= 16,
            forall|j: int| 0 <= j < k ==> KEY_LAYOUT@[j] != key,
        decreases 16 - k,
    {
        if KEY_LAYOUT[k] == key {
            return Some(k);
        }
        k += 1;
    }
    None
}

/// The pad snapshot when the host keys `keys` are held down: a pad key is
/// pressed when its host key is among them.
pub fn keypad_state(keys: &[char]) -> (pad: [bool; 16])
    ensures
        forall|k: int|
            0 <= k < 16 ==> (#[trigger] pad@[k] <==> exists|j: int|
                0 <= j < keys@.len() && keys@[j] == KEY_LAYOUT@[k]),
{
    let mut pad = [false; 16];
    let mut j: usize = 0;
    while j < keys.len()
        invariant
            j <= keys@.len(),
            forall|k: int|
                0 <= k < 16 ==> (#[trigger] pad@[k] <==> exists|i: int|
                    0 <= i < j && keys@[i] == KEY_LAYOUT@[k]),
        decreases keys@.len() - j,
    {
        if let Some(k) = key_index(keys[j]) {
            pad[k] = true;
        }
        proof {
            assert forall|k: int| 0 <= k < 16 implies (#[trigger] pad@[k] <==> exists|i: int|
                0 <= i < j + 1 && keys@[i] == KEY_LAYOUT@[k]) by {
                if keys@[j as int] == KEY_LAYOUT@[k] {
                    assert(0 <= j < j + 1 && keys@[j as int] == KEY_LAYOUT@[k]);
                }
                if exists|i: int| 0 <= i < j + 1 && keys@[i] == KEY_LAYOUT@[k] {
                    let i = choose|i: int| 0 <= i < j + 1 && keys@[i] == KEY_LAYOUT@[k];
                    if i < j {
                        assert(0 <= i < j && keys@[i] == KEY_LAYOUT@[k]);
                    }
                }
            }
        }
        j += 1;
    }
    pad
}

} // verus!
