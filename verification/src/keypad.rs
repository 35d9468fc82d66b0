//! The sixteen-key hexadecimal pad.

use vstd::prelude::*;

verus! {

/// Number of keys on the pad.
pub const KEY_COUNT: usize = 16;

/// The key code behind each physical key of the host's 4x4 block, read row
/// by row from the top left:
///
/// ```text
/// 1 2 3 4        1 2 3 C
/// q w e r   -->  4 5 6 D
/// a s d f        7 8 9 E
/// z x c v        A 0 B F
/// ```
pub const KEY_LAYOUT: [u8; 16] = [
    0x1, 0x2, 0x3, 0xC,
    0x4, 0x5, 0x6, 0xD,
    0x7, 0x8, 0x9, 0xE,
    0xA, 0x0, 0xB, 0xF,
];

/// Key `k` is held down and no key with a smaller code is.
pub open spec fn is_lowest_pressed(keys: Seq<bool>, k: int) -> bool {
    &&& 0 <= k < keys.len()
    &&& keys[k]
    &&& forall|m: int| 0 <= m < k ==> !keys[m]
}

/// The smallest code among the keys held down, if any key is.
pub open spec fn lowest_pressed(keys: Seq<bool>) -> Option<u8> {
    if exists|k: u8| is_lowest_pressed(keys, k as int) {
        Some(choose|k: u8| is_lowest_pressed(keys, k as int))
    } else {
        None
    }
}

/// `lowest_pressed` names the one key that `is_lowest_pressed` singles out.
pub proof fn lemma_lowest_pressed(keys: Seq<bool>, k: u8)
    requires
        is_lowest_pressed(keys, k as int),
    ensures
        lowest_pressed(keys) == Some(k),
{
    let found = choose|k: u8| is_lowest_pressed(keys, k as int);
    assert(is_lowest_pressed(keys, found as int));
    if found < k {
        assert(!keys[found as int]);
    } else if k < found {
        assert(!keys[k as int]);
    }
}

/// With no key held down there is no lowest one.
pub proof fn lemma_none_pressed(keys: Seq<bool>)
    requires
        forall|k: int| 0 <= k < keys.len() ==> !keys[k],
    ensures
        lowest_pressed(keys) == None::<u8>,
{
}

/// Key code `code` is behind one of the physical keys.
pub open spec fn has_physical_key(code: u8) -> bool {
    exists|p: int| 0 <= p < KEY_COUNT && #[trigger] KEY_LAYOUT[p] == code
}

/// Every key code is behind exactly one physical key, so a snapshot of the
/// physical keys settles the state of the whole pad.
pub proof fn lemma_layout_is_permutation()
    ensures
        forall|p: int| 0 <= p < KEY_COUNT ==> #[trigger] KEY_LAYOUT[p] < KEY_COUNT,
        forall|p: int, q: int|
            0 <= p < KEY_COUNT && 0 <= q < KEY_COUNT && p != q ==> #[trigger] KEY_LAYOUT[p]
                != #[trigger] KEY_LAYOUT[q],
        forall|code: u8| code < KEY_COUNT ==> #[trigger] has_physical_key(code),
{
    assert(KEY_LAYOUT[0] == 0x1 && KEY_LAYOUT[1] == 0x2 && KEY_LAYOUT[2] == 0x3 && KEY_LAYOUT[3]
        == 0xC);
    assert(KEY_LAYOUT[4] == 0x4 && KEY_LAYOUT[5] == 0x5 && KEY_LAYOUT[6] == 0x6 && KEY_LAYOUT[7]
        == 0xD);
    assert(KEY_LAYOUT[8] == 0x7 && KEY_LAYOUT[9] == 0x8 && KEY_LAYOUT[10] == 0x9 && KEY_LAYOUT[11]
        == 0xE);
    assert(KEY_LAYOUT[12] == 0xA && KEY_LAYOUT[13] == 0x0 && KEY_LAYOUT[14] == 0xB
        && KEY_LAYOUT[15] == 0xF);
}

/// What a snapshot of the physical keys makes of the pad: the key whose code
/// stands at position `p` of `KEY_LAYOUT` is held down exactly if the
/// snapshot says so at `p`.
pub open spec fn reflects(keys: Seq<bool>, down: Seq<bool>) -> bool {
    &&& keys.len() == KEY_COUNT
    &&& forall|p: int| 0 <= p < KEY_COUNT ==> keys[#[trigger] KEY_LAYOUT[p] as int] == down[p]
}

/// The state of the pad: one flag per key code, set while the key is held
/// down.
pub struct Keypad {
    keys: [bool; KEY_COUNT],
}

impl View for Keypad {
    type V = Seq<bool>;

    closed spec fn view(&self) -> Seq<bool> {
        self.keys@
    }
}

impl Keypad {
    /// Every pad has `KEY_COUNT` keys.
    pub proof fn lemma_view_len(&self)
        ensures
            self@.len() == KEY_COUNT,
    {
    }

    /// A pad with no key held down.
    pub fn new() -> (k: Keypad)
        ensures
            k@ == Seq::new(KEY_COUNT as nat, |c: int| false),
    {
        let k = Keypad { keys: [false; KEY_COUNT] };
        assert(k@ =~= Seq::new(KEY_COUNT as nat, |c: int| false));
        k
    }

    /// Refreshes the whole pad from a snapshot of the physical keys, given
    /// in the order of `KEY_LAYOUT`.
    pub fn update_keys(&mut self, down: &[bool; KEY_COUNT])
        ensures
            reflects(final(self)@, down@),
    {
        let mut p: usize = 0;
        while p < KEY_COUNT
            invariant
                p <= KEY_COUNT,
                forall|q: int| 0 <= q < p ==> self@[#[trigger] KEY_LAYOUT[q] as int] == down@[q],
            decreases KEY_COUNT - p,
        {
            proof {
                lemma_layout_is_permutation();
            }
            let code: u8 = KEY_LAYOUT[p];
            self.keys[code as usize] = down[p];
            p += 1;
        }
    }

    /// Whether the key with code `key` is held down.
    pub fn is_key_pressed(&self, key: u8) -> (pressed: bool)
        requires
            key < KEY_COUNT,
        ensures
            pressed == self@[key as int],
    {
        self.keys[key as usize]
    }

    /// Looks for a key that is held down. If there is one, stores the
    /// smallest such code in `vx` and returns `true`; otherwise leaves `vx`
    /// alone and returns `false`, and the caller asks again once the pad has
    /// been refreshed.
    pub fn wait_for_key_press(&self, vx: &mut u8) -> (pressed: bool)
        ensures
            (match lowest_pressed(self@) {
                Some(k) => pressed && *final(vx) == k,
                None => !pressed && *final(vx) == *old(vx),
            }),
    {
        let mut i: u8 = 0;
        while (i as usize) < KEY_COUNT
            invariant
                i <= KEY_COUNT,
                *vx == *old(vx),
                forall|m: int| 0 <= m < i ==> !self@[m],
            decreases KEY_COUNT - i,
        {
            if self.keys[i as usize] {
                *vx = i;
                proof {
                    lemma_lowest_pressed(self@, i);
                }
                return true;
            }
            i += 1;
        }
        proof {
            lemma_none_pressed(self@);
        }
        false
    }
}

} // verus!
