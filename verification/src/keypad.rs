//! The sixteen-key pad: which key of a keyboard stands for which key of the
//! machine, and the mask of the keys that are held.

use vstd::prelude::*;

verus! {

/// A key of the keyboard that the pad uses. The pad is the left-hand block
/// of a keyboard: four rows of four keys, from `1` to `V`.
#[derive(Clone, Copy, Debug, PartialEq, Eq, Structural)]
pub enum PhysicalKey {
    Key1,
    Key2,
    Key3,
    Key4,
    Q,
    W,
    E,
    R,
    A,
    S,
    D,
    F,
    Z,
    X,
    C,
    V,
}

/// The number of keys on the pad.
pub const KEY_COUNT: usize = 16;

/// The pad's layout: entry `i` is the key of the keyboard that stands for
/// key `i` of the machine.
pub const KEYPAD: [PhysicalKey; 16] = [
    PhysicalKey::X,
    PhysicalKey::Key1,
    PhysicalKey::Key2,
    PhysicalKey::Key3,
    PhysicalKey::Q,
    PhysicalKey::W,
    PhysicalKey::E,
    PhysicalKey::A,
    PhysicalKey::S,
    PhysicalKey::D,
    PhysicalKey::Z,
    PhysicalKey::C,
    PhysicalKey::Key4,
    PhysicalKey::R,
    PhysicalKey::F,
    PhysicalKey::V,
];

/// The key of the keyboard that stands for key `index` of the machine.
pub open spec fn key_at(index: int) -> PhysicalKey {
    KEYPAD@[index]
}

/// Whether bit `index` of `mask` is set.
pub open spec fn mask_has(mask: u16, index: int) -> bool {
    mask & (1u16 << (index as u16)) != 0
}

/// The mask of the held keys among the first `n` keys of the pad.
pub open spec fn mask_below(held: Seq<PhysicalKey>, n: nat) -> u16
    decreases n,
{
    if n == 0 {
        0
    } else if held.contains(key_at(n - 1)) {
        mask_below(held, (n - 1) as nat) | (1u16 << ((n - 1) as u16))
    } else {
        mask_below(held, (n - 1) as nat)
    }
}

/// The mask of the held keys: bit `i` is set exactly where the key of the
/// keyboard that stands for key `i` of the machine is among `held`.
pub open spec fn key_mask(held: Seq<PhysicalKey>) -> u16 {
    mask_below(held, 16)
}

/// Setting one bit of a mask sets that bit and changes no other.
proof fn lemma_set_bit(mask: u16, i: u16, j: u16)
    by (bit_vector)
    requires
        i < 16,
        j < 16,
    ensures
        ((mask | (1u16 << j)) & (1u16 << i) != 0) == ((mask & (1u16 << i) != 0) || i == j),
        (0u16 & (1u16 << i)) == 0,
{
}

/// Bit `i` of the mask of the first `n` keys is set exactly where `i` is
/// below `n` and key `i` is held.
pub proof fn lemma_mask_below_bits(held: Seq<PhysicalKey>, n: nat, i: int)
    requires
        n <= 16,
        0 <= i < 16,
    ensures
        mask_has(mask_below(held, n), i) == (i < n && held.contains(key_at(i))),
    decreases n,
{
    if n == 0 {
        lemma_set_bit(0, i as u16, 0);
    } else {
        lemma_mask_below_bits(held, (n - 1) as nat, i);
        lemma_set_bit(mask_below(held, (n - 1) as nat), i as u16, (n - 1) as u16);
    }
}

/// Bit `i` of the mask of the held keys is set exactly where the key that
/// stands for key `i` of the machine is held.
pub proof fn lemma_key_mask_bits(held: Seq<PhysicalKey>)
    ensures
        forall|i: int| 0 <= i < 16 ==> #[trigger] mask_has(key_mask(held), i) == held.contains(key_at(i)),
{
    assert forall|i: int| 0 <= i < 16 implies #[trigger] mask_has(key_mask(held), i)
        == held.contains(key_at(i)) by {
        lemma_mask_below_bits(held, 16, i);
    }
}

/// A mask is known by its sixteen bits.
pub proof fn lemma_mask_unique(a: u16, b: u16)
    requires
        forall|i: int| 0 <= i < 16 ==> mask_has(a, i) == mask_has(b, i),
    ensures
        a == b,
{
    assert(mask_has(a, 0) == mask_has(b, 0) && mask_has(a, 1) == mask_has(b, 1));
    assert(mask_has(a, 2) == mask_has(b, 2) && mask_has(a, 3) == mask_has(b, 3));
    assert(mask_has(a, 4) == mask_has(b, 4) && mask_has(a, 5) == mask_has(b, 5));
    assert(mask_has(a, 6) == mask_has(b, 6) && mask_has(a, 7) == mask_has(b, 7));
    assert(mask_has(a, 8) == mask_has(b, 8) && mask_has(a, 9) == mask_has(b, 9));
    assert(mask_has(a, 10) == mask_has(b, 10) && mask_has(a, 11) == mask_has(b, 11));
    assert(mask_has(a, 12) == mask_has(b, 12) && mask_has(a, 13) == mask_has(b, 13));
    assert(mask_has(a, 14) == mask_has(b, 14) && mask_has(a, 15) == mask_has(b, 15));
    assert(a == b) by (bit_vector)
        requires
            (a & (1u16 << 0u16) != 0) == (b & (1u16 << 0u16) != 0),
            (a & (1u16 << 1u16) != 0) == (b & (1u16 << 1u16) != 0),
            (a & (1u16 << 2u16) != 0) == (b & (1u16 << 2u16) != 0),
            (a & (1u16 << 3u16) != 0) == (b & (1u16 << 3u16) != 0),
            (a & (1u16 << 4u16) != 0) == (b & (1u16 << 4u16) != 0),
            (a & (1u16 << 5u16) != 0) == (b & (1u16 << 5u16) != 0),
            (a & (1u16 << 6u16) != 0) == (b & (1u16 << 6u16) != 0),
            (a & (1u16 << 7u16) != 0) == (b & (1u16 << 7u16) != 0),
            (a & (1u16 << 8u16) != 0) == (b & (1u16 << 8u16) != 0),
            (a & (1u16 << 9u16) != 0) == (b & (1u16 << 9u16) != 0),
            (a & (1u16 << 10u16) != 0) == (b & (1u16 << 10u16) != 0),
            (a & (1u16 << 11u16) != 0) == (b & (1u16 << 11u16) != 0),
            (a & (1u16 << 12u16) != 0) == (b & (1u16 << 12u16) != 0),
            (a & (1u16 << 13u16) != 0) == (b & (1u16 << 13u16) != 0),
            (a & (1u16 << 14u16) != 0) == (b & (1u16 << 14u16) != 0),
            (a & (1u16 << 15u16) != 0) == (b & (1u16 << 15u16) != 0),
    ;
}

/// No key of the keyboard stands for two keys of the machine.
pub proof fn lemma_keys_distinct(i: int, j: int)
    requires
        0 <= i < 16,
        0 <= j < 16,
        key_at(i) == key_at(j),
    ensures
        i == j,
{
    assert(key_at(0) == PhysicalKey::X && key_at(1) == PhysicalKey::Key1);
    assert(key_at(2) == PhysicalKey::Key2 && key_at(3) == PhysicalKey::Key3);
    assert(key_at(4) == PhysicalKey::Q && key_at(5) == PhysicalKey::W);
    assert(key_at(6) == PhysicalKey::E && key_at(7) == PhysicalKey::A);
    assert(key_at(8) == PhysicalKey::S && key_at(9) == PhysicalKey::D);
    assert(key_at(10) == PhysicalKey::Z && key_at(11) == PhysicalKey::C);
    assert(key_at(12) == PhysicalKey::Key4 && key_at(13) == PhysicalKey::R);
    assert(key_at(14) == PhysicalKey::F && key_at(15) == PhysicalKey::V);
}

/// A mask of one bit has that bit and no other.
proof fn lemma_one_bit(n: u16, i: u16)
    by (bit_vector)
    requires
        n < 16,
        i < 16,
    ensures
        ((1u16 << n) & (1u16 << i) != 0) == (i == n),
        (0u16 & (1u16 << i)) == 0,
        (0xFFFFu16 & (1u16 << i)) != 0,
{
}

/// With no key held the mask is empty.
pub proof fn lemma_no_key()
    ensures
        key_mask(Seq::empty()) == 0,
{
    let held: Seq<PhysicalKey> = Seq::empty();
    lemma_key_mask_bits(held);
    assert forall|i: int| 0 <= i < 16 implies mask_has(key_mask(held), i) == mask_has(0, i) by {
        lemma_one_bit(0, i as u16);
    }
    lemma_mask_unique(key_mask(held), 0);
}

/// With the one key held that stands for key `n` of the machine, the mask
/// is bit `n` alone.
pub proof fn lemma_single_key(n: int)
    requires
        0 <= n < 16,
    ensures
        key_mask(seq![key_at(n)]) == 1u16 << (n as u16),
{
    let held: Seq<PhysicalKey> = seq![key_at(n)];
    let bit: u16 = 1u16 << (n as u16);
    lemma_key_mask_bits(held);
    assert forall|i: int| 0 <= i < 16 implies mask_has(key_mask(held), i) == mask_has(bit, i) by {
        lemma_one_bit(n as u16, i as u16);
        if held.contains(key_at(i)) {
            lemma_keys_distinct(i, n);
        } else {
            assert(held[0] == key_at(n));
        }
    }
    lemma_mask_unique(key_mask(held), bit);
}

/// With every key of the pad held the mask is full.
pub proof fn lemma_every_key(held: Seq<PhysicalKey>)
    requires
        forall|i: int| 0 <= i < 16 ==> held.contains(#[trigger] key_at(i)),
    ensures
        key_mask(held) == 0xFFFF,
{
    lemma_key_mask_bits(held);
    assert forall|i: int| 0 <= i < 16 implies mask_has(key_mask(held), i) == mask_has(
        0xFFFF,
        i,
    ) by {
        lemma_one_bit(0, i as u16);
        assert(held.contains(key_at(i)));
    }
    lemma_mask_unique(key_mask(held), 0xFFFF);
}

/// Whether `key` is among the held keys.
pub fn is_held(held: &[PhysicalKey], key: PhysicalKey) -> (found: bool)
    ensures
        found == held@.contains(key),
{
    let mut n: usize = 0;
    while n < held.len()
        invariant
            n <= held.len(),
            forall|j: int| 0 <= j < n ==> held@[j] != key,
        decreases held.len() - n,
    {
        if held[n] == key {
            return true;
        }
        n += 1;
    }
    false
}

/// Folds the held keys of the keyboard into the machine's key mask.
///
/// The result says what is held now and nothing else: a key counts while it
/// is in `held`, however often it occurs there, and keys that the pad does
/// not use are not representable.
pub fn sample_keys(held: &[PhysicalKey]) -> (mask: u16)
    ensures
        mask == key_mask(held@),
        forall|i: int| 0 <= i < 16 ==> #[trigger] mask_has(mask, i) == held@.contains(key_at(i)),
{
    let mut mask: u16 = 0;
    let mut index: usize = 0;
    while index < KEY_COUNT
        invariant
            index <= 16,
            mask == mask_below(held@, index as nat),
        decreases 16 - index,
    {
        if is_held(held, KEYPAD[index]) {
            mask = mask | (1u16 << (index as u16));
        }
        index += 1;
    }
    proof {
        assert forall|i: int| 0 <= i < 16 implies #[trigger] mask_has(mask, i)
            == held@.contains(key_at(i)) by {
            lemma_mask_below_bits(held@, 16, i);
        }
    }
    mask
}

} // verus!
