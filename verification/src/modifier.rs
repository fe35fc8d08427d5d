//! The modifier flags of a match, packed into one byte of the record.

use vstd::prelude::*;

verus! {

/// A flag that alters how a match is played.
#[derive(Debug, Clone, Copy, PartialEq, Eq, Structural)]
pub enum Mod {
    MaxG,
    Daily,
    Easy,
    Big,
}

/// The two bits that no modifier uses. A record that sets both is unusual,
/// and still decodes.
pub const RESERVED_MASK: u8 = 0b0000_1100;

impl Mod {
    /// The bits that must all be set in the flag byte for this modifier.
    pub open spec fn mask(self) -> u8 {
        match self {
            Mod::Daily => 0b0100_0000,
            Mod::Easy => 0b0011_0000,
            Mod::Big => 0b0000_0010,
            Mod::MaxG => 0b0000_0001,
        }
    }

    /// Whether the flag byte carries this modifier.
    pub open spec fn set_in(self, byte: u8) -> bool {
        byte & self.mask() == self.mask()
    }
}

/// The modifier alone if the flag byte carries it, else nothing.
pub open spec fn tag_if_set(byte: u8, tag: Mod) -> Seq<Mod> {
    if tag.set_in(byte) {
        seq![tag]
    } else {
        Seq::empty()
    }
}

/// The modifiers that a flag byte carries, in the order in which they are
/// reported: Daily, Easy, Big, MaxG.
pub open spec fn modifier_tags(byte: u8) -> Seq<Mod> {
    tag_if_set(byte, Mod::Daily) + tag_if_set(byte, Mod::Easy) + tag_if_set(byte, Mod::Big)
        + tag_if_set(byte, Mod::MaxG)
}

/// Decodes the flag byte of a record into its modifiers. Each modifier is
/// tested by itself, so any of them may occur together; the reserved bits
/// give none.
pub fn parse_modifier(byte: u8) -> (tags: Vec<Mod>)
    ensures
        tags@ == modifier_tags(byte),
        tags@.no_duplicates(),
        forall|tag: Mod| tags@.contains(tag) <==> tag.set_in(byte),
{
    let mut r: Vec<Mod> = Vec::with_capacity(4);
    if byte & 0b0100_0000 == 0b0100_0000 {
        r.push(Mod::Daily);
    }
    if byte & 0b0011_0000 == 0b0011_0000 {
        r.push(Mod::Easy);
    }
    if byte & 0b0000_0010 == 0b0000_0010 {
        r.push(Mod::Big);
    }
    if byte & 0b0000_0001 == 0b0000_0001 {
        r.push(Mod::MaxG);
    }
    proof {
        assert(r@ =~= modifier_tags(byte));
        lemma_modifier_tags(byte);
    }
    r
}

/// Whether the flag byte sets both reserved bits.
pub fn has_reserved_bits(byte: u8) -> (set: bool)
    ensures
        set == (byte & RESERVED_MASK == RESERVED_MASK),
{
    byte & RESERVED_MASK == RESERVED_MASK
}

/// One slot of the decoded sequence holds its modifier, and only that one,
/// exactly when the flag byte carries it.
proof fn lemma_tag_if_set(byte: u8, tag: Mod, other: Mod)
    ensures
        tag_if_set(byte, tag).no_duplicates(),
        tag_if_set(byte, tag).contains(other) <==> other == tag && tag.set_in(byte),
{
    if tag.set_in(byte) {
        assert(tag_if_set(byte, tag)[0] == tag);
    }
}

/// Which modifiers stand in the first two slots, the first three and all
/// four slots of the decoded sequence.
proof fn lemma_prefix_contains(byte: u8, other: Mod)
    ensures
        (tag_if_set(byte, Mod::Daily) + tag_if_set(byte, Mod::Easy)).contains(other) <==> (other
            == Mod::Daily || other == Mod::Easy) && other.set_in(byte),
        (tag_if_set(byte, Mod::Daily) + tag_if_set(byte, Mod::Easy) + tag_if_set(
            byte,
            Mod::Big,
        )).contains(other) <==> (other == Mod::Daily || other == Mod::Easy || other == Mod::Big)
            && other.set_in(byte),
        modifier_tags(byte).contains(other) <==> other.set_in(byte),
{
    let daily = tag_if_set(byte, Mod::Daily);
    let easy = tag_if_set(byte, Mod::Easy);
    let big = tag_if_set(byte, Mod::Big);
    let maxg = tag_if_set(byte, Mod::MaxG);
    lemma_tag_if_set(byte, Mod::Daily, other);
    lemma_tag_if_set(byte, Mod::Easy, other);
    lemma_tag_if_set(byte, Mod::Big, other);
    lemma_tag_if_set(byte, Mod::MaxG, other);
    vstd::seq_lib::lemma_seq_concat_contains_all_elements(daily, easy, other);
    vstd::seq_lib::lemma_seq_concat_contains_all_elements(daily + easy, big, other);
    vstd::seq_lib::lemma_seq_concat_contains_all_elements(daily + easy + big, maxg, other);
}

/// The modifiers decoded from a flag byte are exactly those whose mask the
/// byte covers, each of them once.
pub proof fn lemma_modifier_tags(byte: u8)
    ensures
        modifier_tags(byte).no_duplicates(),
        forall|tag: Mod| modifier_tags(byte).contains(tag) <==> tag.set_in(byte),
{
    let daily = tag_if_set(byte, Mod::Daily);
    let easy = tag_if_set(byte, Mod::Easy);
    let big = tag_if_set(byte, Mod::Big);
    let maxg = tag_if_set(byte, Mod::MaxG);
    assert forall|tag: Mod| modifier_tags(byte).contains(tag) <==> tag.set_in(byte) by {
        lemma_prefix_contains(byte, tag);
    }
    lemma_tag_if_set(byte, Mod::Daily, Mod::Daily);
    lemma_tag_if_set(byte, Mod::Easy, Mod::Easy);
    lemma_tag_if_set(byte, Mod::Big, Mod::Big);
    lemma_tag_if_set(byte, Mod::MaxG, Mod::MaxG);
    assert forall|i: int, j: int| 0 <= i < daily.len() && 0 <= j < easy.len() implies daily[i]
        != easy[j] by {
    }
    vstd::seq_lib::lemma_no_dup_in_concat(daily, easy);
    assert forall|i: int, j: int| 0 <= i < (daily + easy).len() && 0 <= j < big.len() implies (daily
        + easy)[i] != big[j] by {
        lemma_prefix_contains(byte, (daily + easy)[i]);
        assert((daily + easy).contains((daily + easy)[i]));
    }
    vstd::seq_lib::lemma_no_dup_in_concat(daily + easy, big);
    assert forall|i: int, j: int| 0 <= i < (daily + easy + big).len() && 0 <= j
        < maxg.len() implies (daily + easy + big)[i] != maxg[j] by {
        lemma_prefix_contains(byte, (daily + easy + big)[i]);
        assert((daily + easy + big).contains((daily + easy + big)[i]));
    }
    vstd::seq_lib::lemma_no_dup_in_concat(daily + easy + big, maxg);
}

/// The reserved bits carry no modifier: a byte that sets nothing else
/// decodes to no modifier at all.
pub proof fn lemma_reserved_bits_carry_nothing(byte: u8)
    requires
        byte & !RESERVED_MASK == 0,
    ensures
        modifier_tags(byte) == Seq::<Mod>::empty(),
{
    assert(byte & !0b0000_1100u8 == 0 ==> byte & 0b0100_0000 != 0b0100_0000 && byte & 0b0011_0000
        != 0b0011_0000 && byte & 0b0000_0010 != 0b0000_0010 && byte & 0b0000_0001 != 0b0000_0001)
        by (bit_vector);
    assert(modifier_tags(byte) =~= Seq::<Mod>::empty());
}

} // verus!
