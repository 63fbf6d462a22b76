//! A set of flags drawn from one closed family of options.

use core::marker::PhantomData;
use vstd::prelude::*;

verus! {

/// A closed family of option flags.
///
/// Every flag has a position in its family, counted from one, and a fixed
/// numeric value that the engine understands.
pub trait OptionKind: Sized + Copy {
    /// How many flags the family has.
    spec fn family_len() -> nat;

    /// The position of this flag in its family, from one.
    spec fn ordinal(&self) -> nat;

    /// The flag at position `n`.
    spec fn at_ordinal(n: nat) -> Self;

    /// The numeric value of this flag.
    spec fn value(&self) -> u32;

    /// Positions are within the family, and position determines the flag.
    proof fn lemma_ordinal(&self)
        ensures
            1 <= self.ordinal() <= Self::family_len(),
            Self::family_len() < 32,
            Self::at_ordinal(self.ordinal()) == *self,
    ;

    /// Every position of the family is the position of its flag.
    proof fn lemma_at_ordinal(n: nat)
        requires
            1 <= n <= Self::family_len(),
        ensures
            Self::at_ordinal(n).ordinal() == n,
    ;

    /// The number of flags in the family.
    fn family_size() -> (n: usize)
        ensures
            n == Self::family_len(),
            n < 32,
    ;

    /// The position of this flag.
    fn to_uint(&self) -> (n: usize)
        ensures
            n == self.ordinal(),
            1 <= n <= Self::family_len(),
    ;

    /// The flag at position `n`.
    fn from_uint(n: usize) -> (flag: Self)
        requires
            1 <= n <= Self::family_len(),
        ensures
            flag == Self::at_ordinal(n as nat),
    ;

    /// The numeric value of this flag.
    fn bits(&self) -> (b: u32)
        ensures
            b == self.value(),
    ;
}

/// Whether the bit at position `n` of `word` is set.
pub open spec fn has_bit(word: u32, n: nat) -> bool {
    n < 32 && word & (1u32 << (n as u32)) != 0
}

/// The bitwise OR of the values of the flags of `s` at positions up to `n`.
pub open spec fn mask_upto<K: OptionKind>(s: Set<K>, n: nat) -> u32
    decreases n,
{
    if n == 0 {
        0
    } else {
        let flag = K::at_ordinal(n);
        mask_upto(s, (n - 1) as nat) | (if s.contains(flag) {
            flag.value()
        } else {
            0u32
        })
    }
}

/// The bitwise OR of the values of all flags of `s`.
pub open spec fn mask_of<K: OptionKind>(s: Set<K>) -> u32 {
    mask_upto(s, K::family_len())
}

/// A set of flags of one family.
#[derive(Debug)]
pub struct OptionSet<K: OptionKind> {
    members: u32,
    kind: PhantomData<K>,
}

impl<K: OptionKind> View for OptionSet<K> {
    type V = Set<K>;

    closed spec fn view(&self) -> Set<K> {
        Set::new(|flag: K| has_bit(self.members, flag.ordinal()))
    }
}

impl<K: OptionKind> Clone for OptionSet<K> {
    fn clone(&self) -> (copy: Self)
        ensures
            copy@ == self@,
    {
        OptionSet { members: self.members, kind: PhantomData }
    }
}

proof fn lemma_set_bit(word: u32, a: u32, b: u32)
    by (bit_vector)
    requires
        a < 32,
        b < 32,
    ensures
        ((word | (1u32 << a)) & (1u32 << b) != 0) == ((word & (1u32 << b) != 0) || a == b),
        0u32 & (1u32 << b) == 0,
{
}

impl<K: OptionKind> OptionSet<K> {
    /// The set without flags.
    pub fn empty() -> (s: Self)
        ensures
            s@ == Set::<K>::empty(),
    {
        let s = OptionSet { members: 0, kind: PhantomData };
        proof {
            assert forall|flag: K| !s@.contains(flag) by {
                flag.lemma_ordinal();
                lemma_set_bit(0, 0, flag.ordinal() as u32);
            }
            assert(s@ =~= Set::<K>::empty());
        }
        s
    }

    /// Puts `flag` into the set.
    pub fn add(&mut self, flag: K)
        ensures
            final(self)@ == old(self)@.insert(flag),
    {
        let n: usize = flag.to_uint();
        proof {
            flag.lemma_ordinal();
        }
        let before: u32 = self.members;
        self.members = before | (1u32 << (n as u32));
        proof {
            assert forall|other: K|
                self@.contains(other) == old(self)@.insert(flag).contains(other) by {
                other.lemma_ordinal();
                lemma_set_bit(before, n as u32, other.ordinal() as u32);
            }
            assert(self@ =~= old(self)@.insert(flag));
        }
    }

    /// Whether `flag` is in the set.
    pub fn contains(&self, flag: K) -> (found: bool)
        ensures
            found == self@.contains(flag),
    {
        let n: usize = flag.to_uint();
        proof {
            flag.lemma_ordinal();
        }
        self.members & (1u32 << (n as u32)) != 0
    }

    /// The flags of the set, in the order of their family.
    pub fn members(&self) -> (flags: Vec<K>)
        ensures
            forall|flag: K| self@.contains(flag) <==> flags@.contains(flag),
            forall|i: int, j: int|
                0 <= i < j < flags@.len() ==> flags@[i].ordinal() < flags@[j].ordinal(),
    {
        let size: usize = K::family_size();
        let mut flags: Vec<K> = Vec::new();
        let mut n: usize = 1;
        proof {
            assert forall|flag: K| flag.ordinal() >= 1 by {
                flag.lemma_ordinal();
            }
        }
        while n <= size
            invariant
                1 <= n <= size + 1,
                size == K::family_len(),
                size < 32,
                forall|i: int| 0 <= i < flags@.len() ==> self@.contains(#[trigger] flags@[i]),
                forall|i: int| 0 <= i < flags@.len() ==> (#[trigger] flags@[i]).ordinal() < n,
                forall|flag: K|
                    self@.contains(flag) && flag.ordinal() < n ==> flags@.contains(flag),
                forall|i: int, j: int|
                    0 <= i < j < flags@.len() ==> flags@[i].ordinal() < flags@[j].ordinal(),
            decreases size + 1 - n,
        {
            let ghost before = flags@;
            if self.members & (1u32 << (n as u32)) != 0 {
                let flag = K::from_uint(n);
                proof {
                    K::lemma_at_ordinal(n as nat);
                }
                flags.push(flag);
                proof {
                    assert(flags@[before.len() as int] == flag);
                    assert forall|other: K|
                        self@.contains(other) && other.ordinal() < n + 1 implies flags@.contains(
                        other,
                    ) by {
                        if other.ordinal() < n {
                            let i = choose|i: int| 0 <= i < before.len() && before[i] == other;
                            assert(flags@[i] == other);
                        } else {
                            other.lemma_ordinal();
                            assert(other == flag);
                        }
                    }
                }
            } else {
                proof {
                    assert forall|other: K|
                        self@.contains(other) && other.ordinal() < n + 1 implies flags@.contains(
                        other,
                    ) by {
                        if other.ordinal() == n {
                            assert(false);
                        }
                    }
                }
            }
            n = n + 1;
        }
        proof {
            assert forall|flag: K| self@.contains(flag) implies flags@.contains(flag) by {
                flag.lemma_ordinal();
            }
        }
        flags
    }

    /// The bitwise OR of the values of the flags of the set.
    pub fn to_bitmask(&self) -> (mask: u32)
        ensures
            mask == mask_of(self@),
    {
        let size: usize = K::family_size();
        let mut mask: u32 = 0;
        let mut n: usize = 1;
        while n <= size
            invariant
                1 <= n <= size + 1,
                size == K::family_len(),
                size < 32,
                mask == mask_upto(self@, (n - 1) as nat),
            decreases size + 1 - n,
        {
            proof {
                K::lemma_at_ordinal(n as nat);
            }
            if self.members & (1u32 << (n as u32)) != 0 {
                let flag = K::from_uint(n);
                mask = mask | flag.bits();
            } else {
                proof {
                    lemma_or_zero(mask);
                }
            }
            n = n + 1;
        }
        mask
    }
}

proof fn lemma_or_zero(word: u32)
    by (bit_vector)
    ensures
        word | 0u32 == word,
{
}

proof fn lemma_or_facts(a: u32, v: u32, t: u32)
    by (bit_vector)
    ensures
        (a | v) | t == (a | t) | v,
        (a | v) | v == a | v,
        (a | v) & v == v,
        a & v == v ==> (a | t) & v == v,
        0u32 | v == v,
{
}

proof fn lemma_or_bit(a: u32, t: u32, b: u32)
    by (bit_vector)
    requires
        b < 32,
    ensures
        ((a | t) & (1u32 << b) != 0) == ((a & (1u32 << b) != 0) || (t & (1u32 << b) != 0)),
        0u32 & (1u32 << b) == 0,
{
}

/// The value of `flag` where its position is not above `n`, else nothing.
pub open spec fn value_upto<K: OptionKind>(flag: K, n: nat) -> u32 {
    if flag.ordinal() <= n {
        flag.value()
    } else {
        0
    }
}

/// Over the positions up to `n`, putting a flag into a set adds its value to
/// the mask of the set.
pub proof fn lemma_mask_upto_insert<K: OptionKind>(s: Set<K>, flag: K, n: nat)
    requires
        n <= K::family_len(),
    ensures
        mask_upto(s.insert(flag), n) == mask_upto(s, n) | value_upto(flag, n),
    decreases n,
{
    flag.lemma_ordinal();
    if n == 0 {
        lemma_or_zero(0);
    } else {
        let here = K::at_ordinal(n);
        K::lemma_at_ordinal(n);
        lemma_mask_upto_insert(s, flag, (n - 1) as nat);
        let below = mask_upto(s, (n - 1) as nat);
        let term = if s.contains(here) {
            here.value()
        } else {
            0u32
        };
        if here == flag {
            lemma_or_zero(below);
            lemma_or_facts(below, flag.value(), term);
            lemma_or_facts(below, flag.value(), 0);
        } else {
            lemma_or_facts(below, value_upto(flag, (n - 1) as nat), term);
        }
    }
}

/// The set without flags has the mask zero.
pub proof fn lemma_mask_empty<K: OptionKind>(n: nat)
    ensures
        mask_upto(Set::<K>::empty(), n) == 0,
    decreases n,
{
    if n > 0 {
        lemma_mask_empty::<K>((n - 1) as nat);
        lemma_or_zero(0);
    }
}

/// Putting a flag into a set adds its value to the mask of the set.
pub proof fn lemma_mask_insert<K: OptionKind>(s: Set<K>, flag: K)
    ensures
        mask_of(s.insert(flag)) == mask_of(s) | flag.value(),
        mask_of(Set::<K>::empty()) == 0,
{
    flag.lemma_ordinal();
    lemma_mask_upto_insert(s, flag, K::family_len());
    lemma_mask_empty::<K>(K::family_len());
}

/// The mask of a set holds every bit of the value of each of its flags.
pub proof fn lemma_mask_covers<K: OptionKind>(s: Set<K>, flag: K)
    requires
        s.contains(flag),
    ensures
        mask_of(s) & flag.value() == flag.value(),
{
    assert(s.insert(flag) =~= s);
    lemma_mask_insert(s, flag);
    lemma_or_facts(mask_of(s), flag.value(), 0);
}

/// Every bit of the mask of a set over the positions up to `n` is a bit of the
/// value of one of its flags.
pub proof fn lemma_mask_upto_origin<K: OptionKind>(s: Set<K>, n: nat, bit: nat)
    requires
        has_bit(mask_upto(s, n), bit),
    ensures
        exists|flag: K| s.contains(flag) && has_bit(flag.value(), bit),
    decreases n,
{
    if n == 0 {
        lemma_or_bit(0, 0, bit as u32);
    } else {
        let here = K::at_ordinal(n);
        let below = mask_upto(s, (n - 1) as nat);
        let term = if s.contains(here) {
            here.value()
        } else {
            0u32
        };
        lemma_or_bit(below, term, bit as u32);
        if has_bit(below, bit) {
            lemma_mask_upto_origin(s, (n - 1) as nat, bit);
        } else {
            assert(s.contains(here) && has_bit(here.value(), bit));
        }
    }
}

/// Every bit of the mask of a set is a bit of the value of one of its flags.
pub proof fn lemma_mask_origin<K: OptionKind>(s: Set<K>, bit: nat)
    requires
        has_bit(mask_of(s), bit),
    ensures
        exists|flag: K| s.contains(flag) && has_bit(flag.value(), bit),
{
    lemma_mask_upto_origin(s, K::family_len(), bit);
}

} // verus!
