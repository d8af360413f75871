//! Sets of candidate digits, kept as a mask of nine bits.

use vstd::prelude::*;

verus! {

/// Mask in which every digit from 1 to 9 is present.
pub const ALL_DIGITS: u16 = 0x1ff;

/// A digit is a value from 1 to 9.
pub open spec fn is_digit(d: int) -> bool {
    1 <= d <= 9
}

/// Whether `mask` holds the digit `d`: digit `d` has the bit `d - 1`.
pub open spec fn mask_has(mask: u16, d: int) -> bool {
    is_digit(d) && (mask >> ((d - 1) as u16)) & 1 == 1
}

/// The members of `s` that are at most `n`.
pub open spec fn up_to(s: Set<int>, n: int) -> Set<int> {
    s.filter(|d: int| d <= n)
}

/// The set with `d` added when it was absent, and taken out when it was
/// present.
pub open spec fn toggled(s: Set<int>, d: int) -> Set<int> {
    if s.contains(d) {
        s.remove(d)
    } else {
        s.insert(d)
    }
}

/// A set of digits from 1 to 9.
#[derive(Clone, Copy, Debug, PartialEq, Eq, Hash)]
pub struct CandidateSet {
    bits: u16,
}

impl View for CandidateSet {
    type V = Set<int>;

    closed spec fn view(&self) -> Set<int> {
        Set::new(|d: int| mask_has(self.bits, d))
    }
}

impl CandidateSet {
    /// The mask behind the set.
    pub closed spec fn mask(&self) -> u16 {
        self.bits
    }

    /// A well-formed set has no bit above the ninth.
    pub closed spec fn wf(&self) -> bool {
        self.bits <= ALL_DIGITS
    }

    /// The set holds exactly the digits of its mask; it is finite and holds
    /// digits only.
    pub proof fn lemma_view(&self)
        ensures
            forall|d: int| #[trigger] self@.contains(d) <==> mask_has(self.mask(), d),
            forall|d: int| #[trigger] self@.contains(d) ==> is_digit(d),
            self@.finite(),
            self@.len() <= 9,
            self.wf() <==> self.mask() <= ALL_DIGITS,
    {
        lemma_up_to_finite(self@, 1, 9);
        assert(up_to(self@, 9) =~= self@);
    }

    /// The empty set.
    pub fn none() -> (s: CandidateSet)
        ensures
            s@ == Set::<int>::empty(),
            s.wf(),
            s.mask() == 0,
    {
        let s = CandidateSet { bits: 0 };
        proof {
            assert forall|d: int| !mask_has(0u16, d) by {
                if is_digit(d) {
                    let i = (d - 1) as u16;
                    assert((0u16 >> i) & 1 == 0) by (bit_vector);
                }
            }
            assert(s@ =~= Set::<int>::empty());
        }
        s
    }

    /// The set of all nine digits.
    pub fn all() -> (s: CandidateSet)
        ensures
            s@ == Set::new(|d: int| is_digit(d)),
            s.wf(),
            s.mask() == ALL_DIGITS,
    {
        let s = CandidateSet { bits: ALL_DIGITS };
        proof {
            assert forall|d: int| is_digit(d) implies mask_has(0x1ffu16, d) by {
                let i = (d - 1) as u16;
                assert((0x1ffu16 >> i) & 1 == 1) by (bit_vector)
                    requires
                        i < 9,
                ;
            }
            assert(s@ =~= Set::new(|d: int| is_digit(d)));
        }
        s
    }

    /// The set behind a mask, where the mask has no bit above the ninth.
    pub fn from_bits(mask: u16) -> (r: Option<CandidateSet>)
        ensures
            r.is_some() <==> mask <= ALL_DIGITS,
            r matches Some(s) ==> s.mask() == mask && s.wf(),
    {
        if mask <= ALL_DIGITS {
            Some(CandidateSet { bits: mask })
        } else {
            None
        }
    }

    /// The mask of the set: digit `d` has the bit `d - 1`.
    pub fn bits(&self) -> (mask: u16)
        ensures
            mask == self.mask(),
    {
        self.bits
    }

    /// Whether the set holds `digit`.
    pub fn contains(&self, digit: u8) -> (r: bool)
        ensures
            r == self@.contains(digit as int),
    {
        if 1 <= digit && digit <= 9 {
            (self.bits >> ((digit - 1) as u16)) & 1 == 1
        } else {
            false
        }
    }

    /// Toggles `digit`: a digit that is present leaves the set, an absent one
    /// enters it.
    pub fn insert(&mut self, digit: u8)
        requires
            is_digit(digit as int),
        ensures
            final(self)@ == toggled(old(self)@, digit as int),
            old(self).wf() ==> final(self).wf(),
    {
        let i: u16 = (digit - 1) as u16;
        let a: u16 = self.bits;
        self.bits = a ^ (1u16 << i);
        proof {
            let b = self.bits;
            assert forall|d: int| mask_has(b, d) == toggled(old(self)@, digit as int).contains(d) by {
                if is_digit(d) {
                    let j = (d - 1) as u16;
                    assert((((a ^ (1u16 << i)) >> j) & 1 == 1) == (if j == i {
                        !((a >> j) & 1 == 1)
                    } else {
                        (a >> j) & 1 == 1
                    })) by (bit_vector)
                        requires
                            i < 9,
                            j < 9,
                    ;
                }
            }
            assert(self@ =~= toggled(old(self)@, digit as int));
            assert(a <= 0x1ffu16 ==> (a ^ (1u16 << i)) <= 0x1ffu16) by (bit_vector)
                requires
                    i < 9,
            ;
        }
    }

    /// Takes `digit` out of the set.
    pub fn remove(&mut self, digit: u8)
        requires
            is_digit(digit as int),
        ensures
            final(self)@ == old(self)@.remove(digit as int),
            old(self).wf() ==> final(self).wf(),
    {
        let i: u16 = (digit - 1) as u16;
        let a: u16 = self.bits;
        self.bits = a & !(1u16 << i);
        proof {
            let b = self.bits;
            assert forall|d: int| mask_has(b, d) == old(self)@.remove(digit as int).contains(d) by {
                if is_digit(d) {
                    let j = (d - 1) as u16;
                    assert((((a & !(1u16 << i)) >> j) & 1 == 1) == (j != i && (a >> j) & 1 == 1))
                        by (bit_vector)
                        requires
                            i < 9,
                            j < 9,
                    ;
                }
            }
            assert(self@ =~= old(self)@.remove(digit as int));
            assert(a <= 0x1ffu16 ==> (a & !(1u16 << i)) <= 0x1ffu16) by (bit_vector)
                requires
                    i < 9,
            ;
        }
    }

    /// The number of digits in the set.
    pub fn len(&self) -> (n: u8)
        ensures
            n == self@.len(),
            n <= 9,
    {
        let mut n: u8 = 0;
        let mut digit: u8 = 1;
        proof {
            lemma_up_to_finite(self@, 1, 0);
            assert(up_to(self@, 0) =~= Set::<int>::empty());
        }
        while digit <= 9
            invariant
                1 <= digit <= 10,
                n < digit,
                n == up_to(self@, digit - 1).len(),
            decreases 10 - digit,
        {
            proof {
                lemma_up_to_finite(self@, 1, digit - 1);
                lemma_up_to_step(self@, digit as int);
            }
            if self.contains(digit) {
                n = n + 1;
            }
            digit = digit + 1;
        }
        proof {
            assert(up_to(self@, 9) =~= self@);
        }
        n
    }

    /// Whether the set holds no digit.
    pub fn is_empty(&self) -> (r: bool)
        ensures
            r == (self@ == Set::<int>::empty()),
            r == (self@.len() == 0),
    {
        proof {
            self.lemma_view();
            if self@.len() == 0 {
                self@.lemma_len0_is_empty();
                assert(self@ =~= Set::<int>::empty());
            }
        }
        self.len() == 0
    }
}

/// Of a set of numbers from `low` on, those that are at most `n` are
/// finitely many: no more than there are numbers from `low` to `n`.
pub proof fn lemma_up_to_finite(s: Set<int>, low: int, n: int)
    requires
        forall|d: int| #[trigger] s.contains(d) ==> low <= d,
        n >= low - 1,
    ensures
        up_to(s, n).finite(),
        up_to(s, n).len() <= n - low + 1,
    decreases n - low + 1,
{
    if n == low - 1 {
        assert(up_to(s, n) =~= Set::<int>::empty());
    } else {
        lemma_up_to_finite(s, low, n - 1);
        lemma_up_to_step(s, n);
    }
}

/// Going from `n - 1` to `n` adds the number `n` where the set holds it.
pub proof fn lemma_up_to_step(s: Set<int>, n: int)
    requires
        up_to(s, n - 1).finite(),
    ensures
        up_to(s, n).finite(),
        up_to(s, n).len() == up_to(s, n - 1).len() + (if s.contains(n) {
            1int
        } else {
            0int
        }),
{
    if s.contains(n) {
        assert(up_to(s, n) =~= up_to(s, n - 1).insert(n));
    } else {
        assert(up_to(s, n) =~= up_to(s, n - 1));
    }
}

} // verus!
