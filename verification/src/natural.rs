//! Unbounded natural numbers as carried by Candid messages (`nat`).
//!
//! A value is kept as little-endian limbs of 64 bits with no trailing zero
//! limb, which is also the form in which Candid's `nat` hands out its digits.
use vstd::prelude::*;

verus! {

/// 2^64, the base of one limb.
pub open spec fn limb_base() -> nat {
    0x1_0000_0000_0000_0000
}

/// The number that little-endian 64-bit limbs stand for.
pub open spec fn limbs_value(limbs: Seq<u64>) -> nat
    decreases limbs.len(),
{
    if limbs.len() == 0 {
        0
    } else {
        limbs[0] as nat + limb_base() * limbs_value(limbs.drop_first())
    }
}

/// No limb past the last one is zero (the empty sequence stands for 0).
pub open spec fn limbs_canonical(limbs: Seq<u64>) -> bool {
    limbs.len() == 0 || limbs.last() != 0
}

/// A natural number of any size.
#[derive(Debug, Clone, PartialEq, Eq)]
pub struct Nat {
    limbs: Vec<u64>,
}

impl View for Nat {
    type V = nat;

    closed spec fn view(&self) -> nat {
        limbs_value(self.limbs@)
    }
}

proof fn lemma_limbs_all_zero(limbs: Seq<u64>)
    requires
        forall|i: int| 0 <= i < limbs.len() ==> limbs[i] == 0,
    ensures
        limbs_value(limbs) == 0,
    decreases limbs.len(),
{
    if limbs.len() > 0 {
        lemma_limbs_all_zero(limbs.drop_first());
    }
}

proof fn lemma_limbs_nonzero(limbs: Seq<u64>, j: int)
    requires
        0 <= j < limbs.len(),
        limbs[j] != 0,
    ensures
        limbs_value(limbs) >= 1,
        j >= 1 ==> limbs_value(limbs) >= limb_base(),
    decreases limbs.len(),
{
    let rest = limbs.drop_first();
    if j == 0 {
        assert(limbs_value(limbs) >= limbs[0] as nat) by (nonlinear_arith)
            requires
                limbs_value(limbs) == limbs[0] as nat + limb_base() * limbs_value(rest),
        ;
    } else {
        assert(rest[j - 1] == limbs[j]);
        lemma_limbs_nonzero(rest, j - 1);
        let v = limbs_value(rest);
        assert(limb_base() * v >= limb_base()) by (nonlinear_arith)
            requires
                v >= 1,
        ;
    }
}

/// Appending a zero limb leaves the value unchanged.
proof fn lemma_limbs_push_zero(limbs: Seq<u64>)
    ensures
        limbs_value(limbs.push(0)) == limbs_value(limbs),
    decreases limbs.len(),
{
    if limbs.len() == 0 {
        assert(limbs.push(0).drop_first() =~= Seq::<u64>::empty());
        assert(limbs_value(Seq::<u64>::empty()) == 0);
        assert(limbs_value(limbs.push(0)) == 0);
    } else {
        assert(limbs.push(0).drop_first() =~= limbs.drop_first().push(0));
        lemma_limbs_push_zero(limbs.drop_first());
    }
}

impl Nat {
    /// The limbs, least significant first, with no trailing zero limb.
    pub closed spec fn spec_limbs(&self) -> Seq<u64> {
        self.limbs@
    }

    /// The number `x`.
    pub fn from_u64(x: u64) -> (n: Nat)
        ensures
            n@ == x as nat,
            limbs_canonical(n.spec_limbs()),
    {
        let mut limbs: Vec<u64> = Vec::new();
        if x != 0 {
            limbs.push(x);
        }
        proof {
            if x != 0 {
                assert(limbs@.drop_first() =~= Seq::<u64>::empty());
                assert(limbs_value(Seq::<u64>::empty()) == 0);
                assert(limbs_value(limbs@) == x as nat);
            } else {
                assert(limbs@ =~= Seq::<u64>::empty());
            }
        }
        Nat { limbs }
    }

    /// The number whose little-endian 64-bit limbs are `limbs`; trailing zero
    /// limbs are dropped.
    pub fn from_limbs(limbs: Vec<u64>) -> (n: Nat)
        ensures
            n@ == limbs_value(limbs@),
            limbs_canonical(n.spec_limbs()),
    {
        let mut limbs = limbs;
        let ghost given = limbs@;
        while limbs.len() > 0 && limbs[limbs.len() - 1] == 0
            invariant
                limbs_value(limbs@) == limbs_value(given),
            decreases limbs.len(),
        {
            let ghost before = limbs@;
            limbs.pop();
            proof {
                assert(before =~= limbs@.push(0));
                lemma_limbs_push_zero(limbs@);
            }
        }
        Nat { limbs }
    }

    /// The limbs, least significant first, with no trailing zero limb.
    pub fn limbs(&self) -> (r: &Vec<u64>)
        ensures
            r@ == self.spec_limbs(),
    {
        &self.limbs
    }

    /// The number as a `u64`, or `None` where it does not fit.
    pub fn to_u64(&self) -> (r: Option<u64>)
        ensures
            r == (if self@ <= u64::MAX {
                Some(self@ as u64)
            } else {
                None::<u64>
            }),
    {
        let n = self.limbs.len();
        if n == 0 {
            proof {
                lemma_limbs_all_zero(self.limbs@);
            }
            return Some(0);
        }
        let mut i: usize = 1;
        while i < n
            invariant
                1 <= i <= n,
                n == self.limbs@.len(),
                forall|j: int| 1 <= j < i ==> self.limbs@[j] == 0,
            decreases n - i,
        {
            if self.limbs[i] != 0 {
                proof {
                    lemma_limbs_nonzero(self.limbs@, i as int);
                }
                return None;
            }
            i = i + 1;
        }
        proof {
            let rest = self.limbs@.drop_first();
            assert forall|j: int| 0 <= j < rest.len() implies rest[j] == 0 by {
                assert(rest[j] == self.limbs@[j + 1]);
            }
            lemma_limbs_all_zero(rest);
        }
        Some(self.limbs[0])
    }
}

} // verus!
