//! Opaque 128-bit topic identifiers, handled as two 64-bit halves.

use vstd::prelude::*;

verus! {

/// A caller-supplied, immutable 128-bit identifier for a topic.
#[derive(Clone, Copy, PartialEq, Eq, Structural, Debug)]
pub struct Uuid {
    raw: u128,
}

/// The value a high and a low 64-bit half stand for.
pub open spec fn combine(hi: u64, lo: u64) -> u128 {
    (hi * 0x1_0000_0000_0000_0000 + lo) as u128
}

impl Uuid {
    /// The identifier as a single 128-bit integer.
    pub closed spec fn spec_raw(&self) -> u128 {
        self.raw
    }

    pub fn as_u128(&self) -> (r: u128)
        ensures
            r == self.spec_raw(),
    {
        self.raw
    }

    /// Relies on uuid::Uuid::new_v4 for a freshly drawn random identifier;
    /// nothing can be promised of the value.
    #[verifier::external_body]
    pub fn new_v4() -> Self {
        Self { raw: ::uuid::Uuid::new_v4().as_u128() }
    }

    pub fn new(hi: u64, lo: u64) -> (r: Self)
        ensures
            r.spec_raw() == combine(hi, lo),
    {
        let h: u128 = hi as u128;
        let l: u128 = lo as u128;
        let raw: u128 = (h << 64) | l;
        proof {
            assert(((hi as u128) << 64) | (lo as u128)
                == ((hi as u128) * 0x1_0000_0000_0000_0000 + (lo as u128)) as u128)
                by (bit_vector);
        }
        Self { raw }
    }

    pub fn split(&self) -> (r: (u64, u64))
        ensures
            self.spec_raw() == combine(r.0, r.1),
    {
        let hi: u128 = self.raw >> 64;
        let lo: u128 = self.raw & 0xffff_ffff_ffff_ffff;
        proof {
            let raw: u128 = self.raw;
            assert(raw == ((((raw >> 64) as u64) as u128) * 0x1_0000_0000_0000_0000
                + (((raw & 0xffff_ffff_ffff_ffff) as u64) as u128)) as u128)
                by (bit_vector);
        }
        (hi as u64, lo as u64)
    }

    pub fn from_u128(raw: u128) -> (r: Self)
        ensures
            r.spec_raw() == raw,
    {
        Self { raw }
    }

    /// The identifier holding a given 128-bit value.
    pub closed spec fn spec_new(raw: u128) -> Uuid {
        Uuid { raw }
    }

    /// `spec_new` yields the value it was given.
    pub proof fn lemma_spec_new(raw: u128)
        ensures
            Uuid::spec_new(raw).spec_raw() == raw,
    {
    }

    /// Identifiers are nothing but their 128-bit value.
    pub proof fn lemma_eq_raw(a: Uuid, b: Uuid)
        requires
            a.spec_raw() == b.spec_raw(),
        ensures
            a == b,
    {
    }

    /// Builds an identifier from anything that exposes two 64-bit halves.
    /// The halves come through an uncontracted trait, so nothing more than
    /// their combination can be said here.
    pub fn from_like<U: UuidLike>(u: &U) -> Self {
        let hi: u64 = u.as_hi();
        let lo: u64 = u.as_lo();
        Self::new(hi, lo)
    }
}

/// A value that exposes a 128-bit identifier as two 64-bit halves. Wire
/// types outside the verified core implement it, so its methods carry no
/// contracts.
pub trait UuidLike {
    fn as_hi(&self) -> u64;

    fn as_lo(&self) -> u64;
}

} // verus!
