//! Deterministic derivation of custodial accounts.
//!
//! The relay chain's custodial account is the tag `b"Relay"` followed by
//! zeroes; a sibling parachain's is the tag `b"para"`, the little-endian bytes
//! of its id, then zeroes. Anyone can compute these addresses.

use vstd::prelude::*;

use crate::AccountId;

verus! {

/// The bytes `b"Relay"`.
pub open spec fn relay_tag() -> Seq<u8> {
    seq![82u8, 101u8, 108u8, 97u8, 121u8]
}

/// The bytes `b"para"`.
pub open spec fn para_tag() -> Seq<u8> {
    seq![112u8, 97u8, 114u8, 97u8]
}

pub open spec fn zeros(n: nat) -> Seq<u8> {
    Seq::new(n, |i: int| 0u8)
}

/// Little-endian bytes of a `u32`.
pub open spec fn u32_le_bytes(x: u32) -> Seq<u8> {
    seq![(x & 0xff) as u8, ((x >> 8u32) & 0xff) as u8, ((x >> 16u32) & 0xff) as u8, ((x >> 24u32) & 0xff) as u8]
}

/// The `u32` whose little-endian bytes are `b[0..4]`.
pub open spec fn u32_from_le(b: Seq<u8>) -> u32
    recommends
        b.len() >= 4,
{
    (b[0] as u32) | ((b[1] as u32) << 8u32) | ((b[2] as u32) << 16u32) | ((b[3] as u32) << 24u32)
}

/// The relay chain's custodial account.
pub open spec fn relay_account_bytes() -> Seq<u8> {
    relay_tag() + zeros(27)
}

/// The custodial account of the parachain `id`.
pub open spec fn para_account_bytes(id: u32) -> Seq<u8> {
    para_tag() + u32_le_bytes(id) + zeros(24)
}

/// A domain that owns a custodial account on this chain.
#[derive(Clone, Copy, Debug, PartialEq, Eq)]
pub enum DomainTag {
    Relay,
    Parachain(u32),
}

/// The custodial account of a domain.
pub open spec fn domain_account_bytes(t: DomainTag) -> Seq<u8> {
    match t {
        DomainTag::Relay => relay_account_bytes(),
        DomainTag::Parachain(id) => para_account_bytes(id),
    }
}

pub proof fn lemma_u32_le_round_trip(x: u32)
    ensures
        u32_from_le(u32_le_bytes(x)) == x,
{
    let b0 = (x & 0xff) as u8;
    let b1 = ((x >> 8u32) & 0xff) as u8;
    let b2 = ((x >> 16u32) & 0xff) as u8;
    let b3 = ((x >> 24u32) & 0xff) as u8;
    assert((b0 as u32) | ((b1 as u32) << 8u32) | ((b2 as u32) << 16u32) | ((b3 as u32) << 24u32)
        == x) by (bit_vector)
        requires
            b0 == (x & 0xff) as u8,
            b1 == ((x >> 8u32) & 0xff) as u8,
            b2 == ((x >> 16u32) & 0xff) as u8,
            b3 == ((x >> 24u32) & 0xff) as u8,
    ;
}

pub proof fn lemma_u32_le_bytes_of_decoded(b: Seq<u8>)
    requires
        b.len() == 4,
    ensures
        u32_le_bytes(u32_from_le(b)) == b,
{
    let b0 = b[0];
    let b1 = b[1];
    let b2 = b[2];
    let b3 = b[3];
    let x = u32_from_le(b);
    assert(((x & 0xff) as u8) == b0 && (((x >> 8u32) & 0xff) as u8) == b1 && (((x >> 16u32)
        & 0xff) as u8) == b2 && (((x >> 24u32) & 0xff) as u8) == b3) by (bit_vector)
        requires
            x == (b0 as u32) | ((b1 as u32) << 8u32) | ((b2 as u32) << 16u32) | ((b3 as u32)
                << 24u32),
    ;
    assert(u32_le_bytes(x) =~= b);
}

/// Derivation is injective: distinct domains own distinct custodial accounts.
pub proof fn lemma_domain_accounts_distinct(s: DomainTag, t: DomainTag)
    ensures
        domain_account_bytes(s) == domain_account_bytes(t) <==> s == t,
{
    if domain_account_bytes(s) == domain_account_bytes(t) {
        match (s, t) {
            (DomainTag::Parachain(a), DomainTag::Parachain(b)) => {
                let sa = para_account_bytes(a);
                let sb = para_account_bytes(b);
                assert(sa.subrange(4, 8) =~= u32_le_bytes(a));
                assert(sb.subrange(4, 8) =~= u32_le_bytes(b));
                lemma_u32_le_round_trip(a);
                lemma_u32_le_round_trip(b);
            },
            (DomainTag::Relay, DomainTag::Parachain(b)) => {
                assert(domain_account_bytes(s)[0] != domain_account_bytes(t)[0]);
            },
            (DomainTag::Parachain(a), DomainTag::Relay) => {
                assert(domain_account_bytes(s)[0] != domain_account_bytes(t)[0]);
            },
            _ => {},
        }
    }
}

/// Derivation depends on the domain alone: two accounts derived for one
/// domain are byte-identical.
pub proof fn lemma_derivation_deterministic(t: DomainTag, a: AccountId, b: AccountId)
    requires
        a@ == domain_account_bytes(t),
        b@ == domain_account_bytes(t),
    ensures
        a == b,
{
    assert(a =~= b);
}

pub(crate) fn bytes_zero_from(a: &AccountId, start: usize) -> (r: bool)
    requires
        start <= 32,
    ensures
        r == (forall|i: int| start <= i < 32 ==> a@[i] == 0),
{
    let mut i: usize = start;
    while i < 32
        invariant
            start <= i <= 32,
            forall|j: int| start <= j < i ==> a@[j] == 0,
        decreases 32 - i,
    {
        if a[i] != 0 {
            return false;
        }
        i = i + 1;
    }
    true
}

/// The identifier of the relay chain's custodial account.
#[derive(Clone, Copy, Debug, PartialEq, Eq)]
pub struct RelayAccount();

impl Default for RelayAccount {
    fn default() -> (r: Self) {
        RelayAccount()
    }
}

impl RelayAccount {
    /// `b"Relay"` followed by zeroes.
    pub fn into_account(&self) -> (r: AccountId)
        ensures
            r@ == relay_account_bytes(),
    {
        let mut a: AccountId = [0u8; 32];
        a[0] = 82;
        a[1] = 101;
        a[2] = 108;
        a[3] = 97;
        a[4] = 121;
        assert(a@ =~= relay_account_bytes());
        a
    }

    /// `Some` exactly when `x` is the relay chain's custodial account.
    pub fn try_from_account(x: &AccountId) -> (r: Option<RelayAccount>)
        ensures
            r is Some <==> x@ == relay_account_bytes(),
    {
        if x[0] == 82 && x[1] == 101 && x[2] == 108 && x[3] == 97 && x[4] == 121
            && bytes_zero_from(x, 5) {
            assert(x@ =~= relay_account_bytes());
            Some(RelayAccount())
        } else {
            assert(x@ != relay_account_bytes() ) by {
                if x@ == relay_account_bytes() {
                    assert(x@[0] == 82 && x@[1] == 101 && x@[2] == 108 && x@[3] == 97 && x@[4] == 121);
                    assert forall|i: int| 5 <= i < 32 implies x@[i] == 0 by {
                        assert(relay_account_bytes()[i] == zeros(27)[i - 5]);
                    }
                }
            }
            None
        }
    }
}

/// Identifier of a parachain.
#[derive(Clone, Copy, Debug, PartialEq, Eq)]
pub struct ParaId(pub u32);

impl From<u32> for ParaId {
    fn from(x: u32) -> (r: ParaId) {
        ParaId(x)
    }
}

impl vstd::std_specs::convert::FromSpecImpl<u32> for ParaId {
    open spec fn obeys_from_spec() -> bool {
        true
    }

    open spec fn from_spec(x: u32) -> ParaId {
        ParaId(x)
    }
}

impl ParaId {
    /// `b"para"`, the little-endian id, then zeroes.
    pub fn into_account(&self) -> (r: AccountId)
        ensures
            r@ == para_account_bytes(self.0),
    {
        let id = self.0;
        let mut a: AccountId = [0u8; 32];
        a[0] = 112;
        a[1] = 97;
        a[2] = 114;
        a[3] = 97;
        a[4] = (id & 0xff) as u8;
        a[5] = ((id >> 8u32) & 0xff) as u8;
        a[6] = ((id >> 16u32) & 0xff) as u8;
        a[7] = ((id >> 24u32) & 0xff) as u8;
        assert(a@ =~= para_account_bytes(id));
        a
    }

    /// The parachain whose custodial account `x` is, if any.
    pub fn try_from_account(x: &AccountId) -> (r: Option<ParaId>)
        ensures
            match r {
                Some(p) => x@ == para_account_bytes(p.0),
                None => forall|id: u32| x@ != para_account_bytes(id),
            },
    {
        if x[0] == 112 && x[1] == 97 && x[2] == 114 && x[3] == 97 && bytes_zero_from(x, 8) {
            let id: u32 = (x[4] as u32) | ((x[5] as u32) << 8u32) | ((x[6] as u32) << 16u32) | ((
            x[7] as u32) << 24u32);
            proof {
                let b = x@.subrange(4, 8);
                assert(id == u32_from_le(b));
                lemma_u32_le_bytes_of_decoded(b);
                assert(x@ =~= para_account_bytes(id));
            }
            Some(ParaId(id))
        } else {
            assert forall|id: u32| x@ != para_account_bytes(id) by {
                if x@ == para_account_bytes(id) {
                    assert(x@[0] == 112 && x@[1] == 97 && x@[2] == 114 && x@[3] == 97);
                    assert forall|i: int| 8 <= i < 32 implies x@[i] == 0 by {
                        assert(para_account_bytes(id)[i] == zeros(24)[i - 8]);
                    }
                }
            }
            None
        }
    }
}

/// The custodial account of a domain.
pub fn derive_domain_account(t: DomainTag) -> (r: AccountId)
    ensures
        r@ == domain_account_bytes(t),
{
    match t {
        DomainTag::Relay => RelayAccount().into_account(),
        DomainTag::Parachain(id) => ParaId(id).into_account(),
    }
}

/// The domain whose custodial account `x` is; `None` when it is no domain's.
pub fn try_recover_domain(x: &AccountId) -> (r: Option<DomainTag>)
    ensures
        match r {
            Some(t) => x@ == domain_account_bytes(t),
            None => forall|t: DomainTag| x@ != domain_account_bytes(t),
        },
{
    if RelayAccount::try_from_account(x).is_some() {
        return Some(DomainTag::Relay);
    }
    match ParaId::try_from_account(x) {
        Some(p) => Some(DomainTag::Parachain(p.0)),
        None => {
            assert forall|t: DomainTag| x@ != domain_account_bytes(t) by {
                match t {
                    DomainTag::Relay => {},
                    DomainTag::Parachain(id) => {},
                }
            }
            None
        },
    }
}

} // verus!
