use vstd::prelude::*;

use crate::store::StoreKey;

verus! {

/// Compares two byte arrays element by element.
fn bytes_equal<const N: usize>(a: &[u8; N], b: &[u8; N]) -> (r: bool)
    ensures
        r == (*a == *b),
{
    let mut i: usize = 0;
    while i < N
        invariant
            0 <= i <= N,
            forall|j: int| 0 <= j < i ==> a[j] == b[j],
        decreases N - i,
    {
        if a[i] != b[i] {
            return false;
        }
        i = i + 1;
    }
    assert(*a =~= *b);
    true
}

/// Opaque 32-byte identifier of a market.
#[derive(Clone, Copy, Debug)]
pub struct MarketId {
    pub bytes: [u8; 32],
}

/// Identity of a principal (trader, liquidity provider, oracle, admin):
/// the 56 characters of its account or contract address.
#[derive(Clone, Copy, Debug)]
pub struct AccountId {
    pub bytes: [u8; 56],
}

/// Key of a trader's holding of one outcome in one market.
#[derive(Clone, Copy, Debug)]
pub struct PositionKey {
    pub user: AccountId,
    pub market: MarketId,
    pub outcome: u32,
}

/// Key of a liquidity provider's share balance in one market.
#[derive(Clone, Copy, Debug)]
pub struct LpKey {
    pub market: MarketId,
    pub provider: AccountId,
}

impl StoreKey for MarketId {
    fn same_key(&self, other: &Self) -> (r: bool) {
        let r = bytes_equal(&self.bytes, &other.bytes);
        proof {
            if r {
                assert(*self == *other);
            }
        }
        r
    }
}

impl StoreKey for AccountId {
    fn same_key(&self, other: &Self) -> (r: bool) {
        let r = bytes_equal(&self.bytes, &other.bytes);
        proof {
            if r {
                assert(*self == *other);
            }
        }
        r
    }
}

impl StoreKey for PositionKey {
    fn same_key(&self, other: &Self) -> (r: bool) {
        self.outcome == other.outcome && self.user.same_key(&other.user) && self.market.same_key(
            &other.market,
        )
    }
}

impl StoreKey for LpKey {
    fn same_key(&self, other: &Self) -> (r: bool) {
        self.market.same_key(&other.market) && self.provider.same_key(&other.provider)
    }
}

} // verus!
