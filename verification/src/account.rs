use vstd::prelude::*;

verus! {

/// A Stellar address (an account `G...` or a contract `C...`), held as the
/// 56 ASCII characters of its strkey, packed big-endian: characters 0-15 in
/// `k0`, 16-31 in `k1`, 32-47 in `k2` and 48-55 in `k3`.
///
/// Two addresses are the same exactly when their strkeys are, so `==` on this
/// type is address equality.
#[derive(Clone, Copy, Debug, PartialEq, Eq, Structural)]
pub struct Account {
    pub k0: u128,
    pub k1: u128,
    pub k2: u128,
    pub k3: u64,
}

} // verus!
