//! Plain-value forms of the chain primitives the indexer works with: chain
//! identifiers, account addresses, transaction hashes and token amounts.

use vstd::prelude::*;
use ethers::types::{H160, H256, U256};

verus! {

/// One indexed stream: a staking contract instance on one network.
#[derive(Clone, Copy, Debug, PartialEq, Eq, Structural)]
pub struct Chain {
    pub id: u64,
}

/// A 20-byte account address.
#[derive(Clone, Copy, Debug)]
pub struct Address {
    pub bytes: [u8; 20],
}

impl View for Address {
    type V = Seq<u8>;

    open spec fn view(&self) -> Seq<u8> {
        self.bytes@
    }
}

impl PartialEq for Address {
    fn eq(&self, other: &Address) -> (same: bool) {
        let mut i: usize = 0;
        while i < 20
            invariant
                i <= 20,
                forall|j: int| 0 <= j < i ==> self.bytes@[j] == other.bytes@[j],
            decreases 20 - i,
        {
            if self.bytes[i] != other.bytes[i] {
                return false;
            }
            i += 1;
        }
        assert(self.bytes@ =~= other.bytes@);
        true
    }
}

impl Eq for Address {

}

impl vstd::std_specs::cmp::PartialEqSpecImpl for Address {
    open spec fn obeys_eq_spec() -> bool {
        true
    }

    open spec fn eq_spec(&self, other: &Address) -> bool {
        self@ == other@
    }
}

/// The 32-byte hash of the transaction that emitted a log.
#[derive(Clone, Copy, Debug, PartialEq, Eq)]
pub struct TxHash {
    pub bytes: [u8; 32],
}

impl View for TxHash {
    type V = Seq<u8>;

    open spec fn view(&self) -> Seq<u8> {
        self.bytes@
    }
}

/// The lower-case hexadecimal digit for a value below sixteen.
pub open spec fn hex_digit(nibble: u8) -> char {
    seq!['0', '1', '2', '3', '4', '5', '6', '7', '8', '9', 'a', 'b', 'c', 'd', 'e', 'f'][nibble as int]
}

/// Two lower-case hexadecimal digits per byte, first byte first.
pub open spec fn hex_digits(bytes: Seq<u8>) -> Seq<char>
    decreases bytes.len(),
{
    if bytes.len() == 0 {
        Seq::empty()
    } else {
        hex_digits(bytes.drop_last()).push(hex_digit(bytes.last() / 16)).push(
            hex_digit(bytes.last() % 16),
        )
    }
}

/// The text under which a transaction hash or an address is recorded:
/// `0x` and then the hexadecimal digits of all its bytes.
pub open spec fn hex_text(bytes: Seq<u8>) -> Seq<char> {
    seq!['0', 'x'] + hex_digits(bytes)
}

/// Renders a transaction hash through the `Debug` formatting of `ethers`'
/// `H256`. Trusted: that formatting writes `0x` and then every byte as two
/// lower-case hexadecimal digits, in order, with no abbreviation.
#[verifier::external_body]
pub(crate) fn render_hash(hash: &TxHash) -> (text: String)
    ensures
        text@ == hex_text(hash@),
{
    format!("{:?}", H256(hash.bytes))
}

/// Renders an address through the `Debug` formatting of `ethers`' `H160`.
/// Trusted: that formatting writes `0x` and then every byte as two
/// lower-case hexadecimal digits, in order, with no abbreviation.
#[verifier::external_body]
pub(crate) fn render_address(address: &Address) -> (text: String)
    ensures
        text@ == hex_text(address@),
{
    format!("{:?}", H160(address.bytes))
}

/// An unsigned 256-bit token amount, held as four 64-bit words, least
/// significant first.
#[derive(Clone, Copy, Debug, PartialEq, Eq)]
pub struct Amount {
    pub limbs: [u64; 4],
}

/// The first value too large for an [`Amount`]: two to the power 256.
pub open spec fn amount_limit() -> nat {
    0x1_0000_0000_0000_0000_0000_0000_0000_0000_0000_0000_0000_0000_0000_0000_0000_0000nat
}

/// The number that four 64-bit words denote, least significant word first.
pub open spec fn words_value(words: Seq<u64>) -> nat {
    (words[0] + words[1] * 0x1_0000_0000_0000_0000 + words[2]
        * 0x1_0000_0000_0000_0000_0000_0000_0000_0000 + words[3]
        * 0x1_0000_0000_0000_0000_0000_0000_0000_0000_0000_0000_0000_0000) as nat
}

impl View for Amount {
    type V = nat;

    open spec fn view(&self) -> nat {
        words_value(self.limbs@)
    }
}

impl Amount {
    /// The amount zero.
    pub fn zero() -> (amount: Amount)
        ensures
            amount@ == 0,
    {
        Amount { limbs: [0, 0, 0, 0] }
    }

    /// The amount with the given value.
    pub fn from_u64(value: u64) -> (amount: Amount)
        ensures
            amount@ == value,
    {
        Amount { limbs: [value, 0, 0, 0] }
    }

    /// Every amount lies below [`amount_limit`], and the amount whose four
    /// words are all ones lies right below it: the limit is two to the
    /// power 256 and nothing else.
    pub proof fn lemma_limit_is_tight(self)
        ensures
            self@ < amount_limit(),
            self.limbs@[0] == u64::MAX && self.limbs@[1] == u64::MAX && self.limbs@[2] == u64::MAX
                && self.limbs@[3] == u64::MAX ==> self@ + 1 == amount_limit(),
    {
    }
}

/// The decimal digit for a value below ten.
pub open spec fn decimal_digit(value: nat) -> char {
    seq!['0', '1', '2', '3', '4', '5', '6', '7', '8', '9'][value as int]
}

/// A number in decimal, most significant digit first, with no leading
/// zero; zero is the single digit `0`.
pub open spec fn decimal_text(value: nat) -> Seq<char>
    decreases value,
{
    if value < 10 {
        seq![decimal_digit(value)]
    } else {
        decimal_text(value / 10).push(decimal_digit(value % 10))
    }
}

/// Renders an amount through the `Display` formatting of `ethers`' `U256`.
/// Trusted: that formatting writes the number in decimal, most significant
/// digit first, with no sign, padding or leading zero.
#[verifier::external_body]
pub(crate) fn render_amount(amount: &Amount) -> (text: String)
    ensures
        text@ == decimal_text(amount@),
{
    format!("{}", U256(amount.limbs))
}

/// Adds two amounts with `U256::checked_add` of `ethers`. Trusted: the sum
/// comes back exactly when it fits in 256 bits, and nothing otherwise.
#[verifier::external_body]
pub(crate) fn amount_checked_add(a: &Amount, b: &Amount) -> (sum: Option<Amount>)
    ensures
        sum.is_some() <==> a@ + b@ < amount_limit(),
        sum.is_some() ==> sum.unwrap()@ == a@ + b@,
{
    match U256(a.limbs).checked_add(U256(b.limbs)) {
        Some(total) => Some(Amount { limbs: total.0 }),
        None => None,
    }
}

/// Subtracts `b` from `a` with `U256::checked_sub` of `ethers`. Trusted: the
/// difference comes back exactly when `b` does not exceed `a`, and nothing
/// otherwise.
#[verifier::external_body]
pub(crate) fn amount_checked_sub(a: &Amount, b: &Amount) -> (difference: Option<Amount>)
    ensures
        difference.is_some() <==> b@ <= a@,
        difference.is_some() ==> difference.unwrap()@ == a@ - b@,
{
    match U256(a.limbs).checked_sub(U256(b.limbs)) {
        Some(rest) => Some(Amount { limbs: rest.0 }),
        None => None,
    }
}

} // verus!
