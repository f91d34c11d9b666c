//! Account addresses and transaction identifiers: fixed runs of bytes that are
//! only ever compared and carried along.

use ethers::types::H160;
use vstd::prelude::*;

verus! {

/// Whether two byte arrays of one length hold the same bytes.
pub fn same_bytes<const N: usize>(a: &[u8; N], b: &[u8; N]) -> (r: bool)
    ensures
        r == (a@ == b@),
{
    let mut i: usize = 0;
    while i < N
        invariant
            i <= N,
            forall|j: int| 0 <= j < i ==> a@[j] == b@[j],
        decreases N - i,
    {
        if a[i] != b[i] {
            assert(a@[i as int] != b@[i as int]);
            return false;
        }
        i += 1;
    }
    assert(a@ =~= b@);
    true
}

/// Why a configuration is not accepted. Such an error ends the start-up.
#[derive(Clone, Copy, Debug, PartialEq, Eq, Structural)]
pub enum ConfigurationError {
    /// A text that should be an address is none.
    InvalidAddress,
    /// A share given in basis points is above 10,000.
    InvalidSetting,
}

/// A 20-byte account or contract address.
#[derive(Clone, Copy, Debug)]
pub struct Address {
    pub bytes: [u8; 20],
}

impl View for Address {
    type V = Seq<u8>;

    open spec fn view(&self) -> Seq<u8> {
        self.bytes@
    }
}

/// A 32-byte transaction identifier.
#[derive(Clone, Copy, Debug)]
pub struct TxHash {
    pub bytes: [u8; 32],
}

impl View for TxHash {
    type V = Seq<u8>;

    open spec fn view(&self) -> Seq<u8> {
        self.bytes@
    }
}

/// What `H160`'s `FromStr` makes of a text: the twenty bytes written as forty
/// hexadecimal digits, in upper or lower case, after an optional leading
/// `0x`, where blanks, tabs and line ends among the digits are passed over;
/// `None` for a text that it refuses.
pub uninterp spec fn hex_address(text: Seq<char>) -> Option<Seq<u8>>;

/// `<H160 as FromStr>::from_str`: the address written in `text`, or `None`
/// where `from_str` returns an error. Nothing is claimed of which texts are
/// addresses, only that the answer depends on the text alone.
#[verifier::external_body]
fn parse_h160(text: &str) -> (r: Option<Address>)
    ensures
        r matches Some(a) ==> hex_address(text@) == Some(a@),
        r is None ==> hex_address(text@) is None,
{
    match text.parse::<H160>() {
        Ok(h) => Some(Address { bytes: h.0 }),
        Err(_) => None,
    }
}

impl Address {
    /// The address made of these bytes.
    pub fn from_bytes(bytes: [u8; 20]) -> (r: Address)
        ensures
            r@ == bytes@,
    {
        Address { bytes }
    }

    /// The address written in `text` as hexadecimal digits, if it is one.
    pub fn from_hex(text: &str) -> (r: Option<Address>)
        ensures
            r matches Some(a) ==> hex_address(text@) == Some(a@),
            r is None ==> hex_address(text@) is None,
    {
        parse_h160(text)
    }

    /// Whether both are the same address.
    pub fn eq(&self, other: &Address) -> (r: bool)
        ensures
            r == (self@ == other@),
    {
        same_bytes(&self.bytes, &other.bytes)
    }
}

impl TxHash {
    /// The identifier made of these bytes.
    pub fn from_bytes(bytes: [u8; 32]) -> (r: TxHash)
        ensures
            r@ == bytes@,
    {
        TxHash { bytes }
    }

    /// Whether both name the same transaction.
    pub fn eq(&self, other: &TxHash) -> (r: bool)
        ensures
            r == (self@ == other@),
    {
        same_bytes(&self.bytes, &other.bytes)
    }
}

} // verus!
