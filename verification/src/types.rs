//! The identifier types of the engine: hashes, addresses, container ids,
//! non-fungible keys and log levels.

use vstd::prelude::*;

use crate::bytes::{bytes_eq, clone_bytes, copy_range, u32_le_bytes, u32_to_le};
use crate::hex_str::{hex_decode, hex_encode, hex_of, FromHexError};

verus! {

/// A 32-byte hash value, such as a transaction hash.
pub struct H256(pub Vec<u8>);

impl View for H256 {
    type V = Seq<u8>;

    open spec fn view(&self) -> Seq<u8> {
        self.0@
    }
}

impl H256 {
    pub open spec fn wf(&self) -> bool {
        self@.len() == 32
    }

    pub fn new(data: Vec<u8>) -> (r: Self)
        requires
            data@.len() == 32,
        ensures
            r@ == data@,
            r.wf(),
    {
        H256(data)
    }

    pub fn to_vec(&self) -> (r: Vec<u8>)
        ensures
            r@ == self@,
    {
        clone_bytes(&self.0)
    }

    /// The low-order 26 bytes of the hash.
    pub fn lower_26_bytes(&self) -> (r: Vec<u8>)
        requires
            self.wf(),
        ensures
            r@ == self@.skip(6),
    {
        copy_range(self.0.as_slice(), 6, 32)
    }

    /// The low-order 16 bytes of the hash.
    pub fn lower_16_bytes(&self) -> (r: Vec<u8>)
        requires
            self.wf(),
        ensures
            r@ == self@.skip(16),
    {
        copy_range(self.0.as_slice(), 16, 32)
    }

    pub fn equals(&self, other: &Self) -> (r: bool)
        ensures
            r == (self@ == other@),
    {
        bytes_eq(&self.0, &other.0)
    }
}

impl Clone for H256 {
    fn clone(&self) -> (r: Self)
        ensures
            r@ == self@,
    {
        H256(clone_bytes(&self.0))
    }
}

/// An ECDSA public key, 33 bytes compressed.
pub struct EcdsaPublicKey(pub Vec<u8>);

impl View for EcdsaPublicKey {
    type V = Seq<u8>;

    open spec fn view(&self) -> Seq<u8> {
        self.0@
    }
}

impl EcdsaPublicKey {
    pub fn new(data: Vec<u8>) -> (r: Self)
        ensures
            r@ == data@,
    {
        EcdsaPublicKey(data)
    }

    pub fn to_vec(&self) -> (r: Vec<u8>)
        ensures
            r@ == self@,
    {
        clone_bytes(&self.0)
    }

    pub fn equals(&self, other: &Self) -> (r: bool)
        ensures
            r == (self@ == other@),
    {
        bytes_eq(&self.0, &other.0)
    }
}

impl Clone for EcdsaPublicKey {
    fn clone(&self) -> (r: Self)
        ensures
            r@ == self@,
    {
        EcdsaPublicKey(clone_bytes(&self.0))
    }
}

/// The key of one non-fungible unit: an opaque byte string.
pub struct NonFungibleKey(pub Vec<u8>);

impl View for NonFungibleKey {
    type V = Seq<u8>;

    open spec fn view(&self) -> Seq<u8> {
        self.0@
    }
}

impl NonFungibleKey {
    pub fn new(data: Vec<u8>) -> (r: Self)
        ensures
            r@ == data@,
    {
        NonFungibleKey(data)
    }

    /// A key written as a 128-bit number, in little-endian bytes.
    pub fn from_u128(x: u128) -> (r: Self)
        ensures
            r@ == crate::bytes::u128_le_bytes(x),
    {
        let mut data: Vec<u8> = Vec::new();
        let mut i: usize = 0;
        while i < 16
            invariant
                i <= 16,
                data@ == crate::bytes::u128_le_bytes(x).subrange(0, i as int),
            decreases 16 - i,
        {
            let sh: u32 = 8 * (i as u32);
            data.push(((x >> sh) & 0xff) as u8);
            proof {
                assert(data@ =~= crate::bytes::u128_le_bytes(x).subrange(0, i + 1 as int));
            }
            i = i + 1;
        }
        proof {
            assert(data@ =~= crate::bytes::u128_le_bytes(x));
        }
        NonFungibleKey(data)
    }

    pub fn to_vec(&self) -> (r: Vec<u8>)
        ensures
            r@ == self@,
    {
        clone_bytes(&self.0)
    }

    pub fn equals(&self, other: &Self) -> (r: bool)
        ensures
            r == (self@ == other@),
    {
        bytes_eq(&self.0, &other.0)
    }
}

impl Clone for NonFungibleKey {
    fn clone(&self) -> (r: Self)
        ensures
            r@ == self@,
    {
        NonFungibleKey(clone_bytes(&self.0))
    }
}

/// A transaction-local bucket id.
#[derive(Debug, Clone, Copy, PartialEq, Eq, Structural)]
pub struct Bid(pub u32);

/// A transaction-local proof id.
#[derive(Debug, Clone, Copy, PartialEq, Eq, Structural)]
pub struct Rid(pub u32);

/// A vault id: the transaction hash it was born in, plus a counter.
pub struct Vid(pub H256, pub u32);

impl View for Vid {
    type V = (Seq<u8>, u32);

    open spec fn view(&self) -> (Seq<u8>, u32) {
        (self.0@, self.1)
    }
}

impl Vid {
    pub fn equals(&self, other: &Self) -> (r: bool)
        ensures
            r == (self@ == other@),
    {
        self.1 == other.1 && self.0.equals(&other.0)
    }
}

impl Clone for Vid {
    fn clone(&self) -> (r: Self)
        ensures
            r@ == self@,
    {
        Vid(self.0.clone(), self.1)
    }
}

/// A lazy map id: the transaction hash it was born in, plus a counter.
pub struct Mid(pub H256, pub u32);

impl View for Mid {
    type V = (Seq<u8>, u32);

    open spec fn view(&self) -> (Seq<u8>, u32) {
        (self.0@, self.1)
    }
}

/// An error when parsing a lazy map id.
#[derive(Debug, Clone, PartialEq, Eq, Structural)]
pub enum ParseMidError {
    InvalidHex(FromHexError),
    InvalidLength(usize),
}

impl Mid {
    pub open spec fn wf(&self) -> bool {
        self@.0.len() == 32
    }

    /// The canonical bytes: hash, then counter in little-endian.
    pub open spec fn spec_to_bytes(&self) -> Seq<u8> {
        self@.0 + u32_le_bytes(self@.1)
    }

    pub fn to_vec(&self) -> (r: Vec<u8>)
        ensures
            r@ == self.spec_to_bytes(),
    {
        let mut r = self.0.to_vec();
        let mut ctr = u32_to_le(self.1);
        r.append(&mut ctr);
        r
    }

    pub fn try_from(slice: &[u8]) -> (r: Result<Self, ParseMidError>)
        ensures
            slice@.len() == 36 ==> (r matches Ok(m) && m.wf() && m@.0 == slice@.subrange(0, 32)
                && u32_le_bytes(m@.1) == slice@.subrange(32, 36)),
            slice@.len() != 36 ==> r == Err::<Self, ParseMidError>(
                ParseMidError::InvalidLength(slice@.len() as usize),
            ),
    {
        if slice.len() != 36 {
            Err(ParseMidError::InvalidLength(slice.len()))
        } else {
            let hash = H256::new(copy_range(slice, 0, 32));
            let ctr = crate::bytes::u32_from_le(slice[32], slice[33], slice[34], slice[35]);
            proof {
                crate::bytes::lemma_u32_le_round_trip_bytes(
                    slice@[32],
                    slice@[33],
                    slice@[34],
                    slice@[35],
                );
                assert(u32_le_bytes(crate::bytes::u32_of_le(
                    slice@[32],
                    slice@[33],
                    slice@[34],
                    slice@[35],
                )) =~= slice@.subrange(32, 36));
            }
            Ok(Mid(hash, ctr))
        }
    }

    pub fn from_str(s: &str) -> (r: Result<Self, ParseMidError>)
        ensures
            r is Ok <==> (s@.len() == 72 && (forall|i: int|
                0 <= i < s@.len() ==> crate::hex_str::is_hex_digit(#[trigger] s@[i]))),
            r matches Ok(m) ==> m.wf() && m.spec_to_bytes() == crate::hex_str::hex_bytes_of(
                s@,
            ),
    {
        match hex_decode(s) {
            Ok(data) => {
                match Self::try_from(data.as_slice()) {
                    Ok(m) => {
                        proof {
                            assert(m.spec_to_bytes() =~= data@);
                        }
                        Ok(m)
                    },
                    Err(e) => Err(e),
                }
            },
            Err(e) => Err(ParseMidError::InvalidHex(e)),
        }
    }

    /// The hex rendering of the canonical bytes.
    pub fn to_string(&self) -> (r: String)
        ensures
            r@ == hex_of(self.spec_to_bytes()),
    {
        hex_encode(&self.to_vec())
    }

    pub fn equals(&self, other: &Self) -> (r: bool)
        ensures
            r == (self@ == other@),
    {
        self.1 == other.1 && self.0.equals(&other.0)
    }
}

impl Clone for Mid {
    fn clone(&self) -> (r: Self)
        ensures
            r@ == self@,
    {
        Mid(self.0.clone(), self.1)
    }
}

/// The abstract value of an address: a tagged 26-byte identifier.
pub enum AddressV {
    Package(Seq<u8>),
    Component(Seq<u8>),
    ResourceDef(Seq<u8>),
}

impl AddressV {
    pub open spec fn body(self) -> Seq<u8> {
        match self {
            AddressV::Package(b) => b,
            AddressV::Component(b) => b,
            AddressV::ResourceDef(b) => b,
        }
    }

    pub open spec fn tag(self) -> u8 {
        match self {
            AddressV::Package(_) => 1,
            AddressV::Component(_) => 2,
            AddressV::ResourceDef(_) => 3,
        }
    }

    /// The canonical encoding: one tag byte, then the 26-byte body.
    pub open spec fn to_bytes(self) -> Seq<u8> {
        seq![self.tag()] + self.body()
    }

    pub open spec fn wf(self) -> bool {
        self.body().len() == 26
    }
}

/// An address: a package, a component, or a resource definition.
#[derive(Debug, PartialEq, Eq, Hash)]
pub enum Address {
    Package(Vec<u8>),
    Component(Vec<u8>),
    ResourceDef(Vec<u8>),
}

impl View for Address {
    type V = AddressV;

    open spec fn view(&self) -> AddressV {
        match self {
            Address::Package(b) => AddressV::Package(b@),
            Address::Component(b) => AddressV::Component(b@),
            Address::ResourceDef(b) => AddressV::ResourceDef(b@),
        }
    }
}

/// An error when parsing an address.
#[derive(Debug, Clone, PartialEq, Eq, Structural)]
pub enum ParseAddressError {
    InvalidHex(FromHexError),
    InvalidLength(usize),
    InvalidType(u8),
}

impl Address {
    pub open spec fn wf(&self) -> bool {
        self@.wf()
    }

    /// The canonical 27-byte encoding of this address.
    pub fn to_vec(&self) -> (r: Vec<u8>)
        ensures
            r@ == self@.to_bytes(),
    {
        let (tag, body): (u8, &Vec<u8>) = match self {
            Address::Package(d) => (1u8, d),
            Address::Component(d) => (2u8, d),
            Address::ResourceDef(d) => (3u8, d),
        };
        let mut r: Vec<u8> = Vec::new();
        r.push(tag);
        crate::bytes::push_bytes(&mut r, body);
        proof {
            assert(r@ =~= self@.to_bytes());
        }
        r
    }

    pub fn is_package(&self) -> (r: bool)
        ensures
            r == (self@ matches AddressV::Package(_)),
    {
        matches!(self, Address::Package(_))
    }

    pub fn is_component(&self) -> (r: bool)
        ensures
            r == (self@ matches AddressV::Component(_)),
    {
        matches!(self, Address::Component(_))
    }

    pub fn is_resource_def(&self) -> (r: bool)
        ensures
            r == (self@ matches AddressV::ResourceDef(_)),
    {
        matches!(self, Address::ResourceDef(_))
    }

    /// Reads an address back from its canonical 27-byte encoding.
    pub fn try_from(slice: &[u8]) -> (r: Result<Self, ParseAddressError>)
        ensures
            slice@.len() != 27 ==> r == Err::<Self, ParseAddressError>(
                ParseAddressError::InvalidLength(slice@.len() as usize),
            ),
            slice@.len() == 27 && !(slice@[0] == 1 || slice@[0] == 2 || slice@[0] == 3) ==> r
                == Err::<Self, ParseAddressError>(ParseAddressError::InvalidType(slice@[0])),
            slice@.len() == 27 && (slice@[0] == 1 || slice@[0] == 2 || slice@[0] == 3) ==> (
            r matches Ok(a) && a.wf() && a@.to_bytes() == slice@),
    {
        if slice.len() != 27 {
            return Err(ParseAddressError::InvalidLength(slice.len()));
        }
        let tag = slice[0];
        if tag == 1 || tag == 2 || tag == 3 {
            let body = copy_range(slice, 1, 27);
            let a = if tag == 1 {
                Address::Package(body)
            } else if tag == 2 {
                Address::Component(body)
            } else {
                Address::ResourceDef(body)
            };
            proof {
                assert(a@.to_bytes() =~= slice@);
            }
            Ok(a)
        } else {
            Err(ParseAddressError::InvalidType(tag))
        }
    }

    /// Parses an address from its hex rendering.
    pub fn from_str(s: &str) -> (r: Result<Self, ParseAddressError>)
        ensures
            r is Ok <==> (s@.len() == 54 && (forall|i: int|
                0 <= i < s@.len() ==> crate::hex_str::is_hex_digit(s@[i])) && {
                let tag = crate::hex_str::hex_bytes_of(s@)[0];
                tag == 1 || tag == 2 || tag == 3
            }),
            r matches Ok(a) ==> a.wf() && a@.to_bytes() == crate::hex_str::hex_bytes_of(s@),
    {
        match hex_decode(s) {
            Ok(data) => {
                match Self::try_from(data.as_slice()) {
                    Ok(a) => {
                        proof {
                            assert(a@.to_bytes() =~= data@);
                        }
                        Ok(a)
                    },
                    Err(e) => Err(e),
                }
            },
            Err(e) => Err(ParseAddressError::InvalidHex(e)),
        }
    }

    /// The hex rendering of the canonical encoding.
    pub fn to_string(&self) -> (r: String)
        ensures
            r@ == hex_of(self@.to_bytes()),
    {
        hex_encode(&self.to_vec())
    }

    pub fn equals(&self, other: &Self) -> (r: bool)
        ensures
            r == (self@ == other@),
    {
        match (self, other) {
            (Address::Package(a), Address::Package(b)) => bytes_eq(a, b),
            (Address::Component(a), Address::Component(b)) => bytes_eq(a, b),
            (Address::ResourceDef(a), Address::ResourceDef(b)) => bytes_eq(a, b),
            _ => false,
        }
    }
}

impl Clone for Address {
    fn clone(&self) -> (r: Self)
        ensures
            r@ == self@,
    {
        match self {
            Address::Package(b) => Address::Package(clone_bytes(b)),
            Address::Component(b) => Address::Component(clone_bytes(b)),
            Address::ResourceDef(b) => Address::ResourceDef(clone_bytes(b)),
        }
    }
}

/// Law: the canonical encoding is injective: two well-formed addresses with
/// the same bytes are the same address.
pub proof fn lemma_address_bytes_injective(x: AddressV, y: AddressV)
    requires
        x.wf(),
        y.wf(),
        x.to_bytes() == y.to_bytes(),
    ensures
        x == y,
{
    assert(x.to_bytes()[0] == x.tag());
    assert(y.to_bytes()[0] == y.tag());
    assert(x.body() =~= x.to_bytes().subrange(1, 27));
    assert(y.body() =~= y.to_bytes().subrange(1, 27));
}

/// Law: an address survives the round trip through its hex rendering: the
/// string `to_string` produces satisfies `from_str`'s success condition, and
/// parsing it yields the same address.
pub proof fn lemma_address_string_round_trip(a: Address)
    requires
        a.wf(),
    ensures
        ({
            let s = hex_of(a@.to_bytes());
            &&& s.len() == 54
            &&& forall|i: int|
                0 <= i < s.len() ==> crate::hex_str::is_hex_digit(#[trigger] s[i])
            &&& crate::hex_str::hex_bytes_of(s) == a@.to_bytes()
            &&& crate::hex_str::hex_bytes_of(s)[0] == a@.tag()
        }),
{
    crate::hex_str::lemma_hex_round_trip(a@.to_bytes());
    assert(a@.to_bytes().len() == 27);
    assert(a@.to_bytes()[0] == a@.tag());
}

/// The body of a well-known address: 25 zero bytes, then one distinguishing byte.
pub open spec fn wk_body(last: u8) -> Seq<u8> {
    Seq::new(26, |i: int| if i == 25 { last } else { 0u8 })
}

fn wk_addr_body(last: u8) -> (r: Vec<u8>)
    ensures
        r@ == wk_body(last),
{
    let mut v: Vec<u8> = Vec::new();
    let mut i: usize = 0;
    while i < 25
        invariant
            i <= 25,
            v@.len() == i,
            forall|j: int| 0 <= j < i ==> v@[j] == 0u8,
        decreases 25 - i,
    {
        v.push(0u8);
        i = i + 1;
    }
    v.push(last);
    proof {
        assert(v@ =~= wk_body(last));
    }
    v
}

/// The package which defines the system blueprint.
pub fn system_package() -> (r: Address)
    ensures
        r@ == AddressV::Package(wk_body(1)),
{
    Address::Package(wk_addr_body(1))
}

/// The system component.
pub fn system_component() -> (r: Address)
    ensures
        r@ == AddressV::Component(wk_body(2)),
{
    Address::Component(wk_addr_body(2))
}

/// The package that defines the account blueprint.
pub fn account_package() -> (r: Address)
    ensures
        r@ == AddressV::Package(wk_body(3)),
{
    Address::Package(wk_addr_body(3))
}

/// The native token's resource definition.
pub fn radix_token() -> (r: Address)
    ensures
        r@ == AddressV::ResourceDef(wk_body(4)),
{
    Address::ResourceDef(wk_addr_body(4))
}

/// The resource definition whose keys are transaction signer public keys.
pub fn ecdsa_token() -> (r: Address)
    ensures
        r@ == AddressV::ResourceDef(wk_body(5)),
{
    Address::ResourceDef(wk_addr_body(5))
}

/// The reserved bucket id of the virtual signature bucket.
pub fn ecdsa_token_bid() -> (r: Bid)
    ensures
        r == Bid(0u32),
{
    Bid(0)
}

/// The reserved proof id of the virtual signature proof.
pub fn ecdsa_token_rid() -> (r: Rid)
    ensures
        r == Rid(1u32),
{
    Rid(1)
}

impl View for Bid {
    type V = Bid;

    open spec fn view(&self) -> Bid {
        *self
    }
}

impl View for Rid {
    type V = Rid;

    open spec fn view(&self) -> Rid {
        *self
    }
}

impl crate::assoc::MapKey for Address {
    fn key_eq(&self, other: &Self) -> (r: bool)
        ensures
            r == (self@ == other@),
    {
        self.equals(other)
    }

    fn key_dup(&self) -> (r: Self)
        ensures
            r@ == self@,
    {
        self.clone()
    }
}

impl crate::assoc::MapKey for NonFungibleKey {
    fn key_eq(&self, other: &Self) -> (r: bool)
        ensures
            r == (self@ == other@),
    {
        self.equals(other)
    }

    fn key_dup(&self) -> (r: Self)
        ensures
            r@ == self@,
    {
        self.clone()
    }
}

impl crate::assoc::MapKey for Bid {
    fn key_eq(&self, other: &Self) -> (r: bool)
        ensures
            r == (self@ == other@),
    {
        self.0 == other.0
    }

    fn key_dup(&self) -> (r: Self)
        ensures
            r@ == self@,
    {
        *self
    }
}

impl crate::assoc::MapKey for Rid {
    fn key_eq(&self, other: &Self) -> (r: bool)
        ensures
            r == (self@ == other@),
    {
        self.0 == other.0
    }

    fn key_dup(&self) -> (r: Self)
        ensures
            r@ == self@,
    {
        *self
    }
}

impl crate::assoc::MapKey for Vid {
    fn key_eq(&self, other: &Self) -> (r: bool)
        ensures
            r == (self@ == other@),
    {
        self.equals(other)
    }

    fn key_dup(&self) -> (r: Self)
        ensures
            r@ == self@,
    {
        self.clone()
    }
}

impl crate::assoc::MapKey for Mid {
    fn key_eq(&self, other: &Self) -> (r: bool)
        ensures
            r == (self@ == other@),
    {
        self.equals(other)
    }

    fn key_dup(&self) -> (r: Self)
        ensures
            r@ == self@,
    {
        self.clone()
    }
}

impl crate::assoc::MapKey for (Address, Vid) {
    fn key_eq(&self, other: &Self) -> (r: bool)
        ensures
            r == (self@ == other@),
    {
        self.0.equals(&other.0) && self.1.equals(&other.1)
    }

    fn key_dup(&self) -> (r: Self)
        ensures
            r@ == self@,
    {
        (self.0.clone(), self.1.clone())
    }
}

impl crate::assoc::MapKey for (Address, Mid) {
    fn key_eq(&self, other: &Self) -> (r: bool)
        ensures
            r == (self@ == other@),
    {
        self.0.equals(&other.0) && self.1.equals(&other.1)
    }

    fn key_dup(&self) -> (r: Self)
        ensures
            r@ == self@,
    {
        (self.0.clone(), self.1.clone())
    }
}

impl crate::assoc::MapKey for (Address, NonFungibleKey) {
    fn key_eq(&self, other: &Self) -> (r: bool)
        ensures
            r == (self@ == other@),
    {
        self.0.equals(&other.0) && self.1.equals(&other.1)
    }

    fn key_dup(&self) -> (r: Self)
        ensures
            r@ == self@,
    {
        (self.0.clone(), self.1.clone())
    }
}

/// The severity of an engine log line.
#[derive(Debug, Clone, Copy, PartialEq, Eq, Structural)]
pub enum LogLevel {
    Error,
    Warn,
    Info,
    Debug,
    Trace,
}

} // verus!
