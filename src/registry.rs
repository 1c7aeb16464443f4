//! Account addresses and the registry of addresses monitored for one exchange.
use vstd::prelude::*;

verus! {

/// Whether `c` is a hexadecimal digit of either case.
pub open spec fn is_hex_char(c: char) -> bool {
    ('0' <= c && c <= '9') || ('a' <= c && c <= 'f') || ('A' <= c && c <= 'F')
}

/// The number that a hexadecimal digit stands for.
pub open spec fn hex_char_value(c: char) -> int {
    if '0' <= c && c <= '9' {
        c as int - '0' as int
    } else if 'a' <= c && c <= 'f' {
        c as int - 'a' as int + 10
    } else {
        c as int - 'A' as int + 10
    }
}

/// The bytes that a text of hexadecimal digit pairs spells.
pub open spec fn hex_bytes(s: Seq<char>) -> Seq<u8> {
    Seq::new(s.len() / 2, |i: int| (hex_char_value(s[2 * i]) * 16 + hex_char_value(s[2 * i + 1])) as u8)
}

/// The lower-case hexadecimal digit of a number below 16.
pub open spec fn lower_hex_char(d: int) -> char {
    if d < 10 { (('0' as int) + d) as char } else { (('a' as int) + d - 10) as char }
}

/// Two lower-case hexadecimal digits per byte, high nibble first.
pub open spec fn lower_hex(b: Seq<u8>) -> Seq<char>
    decreases b.len(),
{
    if b.len() == 0 {
        Seq::empty()
    } else {
        lower_hex(b.drop_last()) + seq![lower_hex_char(b.last() as int / 16), lower_hex_char(b.last() as int % 16)]
    }
}

/// Whether `s` is "0x" (or "0X") followed by exactly 40 hexadecimal digits.
pub open spec fn is_address_text(s: Seq<char>) -> bool {
    &&& s.len() == 42
    &&& s[0] == '0'
    &&& (s[1] == 'x' || s[1] == 'X')
    &&& forall|i: int| 2 <= i < 42 ==> is_hex_char(#[trigger] s[i])
}

/// The 20 bytes that an address text spells, whatever the case of its digits.
pub open spec fn address_text_bytes(s: Seq<char>) -> Seq<u8> {
    hex_bytes(s.subrange(2, s.len() as int))
}

/// Relies on `hex::decode`: accepts an even number of hexadecimal digits of
/// either case and yields one byte per pair.
#[verifier::external_body]
fn hex_decode(s: &str) -> (r: Option<Vec<u8>>)
    ensures
        r.is_some() == (s@.len() % 2 == 0 && forall|i: int| 0 <= i < s@.len() ==> is_hex_char(#[trigger] s@[i])),
        r matches Some(v) ==> v@ == hex_bytes(s@),
{
    hex::decode(s).ok()
}

/// Relies on `hex::encode`: two lower-case hexadecimal digits per byte.
#[verifier::external_body]
fn hex_encode(b: &[u8]) -> (r: String)
    ensures
        r@ == lower_hex(b@),
{
    hex::encode(b)
}

/// A 20-byte account address.
#[derive(Clone, Copy, Debug, PartialEq, Eq)]
pub struct Address {
    pub bytes: [u8; 20],
}

impl Address {
    /// Reads "0x" and 40 hexadecimal digits of either case; `None` otherwise.
    pub fn parse(s: &str) -> (r: Option<Address>)
        ensures
            r.is_some() == is_address_text(s@),
            r matches Some(a) ==> a.bytes@ == address_text_bytes(s@),
    {
        let len = s.unicode_len();
        if len != 42 {
            return None;
        }
        let c0 = s.get_char(0);
        let c1 = s.get_char(1);
        if c0 != '0' || (c1 != 'x' && c1 != 'X') {
            return None;
        }
        let digits = s.substring_char(2, 42);
        assert(forall|i: int| 2 <= i < 42 ==> s@[i] == digits@[i - 2]);
        match hex_decode(digits) {
            Some(v) => {
                let mut bytes = [0u8; 20];
                let mut i: usize = 0;
                while i < 20
                    invariant
                        i <= 20,
                        v@.len() == 20,
                        forall|j: int| 0 <= j < i ==> bytes@[j] == v@[j],
                    decreases 20 - i,
                {
                    bytes[i] = v[i];
                    i = i + 1;
                }
                assert(bytes@ =~= v@);
                Some(Address { bytes })
            },
            None => {
                assert(!is_address_text(s@)) by {
                    if is_address_text(s@) {
                        assert forall|i: int| 0 <= i < digits@.len() implies is_hex_char(#[trigger] digits@[i]) by {
                            assert(digits@[i] == s@[i + 2]);
                        }
                    }
                }
                None
            },
        }
    }

    /// The canonical text of the address: "0x" and 40 lower-case digits.
    pub fn to_text(&self) -> (r: String)
        ensures
            r@ == seq!['0', 'x'] + lower_hex(self.bytes@),
    {
        let digits = hex_encode(vstd::array::array_as_slice(&self.bytes));
        let mut s = String::from_str("0x");
        proof {
            reveal_strlit("0x");
        }
        s.append(digits.as_str());
        s
    }

    /// Whether two addresses hold the same bytes.
    pub fn same(&self, o: &Address) -> (r: bool)
        ensures
            r == (self.bytes@ == o.bytes@),
    {
        let mut i: usize = 0;
        while i < 20
            invariant
                i <= 20,
                forall|j: int| 0 <= j < i ==> self.bytes@[j] == o.bytes@[j],
            decreases 20 - i,
        {
            if self.bytes[i] != o.bytes[i] {
                return false;
            }
            i = i + 1;
        }
        assert(self.bytes@ =~= o.bytes@);
        true
    }
}

/// Why a registry could not be built.
#[derive(Clone, Copy, Debug, PartialEq, Eq)]
pub enum ConfigError {
    /// The entry at this position is not an address text.
    MalformedAddress(usize),
}

/// The addresses of one exchange, normalised to bytes, so that membership
/// ignores the case of the configured digits.
#[derive(Clone, Debug)]
pub struct Registry {
    pub label: String,
    pub addresses: Vec<Address>,
}

impl Registry {
    pub open spec fn contains_spec(&self, a: Seq<u8>) -> bool {
        exists|i: int| 0 <= i < self.addresses@.len() && (#[trigger] self.addresses@[i]).bytes@ == a
    }

    /// Builds the registry of `label` from configured address texts. Fails on
    /// the first entry that is not "0x" and 40 hexadecimal digits.
    pub fn new(label: &str, entries: &Vec<String>) -> (r: Result<Registry, ConfigError>)
        ensures
            r.is_ok() == (forall|i: int| 0 <= i < entries@.len() ==> is_address_text(#[trigger] entries@[i]@)),
            r matches Ok(reg) ==> {
                &&& reg.label@ == label@
                &&& reg.addresses@.len() == entries@.len()
                &&& forall|i: int| 0 <= i < entries@.len() ==> (#[trigger] reg.addresses@[i]).bytes@
                    == address_text_bytes(entries@[i]@)
            },
            r matches Err(ConfigError::MalformedAddress(k)) ==> {
                &&& k < entries@.len()
                &&& !is_address_text(entries@[k as int]@)
                &&& forall|i: int| 0 <= i < k ==> is_address_text(#[trigger] entries@[i]@)
            },
    {
        let mut addresses: Vec<Address> = Vec::new();
        let mut i: usize = 0;
        while i < entries.len()
            invariant
                i <= entries@.len(),
                addresses@.len() == i,
                forall|j: int| 0 <= j < i ==> is_address_text(#[trigger] entries@[j]@),
                forall|j: int| 0 <= j < i ==> (#[trigger] addresses@[j]).bytes@ == address_text_bytes(entries@[j]@),
            decreases entries@.len() - i,
        {
            match Address::parse(entries[i].as_str()) {
                Some(a) => addresses.push(a),
                None => return Err(ConfigError::MalformedAddress(i)),
            }
            i = i + 1;
        }
        Ok(Registry { label: label.to_owned(), addresses })
    }

    /// Whether `a` is one of the exchange's addresses.
    pub fn contains(&self, a: &Address) -> (r: bool)
        ensures
            r == self.contains_spec(a.bytes@),
    {
        let mut i: usize = 0;
        while i < self.addresses.len()
            invariant
                i <= self.addresses@.len(),
                forall|j: int| 0 <= j < i ==> (#[trigger] self.addresses@[j]).bytes@ != a.bytes@,
            decreases self.addresses@.len() - i,
        {
            if self.addresses[i].same(a) {
                return true;
            }
            i = i + 1;
        }
        false
    }

    /// The exchange's label.
    pub fn label(&self) -> (r: &str)
        ensures
            r@ == self.label@,
    {
        self.label.as_str()
    }
}

} // verus!
