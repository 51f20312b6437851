//! Plain values of the payment chain: account addresses and hashes.

use crate::bytes::slice_eq;
use vstd::prelude::*;

verus! {

/// A 20-byte account address on the payment chain.
#[derive(Clone, Copy, Debug, PartialEq, Eq, Hash)]
pub struct Address {
    pub bytes: [u8; 20],
}

impl View for Address {
    type V = Seq<u8>;

    open spec fn view(&self) -> Seq<u8> {
        self.bytes@
    }
}

impl Address {
    /// Whether both addresses hold the same bytes.
    pub fn same_as(&self, other: &Address) -> (same: bool)
        ensures
            same == (self@ == other@),
            same == (*self == *other),
    {
        proof {
            if self@ == other@ {
                assert(self.bytes =~= other.bytes);
            }
        }
        slice_eq(self.bytes.as_slice(), other.bytes.as_slice())
    }
}

/// The value of a hexadecimal digit, of either case.
pub open spec fn hex_value(digit: char) -> Option<u8> {
    if '0' <= digit <= '9' {
        Some((digit as int - '0' as int) as u8)
    } else if 'a' <= digit <= 'f' {
        Some((digit as int - 'a' as int + 10) as u8)
    } else if 'A' <= digit <= 'F' {
        Some((digit as int - 'A' as int + 10) as u8)
    } else {
        None
    }
}

/// The text without a leading `0x` or `0X`.
pub open spec fn without_hex_prefix(text: Seq<char>) -> Seq<char> {
    if text.len() >= 2 && text[0] == '0' && (text[1] == 'x' || text[1] == 'X') {
        text.skip(2)
    } else {
        text
    }
}

/// The address that a text denotes: forty hexadecimal digits, two to a
/// byte, with or without a leading `0x`. Any other text denotes none.
pub open spec fn address_from_str(text: Seq<char>) -> Option<Seq<u8>> {
    let digits = without_hex_prefix(text);
    if digits.len() == 40 && (forall|i: int| 0 <= i < 40 ==> hex_value(#[trigger] digits[i]) is Some) {
        Some(
            Seq::new(
                20,
                |i: int| (hex_value(digits[2 * i])->0 * 16 + hex_value(digits[2 * i + 1])->0) as u8,
            ),
        )
    } else {
        None
    }
}

/// The value of the hexadecimal digit with this character code.
fn hex_digit(code: u8) -> (value: Option<u8>)
    ensures
        value == hex_value(code as char),
        value is Some ==> value->0 < 16,
{
    if code >= 48 && code <= 57 {
        Some(code - 48)
    } else if code >= 97 && code <= 102 {
        Some(code - 87)
    } else if code >= 65 && code <= 70 {
        Some(code - 55)
    } else {
        None
    }
}

impl Address {
    /// Reads an address from its hexadecimal text.
    pub fn from_hex(text: &str) -> (address: Option<Address>)
        ensures
            match address {
                Some(a) => address_from_str(text@) == Some(a@),
                None => address_from_str(text@) is None,
            },
    {
        let ghost chars = text@;
        let ghost digits = without_hex_prefix(chars);
        if !text.is_ascii() {
            proof {
                let at = choose|i: int|
                    0 <= i < chars.len() && !('\0' <= #[trigger] chars[i] <= '\u{7f}');
                if digits.len() == 40 {
                    if digits.len() == chars.len() {
                        assert(digits[at] == chars[at]);
                        assert(hex_value(digits[at]) is None);
                    } else {
                        assert(digits[at - 2] == chars[at]);
                        assert(hex_value(digits[at - 2]) is None);
                    }
                }
            }
            return None;
        }
        let bytes = text.as_bytes();
        proof {
            vstd::string::is_ascii_spec_bytes(text);
        }
        let start: usize = if bytes.len() >= 2 && bytes[0] == 48 && (bytes[1] == 120 || bytes[1] == 88) {
            2
        } else {
            0
        };
        assert(digits =~= chars.skip(start as int));
        if bytes.len() - start != 40 {
            return None;
        }
        let mut out: [u8; 20] = [0u8; 20];
        let mut i: usize = 0;
        while i < 20
            invariant
                i <= 20,
                start <= 2,
                chars == text@,
                digits == without_hex_prefix(chars),
                bytes@.len() == start + 40,
                chars.len() == bytes@.len(),
                digits == chars.skip(start as int),
                forall|k: int| 0 <= k < chars.len() ==> '\0' <= #[trigger] chars[k] <= '\u{7f}',
                forall|k: int| 0 <= k < bytes@.len() ==> bytes@[k] == chars[k] as u8,
                forall|k: int| 0 <= k < 2 * i ==> hex_value(#[trigger] digits[k]) is Some,
                forall|k: int|
                    0 <= k < i ==> out@[k] == (hex_value(digits[2 * k])->0 * 16 + hex_value(
                        digits[2 * k + 1],
                    )->0) as u8,
            decreases 20 - i,
        {
            let high_code = bytes[start + 2 * i];
            let low_code = bytes[start + 2 * i + 1];
            proof {
                let h = chars[start + 2 * i];
                let l = chars[start + 2 * i + 1];
                assert(digits[2 * i as int] == h && digits[2 * i + 1] == l);
                assert(high_code as char == h);
                assert(low_code as char == l);
            }
            match (hex_digit(high_code), hex_digit(low_code)) {
                (Some(high), Some(low)) => {
                    out[i] = high * 16 + low;
                },
                _ => {
                    proof {
                        let k = if hex_value(digits[2 * i as int]) is None {
                            2 * i as int
                        } else {
                            2 * i + 1
                        };
                        assert(hex_value(digits[k]) is None);
                    }
                    return None;
                },
            }
            i = i + 1;
        }
        let address = Address { bytes: out };
        assert(address_from_str(chars)->0 =~= address@);
        Some(address)
    }
}

/// The address a node is paid at.
pub type RewardsAddress = Address;

/// Hash that identifies a quote.
pub type QuoteHash = [u8; 32];

/// Hash that identifies a transaction on the payment chain.
pub type TxHash = [u8; 32];

} // verus!
