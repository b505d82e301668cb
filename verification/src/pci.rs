//! PCI addresses: their two written forms, and what a token denotes.

use crate::text::{
    ascii_lower, chars_of, hex_byte, hex_digit, hex_pair, hex_value, lowered, parse_hex_digit,
    parse_hex_pair, push_hex_byte, push_hex_digit,
};
use vstd::prelude::*;
use vstd::string::StringExecFns;

verus! {

/// A function of a PCI device in domain `0000`.
///
/// The device (five bits) and the function (three bits) are packed into
/// `devfn` as the bus itself packs them, so every value of this type is a
/// valid address and two addresses are equal exactly when they name the same
/// function, however their digits were written.
#[derive(Clone, Copy, Debug, PartialEq, Eq, Hash, Structural)]
pub struct PciAddress {
    pub bus: u8,
    pub devfn: u8,
}

/// The address written `bb:dd.f`: two hexadecimal digits of bus, two of
/// device (at most `1f`) and one of function (at most `7`).
pub open spec fn short_address(t: Seq<char>) -> Option<PciAddress> {
    if t.len() == 7 && t[2] == ':' && t[5] == '.' {
        match (hex_pair(t[0], t[1]), hex_pair(t[3], t[4]), hex_value(t[6])) {
            (Some(bus), Some(device), Some(function)) => if device < 32 && function < 8 {
                Some(PciAddress { bus, devfn: (device * 8 + function) as u8 })
            } else {
                None
            },
            _ => None,
        }
    } else {
        None
    }
}

/// The address that a token denotes: either the short form `bb:dd.f` or the
/// same behind the domain prefix `0000:`. Any other token denotes none.
pub open spec fn parse_address(t: Seq<char>) -> Option<PciAddress> {
    if t.len() == 12 && t.take(5) == "0000:"@ {
        short_address(t.skip(5))
    } else {
        short_address(t)
    }
}

impl PciAddress {
    /// Device number, `0` to `31`.
    pub open spec fn spec_device(self) -> u8 {
        self.devfn / 8
    }

    /// Function number, `0` to `7`.
    pub open spec fn spec_function(self) -> u8 {
        self.devfn % 8
    }

    /// The form `bb:dd.f`, in lower-case digits.
    pub open spec fn short_form(self) -> Seq<char> {
        hex_byte(self.bus) + seq![':'] + hex_byte(self.spec_device()) + seq![
            '.',
            hex_digit(self.spec_function()),
        ]
    }

    /// The canonical form `0000:bb:dd.f`, in lower-case digits.
    pub open spec fn canonical_form(self) -> Seq<char> {
        "0000:"@ + self.short_form()
    }

    /// The address of function `function` of device `device` on bus `bus`,
    /// if the device is below 32 and the function below 8.
    pub fn new(bus: u8, device: u8, function: u8) -> (r: Option<PciAddress>)
        ensures
            r is Some <==> device < 32 && function < 8,
            r matches Some(a) ==> a.bus == bus && a.spec_device() == device && a.spec_function()
                == function,
    {
        if device < 32 && function < 8 {
            Some(PciAddress { bus, devfn: device * 8 + function })
        } else {
            None
        }
    }

    /// Device number.
    #[verifier::when_used_as_spec(spec_device)]
    pub fn device(self) -> (d: u8)
        ensures
            d == self.spec_device(),
            d < 32,
    {
        self.devfn / 8
    }

    /// Function number.
    #[verifier::when_used_as_spec(spec_function)]
    pub fn function(self) -> (f: u8)
        ensures
            f == self.spec_function(),
            f < 8,
    {
        self.devfn % 8
    }

    /// Whether both addresses lie on one bus segment.
    pub fn same_bus(self, other: PciAddress) -> (b: bool)
        ensures
            b == (self.bus == other.bus),
    {
        self.bus == other.bus
    }

    /// Reads the short form `bb:dd.f`.
    fn parse_short(t: &[char]) -> (r: Option<PciAddress>)
        ensures
            r == short_address(t@),
    {
        if t.len() != 7 || t[2] != ':' || t[5] != '.' {
            return None;
        }
        match (parse_hex_pair(t[0], t[1]), parse_hex_pair(t[3], t[4]), parse_hex_digit(t[6])) {
            (Some(bus), Some(device), Some(function)) => PciAddress::new(bus, device, function),
            _ => None,
        }
    }

    /// Reads an address from a token in short or in canonical form.
    pub fn parse(token: &[char]) -> (r: Option<PciAddress>)
        ensures
            r == parse_address(token@),
    {
        proof {
            reveal_strlit("0000:");
        }
        if token.len() == 12 && token[0] == '0' && token[1] == '0' && token[2] == '0' && token[3]
            == '0' && token[4] == ':' {
            assert(token@.take(5) =~= "0000:"@);
            let tail = &token[5..12];
            assert(tail@ =~= token@.skip(5));
            PciAddress::parse_short(tail)
        } else {
            assert(token@.len() == 12 ==> token@.take(5) != "0000:"@) by {
                if token@.len() == 12 && token@.take(5) == "0000:"@ {
                    assert(token@.take(5)[0] == '0');
                    assert(token@.take(5)[1] == '0');
                    assert(token@.take(5)[2] == '0');
                    assert(token@.take(5)[3] == '0');
                    assert(token@.take(5)[4] == ':');
                }
            }
            PciAddress::parse_short(token)
        }
    }

    /// Reads an address from a string in short or in canonical form.
    pub fn from_text(text: &str) -> (r: Option<PciAddress>)
        ensures
            r == parse_address(text@),
    {
        let chars = chars_of(text);
        PciAddress::parse(chars.as_slice())
    }

    /// The short form `bb:dd.f`.
    pub fn to_short_string(self) -> (s: String)
        ensures
            s@ == self.short_form(),
    {
        let mut s = String::from_str("");
        proof {
            reveal_strlit("");
            reveal_strlit(":");
            reveal_strlit(".");
        }
        push_hex_byte(&mut s, self.bus);
        s.append(":");
        push_hex_byte(&mut s, self.device());
        s.append(".");
        push_hex_digit(&mut s, self.function());
        assert(s@ =~= self.short_form());
        s
    }

    /// The canonical form `0000:bb:dd.f`.
    pub fn to_canonical_string(self) -> (s: String)
        ensures
            s@ == self.canonical_form(),
    {
        let mut s = String::from_str("0000:");
        proof {
            reveal_strlit(":");
            reveal_strlit(".");
        }
        push_hex_byte(&mut s, self.bus);
        s.append(":");
        push_hex_byte(&mut s, self.device());
        s.append(".");
        push_hex_digit(&mut s, self.function());
        assert(s@ =~= self.canonical_form());
        s
    }
}

/// The two digits of a byte read back as that byte.
proof fn lemma_hex_byte_reads_back(b: u8)
    ensures
        hex_byte(b).len() == 2,
        hex_pair(hex_byte(b)[0], hex_byte(b)[1]) == Some(b),
{
}

/// Both written forms of an address read back as that address.
pub proof fn lemma_written_forms_read_back(a: PciAddress)
    ensures
        parse_address(a.short_form()) == Some(a),
        parse_address(a.canonical_form()) == Some(a),
{
    reveal_strlit("0000:");
    let short = a.short_form();
    lemma_hex_byte_reads_back(a.bus);
    lemma_hex_byte_reads_back(a.spec_device());
    assert(short.len() == 7);
    assert(short[0] == hex_byte(a.bus)[0] && short[1] == hex_byte(a.bus)[1]);
    assert(short[3] == hex_byte(a.spec_device())[0] && short[4] == hex_byte(a.spec_device())[1]);
    assert(short[6] == hex_digit(a.spec_function()));
    assert(short_address(short) == Some(a));
    let full = a.canonical_form();
    assert(full.len() == 12);
    assert(full.take(5) =~= "0000:"@);
    assert(full.skip(5) =~= short);
}

/// Reading a hexadecimal digit ignores its case.
proof fn lemma_hex_value_ignores_case(c: char)
    ensures
        hex_value(ascii_lower(c)) == hex_value(c),
        ascii_lower(c) == ':' <==> c == ':',
        ascii_lower(c) == '.' <==> c == '.',
        ascii_lower(c) == '0' <==> c == '0',
{
}

/// Reading the short form ignores the case of its digits.
proof fn lemma_short_address_ignores_case(t: Seq<char>)
    ensures
        short_address(lowered(t)) == short_address(t),
{
    if t.len() == 7 {
        assert forall|i: int| 0 <= i < 7 implies {
            &&& hex_value(lowered(t)[i]) == hex_value(t[i])
            &&& lowered(t)[i] == ':' <==> t[i] == ':'
            &&& lowered(t)[i] == '.' <==> t[i] == '.'
        } by {
            lemma_hex_value_ignores_case(t[i]);
        }
    }
}

/// Addresses are compared by what they name, not by how their digits are
/// written: two tokens that differ in the case of letters only denote the
/// same address, or both none.
pub proof fn lemma_address_ignores_case(a: Seq<char>, b: Seq<char>)
    requires
        lowered(a) == lowered(b),
    ensures
        parse_address(a) == parse_address(b),
{
    lemma_parse_address_of_lowered(a);
    lemma_parse_address_of_lowered(b);
}

/// A token and its lower-case form denote the same address.
proof fn lemma_parse_address_of_lowered(t: Seq<char>)
    ensures
        parse_address(lowered(t)) == parse_address(t),
{
    reveal_strlit("0000:");
    let low = lowered(t);
    assert(low.len() == t.len());
    if t.len() == 12 {
        assert forall|i: int| 0 <= i < 5 implies (low[i] == "0000:"@[i] <==> t[i] == "0000:"@[i])
        by {
            lemma_hex_value_ignores_case(t[i]);
        }
        if t.take(5) == "0000:"@ {
            assert forall|i: int| 0 <= i < 5 implies low.take(5)[i] == "0000:"@[i] by {
                assert(t.take(5)[i] == t[i]);
            }
            assert(low.take(5) =~= "0000:"@);
        }
        if low.take(5) == "0000:"@ {
            assert forall|i: int| 0 <= i < 5 implies t.take(5)[i] == "0000:"@[i] by {
                assert(low.take(5)[i] == low[i]);
            }
            assert(t.take(5) =~= "0000:"@);
        }
        assert(low.skip(5) =~= lowered(t.skip(5)));
        lemma_short_address_ignores_case(t.skip(5));
    }
    lemma_short_address_ignores_case(t);
}

} // verus!
