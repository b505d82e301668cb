//! What one-time provisioning of the host is told: the hardware identifiers
//! to bind to the passthrough driver, the number of huge pages to reserve,
//! and whether the operator agreed.

use crate::text::{
    blank_len, chars_of, hex_pair, hex_word, is_whitespace, lemma_prefix_len_bounds, nth_token,
    parse_hex_pair, push_hex_word, split_token, token_at,
};
use vstd::prelude::*;
use vstd::string::StringExecFns;

verus! {

/// The vendor and device identifiers of a PCI function.
#[derive(Clone, Copy, Debug, PartialEq, Eq, Hash, Structural)]
pub struct PciDeviceId {
    pub vendor_id: u16,
    pub device_id: u16,
}

/// The identifiers written `vvvv:dddd`, four hexadecimal digits each.
pub open spec fn parse_device_id(t: Seq<char>) -> Option<PciDeviceId> {
    if t.len() == 9 && t[4] == ':' {
        match (hex_pair(t[0], t[1]), hex_pair(t[2], t[3]), hex_pair(t[5], t[6]), hex_pair(
            t[7],
            t[8],
        )) {
            (Some(vh), Some(vl), Some(dh), Some(dl)) => Some(
                PciDeviceId {
                    vendor_id: (vh * 256 + vl) as u16,
                    device_id: (dh * 256 + dl) as u16,
                },
            ),
            _ => None,
        }
    } else {
        None
    }
}

/// The identifiers that a numeric listing of one PCI function gives: its
/// third token, behind the address and the class.
pub open spec fn listed_device_id(listing: Seq<char>) -> Option<PciDeviceId> {
    parse_device_id(nth_token(listing, 2))
}

impl PciDeviceId {
    /// The form `vvvv:dddd`, in lower-case digits.
    pub open spec fn written_form(self) -> Seq<char> {
        hex_word(self.vendor_id) + ":"@ + hex_word(self.device_id)
    }

    /// Reads identifiers from a token of the form `vvvv:dddd`.
    pub fn parse(token: &[char]) -> (r: Option<PciDeviceId>)
        ensures
            r == parse_device_id(token@),
    {
        if token.len() != 9 || token[4] != ':' {
            return None;
        }
        match (
            parse_hex_pair(token[0], token[1]),
            parse_hex_pair(token[2], token[3]),
            parse_hex_pair(token[5], token[6]),
            parse_hex_pair(token[7], token[8]),
        ) {
            (Some(vh), Some(vl), Some(dh), Some(dl)) => {
                let vendor_id: u16 = vh as u16 * 256 + vl as u16;
                let device_id: u16 = dh as u16 * 256 + dl as u16;
                Some(PciDeviceId { vendor_id, device_id })
            },
            _ => None,
        }
    }

    /// Reads the identifiers from the numeric listing of one PCI function.
    /// A listing of fewer than three tokens, or with a third token of
    /// another form, gives none.
    pub fn from_listing(listing: &str) -> (r: Option<PciDeviceId>)
        ensures
            r == listed_device_id(listing@),
    {
        let chars = chars_of(listing);
        PciDeviceId::parse(token_at(chars.as_slice(), 2))
    }
}

/// Identifiers, each in the form `vvvv:dddd`, separated by commas.
pub open spec fn id_list(ids: Seq<PciDeviceId>) -> Seq<char>
    decreases ids.len(),
{
    if ids.len() == 0 {
        Seq::empty()
    } else if ids.len() == 1 {
        ids[0].written_form()
    } else {
        id_list(ids.drop_last()) + ","@ + ids.last().written_form()
    }
}

/// The identifiers to bind to the passthrough driver, as the driver's `ids`
/// option takes them.
pub fn render_id_list(ids: &[PciDeviceId]) -> (list: String)
    ensures
        list@ == id_list(ids@),
{
    proof {
        reveal_strlit("");
    }
    let mut list = String::from_str("");
    let mut i: usize = 0;
    while i < ids.len()
        invariant
            i <= ids@.len(),
            list@ == id_list(ids@.take(i as int)),
        decreases ids@.len() - i,
    {
        let ghost done = ids@.take(i as int);
        let ghost next = ids@.take(i + 1);
        assert(next.drop_last() =~= done);
        if i > 0 {
            list.append(",");
        }
        push_hex_word(&mut list, ids[i].vendor_id);
        list.append(":");
        push_hex_word(&mut list, ids[i].device_id);
        i += 1;
    }
    assert(ids@.take(i as int) =~= ids@);
    list
}

/// The module configuration that binds the given identifiers to the
/// passthrough driver and keeps the display drivers away from them.
pub open spec fn vfio_configuration_for(ids: Seq<PciDeviceId>) -> Seq<char> {
    "# Ten Pod VFIO Configuration\noptions vfio-pci ids="@ + id_list(ids)
        + "\nblacklist nvidia\nblacklist nouveau"@
}

/// The module configuration that binds the GPU's functions to the
/// passthrough driver; `None` where no identifier is known, since a
/// configuration without identifiers would bind nothing.
pub fn vfio_configuration(ids: &[PciDeviceId]) -> (conf: Option<String>)
    ensures
        conf is Some <==> ids@.len() > 0,
        conf matches Some(text) ==> text@ == vfio_configuration_for(ids@),
{
    if ids.len() == 0 {
        return None;
    }
    let mut text = String::from_str("# Ten Pod VFIO Configuration\noptions vfio-pci ids=");
    let list = render_id_list(ids);
    text.append(list.as_str());
    text.append("\nblacklist nvidia\nblacklist nouveau");
    Some(text)
}

/// The number of huge pages of two mebibytes that hold the guest's memory.
pub fn hugepage_count(memory_gb: u32) -> (pages: u64)
    ensures
        pages == memory_gb * 512,
{
    let gb: u64 = memory_gb as u64;
    gb * 512
}

/// An answer agrees when its first character behind leading white space is
/// a `y` of either case.
pub open spec fn agrees(answer: Seq<char>) -> bool {
    let body = answer.skip(blank_len(answer) as int);
    body.len() > 0 && (body[0] == 'y' || body[0] == 'Y')
}

/// Whether the operator's answer to a yes-or-no question agrees.
pub fn is_affirmative(answer: &str) -> (yes: bool)
    ensures
        yes == agrees(answer@),
{
    let chars = chars_of(answer);
    let (token, _) = split_token(chars.as_slice());
    proof {
        let body = answer@.skip(blank_len(answer@) as int);
        lemma_prefix_len_bounds(answer@, |c: char| is_whitespace(c));
        lemma_prefix_len_bounds(body, |c: char| !is_whitespace(c));
    }
    token.len() > 0 && (token[0] == 'y' || token[0] == 'Y')
}

} // verus!
