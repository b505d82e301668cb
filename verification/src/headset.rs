//! VR headsets and the signatures by which USB enumeration lines are matched
//! to them.

use crate::text::{
    chars_of, contains, has_substring, hex_word, hex_word_chars, lines, marks_lines, split_lines,
};
use vstd::prelude::*;

verus! {

/// One entry of the signature table: the USB identifiers of a headset model
/// and the name it is shown under.
#[derive(Clone, Copy, Debug, PartialEq, Eq)]
pub struct HeadsetSignature {
    pub vendor_id: u16,
    pub product_id: u16,
    pub display_name: &'static str,
}

/// A headset found in a USB enumeration: the signature that one of its lines
/// matched.
#[derive(Clone, Copy, Debug, PartialEq, Eq)]
pub struct HeadsetDevice {
    pub vendor_id: u16,
    pub product_id: u16,
    pub display_name: &'static str,
}

impl HeadsetSignature {
    /// The device that a match of this signature stands for.
    pub open spec fn device(self) -> HeadsetDevice {
        HeadsetDevice {
            vendor_id: self.vendor_id,
            product_id: self.product_id,
            display_name: self.display_name,
        }
    }
}

/// The headset models that are recognised, in table order.
pub open spec fn known_headsets() -> Seq<HeadsetSignature> {
    seq![
        HeadsetSignature { vendor_id: 0x28de, product_id: 0x2012, display_name: "Valve Index" },
        HeadsetSignature { vendor_id: 0x28de, product_id: 0x2000, display_name: "HTC Vive" },
        HeadsetSignature { vendor_id: 0x28de, product_id: 0x2101, display_name: "HTC Vive Pro" },
        HeadsetSignature { vendor_id: 0x28de, product_id: 0x2102, display_name: "HTC Vive Cosmos" },
        HeadsetSignature { vendor_id: 0x2833, product_id: 0x0186, display_name: "Meta Quest 2" },
        HeadsetSignature { vendor_id: 0x2833, product_id: 0x0187, display_name: "Meta Quest Pro" },
        HeadsetSignature { vendor_id: 0x2833, product_id: 0x0188, display_name: "Meta Quest 3" },
        HeadsetSignature { vendor_id: 0x2d40, product_id: 0x2000, display_name: "Pico 4" },
        HeadsetSignature { vendor_id: 0x03f0, product_id: 0x0580, display_name: "HP Reverb G2" },
        HeadsetSignature { vendor_id: 0x0483, product_id: 0x0101, display_name: "Pimax 5K/8K" },
    ]
}

/// A line matches a signature when it holds the four lower-case hexadecimal
/// digits of the vendor identifier and those of the product identifier, each
/// anywhere in the line.
pub open spec fn matches_signature(line: Seq<char>, sig: HeadsetSignature) -> bool {
    contains(line, hex_word(sig.vendor_id)) && contains(line, hex_word(sig.product_id))
}

/// The first signature of `table` that `line` matches.
pub open spec fn first_match(line: Seq<char>, table: Seq<HeadsetSignature>) -> Option<
    HeadsetSignature,
>
    decreases table.len(),
{
    if table.len() == 0 {
        None
    } else if matches_signature(line, table[0]) {
        Some(table[0])
    } else {
        first_match(line, table.drop_first())
    }
}

/// The device that a line stands for: that of the first signature that it
/// matches, if it matches any.
pub open spec fn headset_on_line(line: Seq<char>, table: Seq<HeadsetSignature>) -> Option<
    HeadsetDevice,
> {
    match first_match(line, table) {
        Some(sig) => Some(sig.device()),
        None => None,
    }
}

/// The devices that the lines of an enumeration stand for, line after line.
pub open spec fn matched_headsets(lines: Seq<Seq<char>>, table: Seq<HeadsetSignature>) -> Seq<
    HeadsetDevice,
> {
    lines.filter_map(|line: Seq<char>| headset_on_line(line, table))
}

/// The indices of the lines that match a signature of the table, ascending.
pub open spec fn matching_lines(lines: Seq<Seq<char>>, table: Seq<HeadsetSignature>) -> Seq<int>
    decreases lines.len(),
{
    if lines.len() == 0 {
        Seq::empty()
    } else if first_match(lines.last(), table) is Some {
        matching_lines(lines.drop_last(), table).push(lines.len() - 1)
    } else {
        matching_lines(lines.drop_last(), table)
    }
}

/// `found` holds one device for each matching line and no other, in the
/// order in which those lines stand in the enumeration.
pub open spec fn keeps_line_order(
    lines: Seq<Seq<char>>,
    table: Seq<HeadsetSignature>,
    found: Seq<HeadsetDevice>,
) -> bool {
    let origins = matching_lines(lines, table);
    &&& origins.len() == found.len()
    &&& forall|k: int|
        0 <= k < found.len() ==> {
            &&& 0 <= #[trigger] origins[k] < lines.len()
            &&& headset_on_line(lines[origins[k]], table) == Some(found[k])
        }
    &&& forall|j: int, k: int| 0 <= j < k < found.len() ==> origins[j] < origins[k]
    &&& forall|i: int|
        0 <= i < lines.len() && first_match(#[trigger] lines[i], table) is Some
            ==> origins.contains(i)
}

/// Matching preserves order: the devices found are those of the matching
/// lines, in the order of the lines, whatever the order of the table.
pub proof fn lemma_matches_keep_line_order(lines: Seq<Seq<char>>, table: Seq<HeadsetSignature>)
    ensures
        keeps_line_order(lines, table, matched_headsets(lines, table)),
    decreases lines.len(),
{
    if lines.len() > 0 {
        let before = lines.drop_last();
        lemma_matches_keep_line_order(before, table);
        let origins = matching_lines(lines, table);
        let found = matched_headsets(lines, table);
        let origins_before = matching_lines(before, table);
        let found_before = matched_headsets(before, table);
        assert forall|i: int| 0 <= i < before.len() implies before[i] == lines[i] by {}
        assert forall|k: int| 0 <= k < found_before.len() implies origins[k] == origins_before[k]
            && found[k] == found_before[k] by {}
        assert forall|i: int|
            0 <= i < lines.len() && first_match(#[trigger] lines[i], table)
                is Some implies origins.contains(i) by {
            if i < before.len() {
                assert(before[i] == lines[i]);
                let k = choose|k: int| 0 <= k < origins_before.len() && origins_before[k] == i;
                assert(origins[k] == i);
            } else {
                assert(origins[origins.len() - 1] == i);
            }
        }
        assert forall|k: int| 0 <= k < found.len() implies {
            &&& 0 <= #[trigger] origins[k] < lines.len()
            &&& headset_on_line(lines[origins[k]], table) == Some(found[k])
        } by {}
    }
}

/// No line yields more than one device: there are at most as many devices
/// as lines.
pub proof fn lemma_one_device_per_line(lines: Seq<Seq<char>>, table: Seq<HeadsetSignature>)
    ensures
        matched_headsets(lines, table).len() <= lines.len(),
    decreases lines.len(),
{
    if lines.len() > 0 {
        lemma_one_device_per_line(lines.drop_last(), table);
    }
}

/// A line matches some signature of a table exactly when the table holds a
/// signature that it matches.
pub proof fn lemma_first_match_exists(line: Seq<char>, table: Seq<HeadsetSignature>)
    ensures
        first_match(line, table) is Some <==> exists|s: HeadsetSignature|
            table.contains(s) && matches_signature(line, s),
        first_match(line, table) matches Some(s) ==> table.contains(s) && matches_signature(
            line,
            s,
        ),
    decreases table.len(),
{
    if table.len() > 0 {
        let rest = table.drop_first();
        lemma_first_match_exists(line, rest);
        if !matches_signature(line, table[0]) {
            assert forall|s: HeadsetSignature|
                table.contains(s) && matches_signature(line, s) implies rest.contains(s) by {
                let i = choose|i: int| 0 <= i < table.len() && table[i] == s;
                assert(rest[i - 1] == s);
            }
        }
    }
}

/// Which lines match does not depend on how the table is ordered: two tables
/// that hold the same signatures select the same lines.
pub proof fn lemma_matching_lines_ignore_table_order(
    lines: Seq<Seq<char>>,
    table: Seq<HeadsetSignature>,
    reordered: Seq<HeadsetSignature>,
)
    requires
        forall|s: HeadsetSignature| table.contains(s) <==> reordered.contains(s),
    ensures
        matching_lines(lines, table) == matching_lines(lines, reordered),
    decreases lines.len(),
{
    if lines.len() > 0 {
        lemma_matching_lines_ignore_table_order(lines.drop_last(), table, reordered);
        lemma_first_match_exists(lines.last(), table);
        lemma_first_match_exists(lines.last(), reordered);
    }
}

/// The recognised headset models, in table order.
pub fn signature_table() -> (table: Vec<HeadsetSignature>)
    ensures
        table@ == known_headsets(),
{
    let mut table: Vec<HeadsetSignature> = Vec::new();
    table.push(
        HeadsetSignature { vendor_id: 0x28de, product_id: 0x2012, display_name: "Valve Index" },
    );
    table.push(
        HeadsetSignature { vendor_id: 0x28de, product_id: 0x2000, display_name: "HTC Vive" },
    );
    table.push(
        HeadsetSignature { vendor_id: 0x28de, product_id: 0x2101, display_name: "HTC Vive Pro" },
    );
    table.push(
        HeadsetSignature { vendor_id: 0x28de, product_id: 0x2102, display_name: "HTC Vive Cosmos" },
    );
    table.push(
        HeadsetSignature { vendor_id: 0x2833, product_id: 0x0186, display_name: "Meta Quest 2" },
    );
    table.push(
        HeadsetSignature { vendor_id: 0x2833, product_id: 0x0187, display_name: "Meta Quest Pro" },
    );
    table.push(
        HeadsetSignature { vendor_id: 0x2833, product_id: 0x0188, display_name: "Meta Quest 3" },
    );
    table.push(HeadsetSignature { vendor_id: 0x2d40, product_id: 0x2000, display_name: "Pico 4" });
    table.push(
        HeadsetSignature { vendor_id: 0x03f0, product_id: 0x0580, display_name: "HP Reverb G2" },
    );
    table.push(
        HeadsetSignature { vendor_id: 0x0483, product_id: 0x0101, display_name: "Pimax 5K/8K" },
    );
    table
}

/// Whether a line matches a signature.
pub fn line_matches_signature(line: &[char], sig: &HeadsetSignature) -> (b: bool)
    ensures
        b == matches_signature(line@, *sig),
{
    let vendor = hex_word_chars(sig.vendor_id);
    let product = hex_word_chars(sig.product_id);
    has_substring(line, vendor.as_slice()) && has_substring(line, product.as_slice())
}

/// The first signature of `table` that a line matches.
pub fn find_signature(line: &[char], table: &[HeadsetSignature]) -> (r: Option<HeadsetSignature>)
    ensures
        r == first_match(line@, table@),
{
    let mut i: usize = 0;
    assert(table@.skip(0) =~= table@);
    while i < table.len()
        invariant
            i <= table@.len(),
            first_match(line@, table@) == first_match(line@, table@.skip(i as int)),
        decreases table@.len() - i,
    {
        assert(table@.skip(i as int).drop_first() =~= table@.skip(i + 1));
        if line_matches_signature(line, &table[i]) {
            return Some(table[i]);
        }
        i += 1;
    }
    None
}

/// Matches the lines of a USB enumeration against a signature table.
///
/// Each line yields at most one device, that of the first signature in table
/// order that it matches; the devices come in the order of their lines.
pub fn match_headsets(text: &str, table: &[HeadsetSignature]) -> (found: Vec<HeadsetDevice>)
    ensures
        found@ == matched_headsets(lines(text@), table@),
        keeps_line_order(lines(text@), table@, found@),
{
    let chars = chars_of(text);
    let spans = split_lines(chars.as_slice());
    let ghost all = lines(text@);
    let mut found: Vec<HeadsetDevice> = Vec::new();
    let mut i: usize = 0;
    while i < spans.len()
        invariant
            chars@ == text@,
            all == lines(text@),
            marks_lines(text@, spans@),
            i <= spans@.len(),
            found@ == matched_headsets(all.take(i as int), table@),
        decreases spans@.len() - i,
    {
        let span = spans[i];
        let line = &chars.as_slice()[span.0..span.1];
        assert(all.take(i + 1).drop_last() =~= all.take(i as int));
        match find_signature(line, table) {
            Some(sig) => {
                found.push(
                    HeadsetDevice {
                        vendor_id: sig.vendor_id,
                        product_id: sig.product_id,
                        display_name: sig.display_name,
                    },
                );
            },
            None => {},
        }
        i += 1;
    }
    proof {
        assert(all.take(i as int) =~= all);
        lemma_matches_keep_line_order(all, table@);
    }
    found
}

/// Matches the lines of a USB enumeration against the recognised headset
/// models. No match is no error: the result is then empty.
pub fn resolve_headsets(text: &str) -> (found: Vec<HeadsetDevice>)
    ensures
        found@ == matched_headsets(lines(text@), known_headsets()),
        keeps_line_order(lines(text@), known_headsets(), found@),
{
    let table = signature_table();
    match_headsets(text, table.as_slice())
}

} // verus!
