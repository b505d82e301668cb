//! The GPU topology: the video function of the GPU and the audio function
//! beside it, resolved from the text of a PCI enumeration.

use crate::pci::{parse_address, PciAddress};
use crate::text::{
    chars_of, contains, first_token, has_substring, lines, marks_lines, split_lines, split_token,
};
use vstd::prelude::*;

verus! {

/// Why no topology could be resolved.
#[derive(Clone, Copy, Debug, PartialEq, Eq, Structural)]
pub enum ResolutionError {
    /// No line of the enumeration describes an NVIDIA display function.
    NoGpuFound,
}

/// What a `GpuTopology` holds.
pub struct TopologyView {
    pub video: PciAddress,
    pub audio: Option<PciAddress>,
}

impl TopologyView {
    /// The audio function, if there is one, sits on the bus of the video
    /// function.
    pub open spec fn valid(self) -> bool {
        self.audio matches Some(a) ==> a.bus == self.video.bus
    }
}

/// A GPU: its video function and, where the card has one, the audio function
/// beside it on the same bus segment.
#[derive(Clone, Copy, Debug, PartialEq, Eq)]
pub struct GpuTopology {
    video: PciAddress,
    audio: Option<PciAddress>,
}

impl View for GpuTopology {
    type V = TopologyView;

    closed spec fn view(&self) -> TopologyView {
        TopologyView { video: self.video, audio: self.audio }
    }
}

impl GpuTopology {
    #[verifier::type_invariant]
    spec fn well_formed(self) -> bool {
        self@.valid()
    }

    /// The topology of `video` and `audio`, if they share a bus segment.
    pub fn new(video: PciAddress, audio: Option<PciAddress>) -> (r: Option<GpuTopology>)
        ensures
            r is Some <==> (TopologyView { video, audio }).valid(),
            r matches Some(t) ==> t@ == (TopologyView { video, audio }),
    {
        let shared = match audio {
            Some(a) => a.bus == video.bus,
            None => true,
        };
        if shared {
            Some(GpuTopology { video, audio })
        } else {
            None
        }
    }

    /// The video function.
    pub fn video(&self) -> (a: PciAddress)
        ensures
            a == self@.video,
    {
        self.video
    }

    /// The audio function beside the video function, if any.
    pub fn audio(&self) -> (a: Option<PciAddress>)
        ensures
            a == self@.audio,
            self@.valid(),
    {
        proof {
            use_type_invariant(self);
        }
        self.audio
    }
}

/// The line names NVIDIA, by its vendor code or in words.
pub open spec fn names_nvidia(line: Seq<char>) -> bool {
    contains(line, "[10de:"@) || contains(line, "NVIDIA"@)
}

/// The line names a display class: a VGA or a 3D controller.
pub open spec fn names_display(line: Seq<char>) -> bool {
    contains(line, "VGA"@) || contains(line, "3D"@)
}

/// The line names the audio class.
pub open spec fn names_audio(line: Seq<char>) -> bool {
    contains(line, "Audio device"@)
}

/// The address that a line starts with, if its first token is one.
pub open spec fn line_address(line: Seq<char>) -> Option<PciAddress> {
    parse_address(first_token(line))
}

/// The address of the NVIDIA display function that a line describes; `None`
/// for any other line, and for one whose address cannot be read.
pub open spec fn gpu_on_line(line: Seq<char>) -> Option<PciAddress> {
    if names_nvidia(line) && names_display(line) {
        line_address(line)
    } else {
        None
    }
}

/// The address of the audio function on bus `bus` that a line describes;
/// `None` for any other line.
pub open spec fn audio_on_line(line: Seq<char>, bus: u8) -> Option<PciAddress> {
    match line_address(line) {
        Some(a) => if names_audio(line) && a.bus == bus {
            Some(a)
        } else {
            None
        },
        None => None,
    }
}

/// The GPU of the first line that describes one.
pub open spec fn first_gpu(lines: Seq<Seq<char>>) -> Option<PciAddress>
    decreases lines.len(),
{
    if lines.len() == 0 {
        None
    } else if gpu_on_line(lines[0]) is Some {
        gpu_on_line(lines[0])
    } else {
        first_gpu(lines.drop_first())
    }
}

/// The audio function on bus `bus` of the last line that describes one.
pub open spec fn last_audio(lines: Seq<Seq<char>>, bus: u8) -> Option<PciAddress>
    decreases lines.len(),
{
    if lines.len() == 0 {
        None
    } else if audio_on_line(lines.last(), bus) is Some {
        audio_on_line(lines.last(), bus)
    } else {
        last_audio(lines.drop_last(), bus)
    }
}

/// The topology that a PCI enumeration describes: the first GPU in it, with
/// the audio function found on that GPU's bus.
pub open spec fn resolved_topology(text: Seq<char>) -> Option<TopologyView> {
    match first_gpu(lines(text)) {
        Some(video) => Some(TopologyView { video, audio: last_audio(lines(text), video.bus) }),
        None => None,
    }
}

/// Line `g` is the first that describes a GPU.
pub open spec fn is_first_gpu_line(lines: Seq<Seq<char>>, g: int) -> bool {
    &&& 0 <= g < lines.len()
    &&& gpu_on_line(lines[g]) is Some
    &&& forall|j: int| 0 <= j < g ==> gpu_on_line(#[trigger] lines[j]) is None
}

/// Line `a` is the last that describes an audio function on bus `bus`.
pub open spec fn is_last_audio_line(lines: Seq<Seq<char>>, bus: u8, a: int) -> bool {
    &&& 0 <= a < lines.len()
    &&& audio_on_line(lines[a], bus) is Some
    &&& forall|j: int| a < j < lines.len() ==> audio_on_line(#[trigger] lines[j], bus) is None
}

/// No line describes a GPU.
pub open spec fn no_gpu_line(lines: Seq<Seq<char>>) -> bool {
    forall|j: int| 0 <= j < lines.len() ==> gpu_on_line(#[trigger] lines[j]) is None
}

/// No line describes an audio function on bus `bus`.
pub open spec fn no_audio_line(lines: Seq<Seq<char>>, bus: u8) -> bool {
    forall|j: int| 0 <= j < lines.len() ==> audio_on_line(#[trigger] lines[j], bus) is None
}

/// `first_gpu` is `None` exactly when no line describes a GPU; otherwise it
/// is what the first such line gives.
pub proof fn lemma_first_gpu(lines: Seq<Seq<char>>)
    ensures
        first_gpu(lines) is None <==> no_gpu_line(lines),
        first_gpu(lines) is Some ==> exists|g: int|
            is_first_gpu_line(lines, g) && gpu_on_line(lines[g]) == first_gpu(lines),
    decreases lines.len(),
{
    if lines.len() == 0 {
    } else if gpu_on_line(lines[0]) is Some {
        assert(is_first_gpu_line(lines, 0));
    } else {
        let rest = lines.drop_first();
        lemma_first_gpu(rest);
        assert forall|j: int| 0 <= j < rest.len() implies rest[j] == lines[j + 1] by {}
        if first_gpu(rest) is Some {
            let g = choose|g: int|
                is_first_gpu_line(rest, g) && gpu_on_line(rest[g]) == first_gpu(rest);
            assert(rest[g] == lines[g + 1]);
            assert forall|j: int| 0 <= j < g + 1 implies gpu_on_line(#[trigger] lines[j])
                is None by {
                if j > 0 {
                    assert(lines[j] == rest[j - 1]);
                }
            }
            assert(is_first_gpu_line(lines, g + 1));
            assert(!no_gpu_line(lines));
        } else {
            assert forall|j: int| 0 <= j < lines.len() implies gpu_on_line(#[trigger] lines[j])
                is None by {
                if j > 0 {
                    assert(lines[j] == rest[j - 1]);
                }
            }
        }
        if no_gpu_line(lines) {
            assert forall|j: int| 0 <= j < rest.len() implies gpu_on_line(#[trigger] rest[j])
                is None by {
                assert(rest[j] == lines[j + 1]);
            }
        }
    }
}

/// `last_audio` is `None` exactly when no line describes an audio function
/// on the bus; otherwise it is what the last such line gives.
pub proof fn lemma_last_audio(lines: Seq<Seq<char>>, bus: u8)
    ensures
        last_audio(lines, bus) is None <==> no_audio_line(lines, bus),
        last_audio(lines, bus) is Some ==> exists|a: int|
            is_last_audio_line(lines, bus, a) && audio_on_line(lines[a], bus) == last_audio(
                lines,
                bus,
            ),
        last_audio(lines, bus) matches Some(a) ==> a.bus == bus,
    decreases lines.len(),
{
    if lines.len() == 0 {
    } else if audio_on_line(lines.last(), bus) is Some {
        assert(is_last_audio_line(lines, bus, lines.len() - 1));
    } else {
        let rest = lines.drop_last();
        lemma_last_audio(rest, bus);
        assert forall|j: int| 0 <= j < rest.len() implies rest[j] == lines[j] by {}
        if last_audio(rest, bus) is Some {
            let a = choose|a: int|
                is_last_audio_line(rest, bus, a) && audio_on_line(rest[a], bus) == last_audio(
                    rest,
                    bus,
                );
            assert(rest[a] == lines[a]);
            assert(is_last_audio_line(lines, bus, a));
        }
    }
}

/// Every line before line `g` that describes a GPU describes one on bus `bus`.
pub open spec fn earlier_gpus_on_bus(lines: Seq<Seq<char>>, g: int, bus: u8) -> bool {
    forall|j: int|
        0 <= j < g ==> (gpu_on_line(#[trigger] lines[j]) matches Some(w) ==> w.bus == bus)
}

/// Every line behind line `a` that describes an audio function on bus `bus`
/// describes the function `audio`.
pub open spec fn later_audio_agrees(
    lines: Seq<Seq<char>>,
    a: int,
    bus: u8,
    audio: PciAddress,
) -> bool {
    forall|j: int|
        a < j < lines.len() ==> (audio_on_line(#[trigger] lines[j], bus) matches Some(s) ==> s
            == audio)
}

/// A GPU line selects the bus of the resolved topology, provided the GPU
/// lines before it lie on its bus.
proof fn lemma_gpu_line_selects_bus(lines: Seq<Seq<char>>, g: int)
    requires
        0 <= g < lines.len(),
        gpu_on_line(lines[g]) is Some,
        earlier_gpus_on_bus(lines, g, gpu_on_line(lines[g])->0.bus),
    ensures
        first_gpu(lines) matches Some(v) && v.bus == gpu_on_line(lines[g])->0.bus,
{
    lemma_first_gpu(lines);
    let f = choose|f: int| is_first_gpu_line(lines, f) && gpu_on_line(lines[f]) == first_gpu(lines);
    assert(f <= g);
}

/// Where a line describes a GPU and another line an audio function on the
/// GPU's bus, the resolved topology carries the address of that audio line.
///
/// The GPU line need not be the first of its kind, as long as those before it
/// lie on its bus; the audio line need not be the last, as long as those
/// behind it name the same function; and it may stand before or behind the
/// GPU line.
pub proof fn lemma_audio_sibling_resolved(text: Seq<char>, g: int, a: int)
    requires
        0 <= g < lines(text).len(),
        0 <= a < lines(text).len(),
        gpu_on_line(lines(text)[g]) is Some,
        earlier_gpus_on_bus(lines(text), g, gpu_on_line(lines(text)[g])->0.bus),
        audio_on_line(lines(text)[a], gpu_on_line(lines(text)[g])->0.bus) is Some,
        later_audio_agrees(
            lines(text),
            a,
            gpu_on_line(lines(text)[g])->0.bus,
            audio_on_line(lines(text)[a], gpu_on_line(lines(text)[g])->0.bus)->0,
        ),
    ensures
        resolved_topology(text) matches Some(t) && t.audio == line_address(lines(text)[a]),
{
    let all = lines(text);
    let bus = gpu_on_line(all[g])->0.bus;
    lemma_gpu_line_selects_bus(all, g);
    lemma_last_audio(all, bus);
    let l = choose|l: int|
        is_last_audio_line(all, bus, l) && audio_on_line(all[l], bus) == last_audio(all, bus);
    assert(a <= l);
}

/// Where a line describes a GPU and no line an audio function on the GPU's
/// bus, the topology is resolved and has no audio function.
///
/// The GPU line need not be the first of its kind, as long as those before it
/// lie on its bus.
pub proof fn lemma_missing_audio_is_no_error(text: Seq<char>, g: int)
    requires
        0 <= g < lines(text).len(),
        gpu_on_line(lines(text)[g]) is Some,
        earlier_gpus_on_bus(lines(text), g, gpu_on_line(lines(text)[g])->0.bus),
        no_audio_line(lines(text), gpu_on_line(lines(text)[g])->0.bus),
    ensures
        resolved_topology(text) matches Some(t) && t.audio is None,
{
    let all = lines(text);
    lemma_gpu_line_selects_bus(all, g);
    lemma_last_audio(all, gpu_on_line(all[g])->0.bus);
}

/// Whatever the text, the topology resolved from it is valid: its audio
/// function lies on the bus of its video function.
pub proof fn lemma_resolved_topology_is_valid(text: Seq<char>)
    ensures
        resolved_topology(text) matches Some(t) ==> t.valid(),
{
    if first_gpu(lines(text)) is Some {
        lemma_last_audio(lines(text), first_gpu(lines(text))->0.bus);
    }
}

/// A text none of whose lines describes a GPU resolves to no topology.
pub proof fn lemma_no_gpu_line_no_topology(text: Seq<char>)
    requires
        no_gpu_line(lines(text)),
    ensures
        resolved_topology(text) is None,
{
    lemma_first_gpu(lines(text));
}

/// Whether `needle`, the characters of one of the class and vendor marks,
/// occurs in `line`.
fn line_has(line: &[char], needle: &str) -> (b: bool)
    ensures
        b == contains(line@, needle@),
{
    let pattern = chars_of(needle);
    has_substring(line, pattern.as_slice())
}

/// Reads the address at the start of a line.
fn read_line_address(line: &[char]) -> (r: Option<PciAddress>)
    ensures
        r == line_address(line@),
{
    let (token, _) = split_token(line);
    PciAddress::parse(token)
}

/// Reads the NVIDIA display function that a line describes.
fn read_gpu(line: &[char]) -> (r: Option<PciAddress>)
    ensures
        r == gpu_on_line(line@),
{
    if (line_has(line, "[10de:") || line_has(line, "NVIDIA")) && (line_has(line, "VGA")
        || line_has(line, "3D")) {
        read_line_address(line)
    } else {
        None
    }
}

/// Reads the audio function on bus `bus` that a line describes.
fn read_audio(line: &[char], bus: u8) -> (r: Option<PciAddress>)
    ensures
        r == audio_on_line(line@, bus),
{
    if !line_has(line, "Audio device") {
        return None;
    }
    match read_line_address(line) {
        Some(a) => if a.bus == bus {
            Some(a)
        } else {
            None
        },
        None => None,
    }
}

/// Resolves the GPU topology from the text of a PCI enumeration.
///
/// The first line that describes an NVIDIA display function gives the video
/// function. The audio function is the one on the same bus segment; where
/// several lines describe one, the last of them counts. A line whose address
/// cannot be read is passed over.
pub fn resolve_gpu(text: &str) -> (r: Result<GpuTopology, ResolutionError>)
    ensures
        match r {
            Ok(t) => resolved_topology(text@) == Some(t@),
            Err(e) => e == ResolutionError::NoGpuFound && resolved_topology(text@) is None,
        },
        r is Err <==> no_gpu_line(lines(text@)),
        r matches Ok(t) ==> {
            &&& t@.valid()
            &&& exists|g: int|
                is_first_gpu_line(lines(text@), g) && gpu_on_line(lines(text@)[g]) == Some(
                    t@.video,
                )
            &&& t@.audio is None <==> no_audio_line(lines(text@), t@.video.bus)
            &&& t@.audio is Some ==> exists|a: int|
                is_last_audio_line(lines(text@), t@.video.bus, a) && line_address(
                    lines(text@)[a],
                ) == t@.audio
        },
{
    let chars = chars_of(text);
    let spans = split_lines(chars.as_slice());
    let ghost all = lines(text@);
    let mut video: Option<PciAddress> = None;
    let mut i: usize = 0;
    assert(all.skip(0) =~= all);
    while i < spans.len() && video.is_none()
        invariant
            chars@ == text@,
            all == lines(text@),
            marks_lines(text@, spans@),
            i <= spans@.len(),
            video is None ==> first_gpu(all) == first_gpu(all.skip(i as int)),
            video is Some ==> first_gpu(all) == video,
        decreases spans@.len() - i,
    {
        let span = spans[i];
        let line = &chars.as_slice()[span.0..span.1];
        assert(all.skip(i as int).drop_first() =~= all.skip(i + 1));
        video = read_gpu(line);
        i += 1;
    }
    proof {
        lemma_first_gpu(all);
    }
    let video = match video {
        Some(v) => v,
        None => {
            return Err(ResolutionError::NoGpuFound);
        },
    };
    let mut audio: Option<PciAddress> = None;
    let mut k: usize = 0;
    while k < spans.len()
        invariant
            chars@ == text@,
            all == lines(text@),
            marks_lines(text@, spans@),
            k <= spans@.len(),
            audio == last_audio(all.take(k as int), video.bus),
            audio matches Some(a) ==> a.bus == video.bus,
        decreases spans@.len() - k,
    {
        let span = spans[k];
        let line = &chars.as_slice()[span.0..span.1];
        assert(all.take(k + 1).drop_last() =~= all.take(k as int));
        match read_audio(line, video.bus) {
            Some(a) => {
                audio = Some(a);
            },
            None => {},
        }
        k += 1;
    }
    proof {
        lemma_last_audio(all, video.bus);
    }
    Ok(GpuTopology { video, audio })
}

} // verus!
