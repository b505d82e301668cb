//! The launch plan: the ordered device descriptors that describe one
//! invocation of the hypervisor.

use crate::headset::HeadsetDevice;
use crate::pci::PciAddress;
use crate::topology::{GpuTopology, TopologyView};
use vstd::prelude::*;

verus! {

/// What a `VmProfile` holds.
pub struct VmProfileView {
    pub memory_gb: u32,
    pub cpu_affinity: Seq<u32>,
}

impl VmProfileView {
    /// At least one gigabyte of memory, and at least one core; the cores are
    /// in ascending order and none is named twice.
    pub open spec fn valid(self) -> bool {
        &&& self.memory_gb >= 1
        &&& self.cpu_affinity.len() > 0
        &&& forall|i: int, j: int|
            0 <= i < j < self.cpu_affinity.len() ==> self.cpu_affinity[i] < self.cpu_affinity[j]
    }
}

/// The resources of the guest: its memory, in gigabytes, and the host cores
/// that it runs on.
#[derive(Debug, PartialEq, Eq)]
pub struct VmProfile {
    memory_gb: u32,
    cpu_affinity: Vec<u32>,
}

impl View for VmProfile {
    type V = VmProfileView;

    closed spec fn view(&self) -> VmProfileView {
        VmProfileView { memory_gb: self.memory_gb, cpu_affinity: self.cpu_affinity@ }
    }
}

impl Clone for VmProfile {
    fn clone(&self) -> (copy: Self)
        ensures
            copy@ == self@,
    {
        proof {
            use_type_invariant(self);
        }
        let cores = self.cpu_affinity.clone();
        assert(cores@ =~= self.cpu_affinity@);
        VmProfile { memory_gb: self.memory_gb, cpu_affinity: cores }
    }
}

/// Whether the cores are in ascending order and none is named twice.
fn strictly_ascending(cores: &[u32]) -> (b: bool)
    ensures
        b == forall|i: int, j: int| 0 <= i < j < cores@.len() ==> cores@[i] < cores@[j],
{
    if cores.len() < 2 {
        return true;
    }
    let mut k: usize = 1;
    while k < cores.len()
        invariant
            1 <= k <= cores@.len(),
            forall|i: int, j: int| 0 <= i < j < k ==> cores@[i] < cores@[j],
        decreases cores@.len() - k,
    {
        if cores[k - 1] >= cores[k] {
            return false;
        }
        k += 1;
    }
    true
}

impl VmProfile {
    #[verifier::type_invariant]
    spec fn well_formed(self) -> bool {
        self@.valid()
    }

    /// The profile with the given memory and cores, if they make a valid one.
    pub fn new(memory_gb: u32, cpu_affinity: Vec<u32>) -> (r: Option<VmProfile>)
        ensures
            r is Some <==> (VmProfileView { memory_gb, cpu_affinity: cpu_affinity@ }).valid(),
            r matches Some(p) ==> p@ == (VmProfileView { memory_gb, cpu_affinity: cpu_affinity@ }),
    {
        if memory_gb >= 1 && cpu_affinity.len() > 0 && strictly_ascending(cpu_affinity.as_slice()) {
            Some(VmProfile { memory_gb, cpu_affinity })
        } else {
            None
        }
    }

    /// The profile recommended for VR: sixteen gigabytes on cores 4 to 7.
    pub fn recommended() -> (p: VmProfile)
        ensures
            p@ == (VmProfileView { memory_gb: 16, cpu_affinity: seq![4u32, 5u32, 6u32, 7u32] }),
    {
        let mut cores: Vec<u32> = Vec::new();
        cores.push(4);
        cores.push(5);
        cores.push(6);
        cores.push(7);
        assert(cores@ =~= seq![4u32, 5u32, 6u32, 7u32]);
        VmProfile { memory_gb: 16, cpu_affinity: cores }
    }

    /// Memory of the guest, in gigabytes.
    pub fn memory_gb(&self) -> (gb: u32)
        ensures
            gb == self@.memory_gb,
            gb >= 1,
    {
        proof {
            use_type_invariant(self);
        }
        self.memory_gb
    }

    /// The host cores that the guest runs on, ascending.
    pub fn cpu_affinity(&self) -> (cores: &[u32])
        ensures
            cores@ == self@.cpu_affinity,
            self@.valid(),
    {
        proof {
            use_type_invariant(self);
        }
        self.cpu_affinity.as_slice()
    }
}

/// One device or option of the hypervisor invocation.
#[derive(Clone, Copy, Debug, PartialEq, Eq)]
pub enum DeviceDescriptor {
    /// The machine type and the virtual CPUs.
    CpuTopology,
    /// The clock and timer policy.
    ClockSource,
    /// The guest's memory; backed by huge pages where the host offers them.
    MemoryBacking { memory_gb: u32 },
    /// A host PCI function handed to the guest. `multifunction` marks the
    /// first function of a card of which further functions follow.
    PciPassthrough { address: PciAddress, multifunction: bool },
    /// The storage controller that the drive attaches to.
    StorageController,
    /// The guest's disk.
    StorageDrive,
    /// The installer image; its presence makes the optical drive the first
    /// boot device.
    OpticalBoot,
    /// The USB host controller.
    UsbController,
    /// A host USB device handed to the guest.
    UsbHostPassthrough { vendor_id: u16, product_id: u16 },
    /// The network adapter.
    NetworkAdapter,
    /// The display: none, since the GPU's own output is the only one.
    DisplaySink,
}

/// The machine, clock and memory descriptors that open every plan.
pub open spec fn machine_part(profile: VmProfileView) -> Seq<DeviceDescriptor> {
    seq![
        DeviceDescriptor::CpuTopology,
        DeviceDescriptor::ClockSource,
        DeviceDescriptor::MemoryBacking { memory_gb: profile.memory_gb },
    ]
}

/// The GPU's functions: video first, flagged as multifunction exactly when an
/// audio function follows it.
pub open spec fn gpu_part(topology: TopologyView) -> Seq<DeviceDescriptor> {
    seq![
        DeviceDescriptor::PciPassthrough {
            address: topology.video,
            multifunction: topology.audio is Some,
        },
    ] + match topology.audio {
        Some(audio) => seq![
            DeviceDescriptor::PciPassthrough { address: audio, multifunction: false },
        ],
        None => Seq::empty(),
    }
}

/// The storage controller, the drive on it and, where an installer image is
/// present, the optical boot medium.
pub open spec fn storage_part(iso_present: bool) -> Seq<DeviceDescriptor> {
    seq![DeviceDescriptor::StorageController, DeviceDescriptor::StorageDrive] + if iso_present {
        seq![DeviceDescriptor::OpticalBoot]
    } else {
        Seq::empty()
    }
}

/// The descriptor that hands a headset to the guest.
pub open spec fn usb_passthrough(headset: HeadsetDevice) -> DeviceDescriptor {
    DeviceDescriptor::UsbHostPassthrough {
        vendor_id: headset.vendor_id,
        product_id: headset.product_id,
    }
}

/// The USB host controller, then one passthrough for each headset, in the
/// order in which the headsets were found.
pub open spec fn usb_part(headsets: Seq<HeadsetDevice>) -> Seq<DeviceDescriptor> {
    seq![DeviceDescriptor::UsbController] + headsets.map_values(
        |h: HeadsetDevice| usb_passthrough(h),
    )
}

/// The network adapter and the display sink that close every plan.
pub open spec fn closing_part() -> Seq<DeviceDescriptor> {
    seq![DeviceDescriptor::NetworkAdapter, DeviceDescriptor::DisplaySink]
}

/// The plan for a topology, the headsets found, and a profile: its parts in
/// the order in which the hypervisor must see them.
pub open spec fn plan_for(
    topology: TopologyView,
    headsets: Seq<HeadsetDevice>,
    profile: VmProfileView,
    iso_present: bool,
) -> Seq<DeviceDescriptor> {
    machine_part(profile) + gpu_part(topology) + storage_part(iso_present) + usb_part(headsets)
        + closing_part()
}

/// An ordered sequence of device descriptors. It is built once and not
/// changed afterwards.
#[derive(Clone, Debug, PartialEq, Eq)]
pub struct LaunchPlan {
    descriptors: Vec<DeviceDescriptor>,
}

impl View for LaunchPlan {
    type V = Seq<DeviceDescriptor>;

    closed spec fn view(&self) -> Seq<DeviceDescriptor> {
        self.descriptors@
    }
}

impl LaunchPlan {
    /// The descriptors, in order.
    pub fn descriptors(&self) -> (d: &[DeviceDescriptor])
        ensures
            d@ == self@,
    {
        self.descriptors.as_slice()
    }

    /// The number of descriptors.
    pub fn len(&self) -> (n: usize)
        ensures
            n == self@.len(),
    {
        self.descriptors.len()
    }
}

/// Whether a descriptor hands a host USB device to the guest.
pub open spec fn is_usb_passthrough(d: DeviceDescriptor) -> bool {
    d is UsbHostPassthrough
}

/// Filtering keeps nothing of a sequence none of whose elements is wanted.
proof fn lemma_filter_none(s: Seq<DeviceDescriptor>, wanted: spec_fn(DeviceDescriptor) -> bool)
    requires
        forall|i: int| 0 <= i < s.len() ==> !wanted(#[trigger] s[i]),
    ensures
        s.filter(wanted).len() == 0,
    decreases s.len(),
{
    reveal(Seq::filter);
    if s.len() > 0 {
        assert forall|i: int| 0 <= i < s.drop_last().len() implies !wanted(
            #[trigger] s.drop_last()[i],
        ) by {
            assert(s.drop_last()[i] == s[i]);
        }
        lemma_filter_none(s.drop_last(), wanted);
    }
}

/// Filtering keeps all of a sequence each of whose elements is wanted.
proof fn lemma_filter_all(s: Seq<DeviceDescriptor>, wanted: spec_fn(DeviceDescriptor) -> bool)
    requires
        forall|i: int| 0 <= i < s.len() ==> wanted(#[trigger] s[i]),
    ensures
        s.filter(wanted).len() == s.len(),
    decreases s.len(),
{
    reveal(Seq::filter);
    if s.len() > 0 {
        assert forall|i: int| 0 <= i < s.drop_last().len() implies wanted(
            #[trigger] s.drop_last()[i],
        ) by {
            assert(s.drop_last()[i] == s[i]);
        }
        lemma_filter_all(s.drop_last(), wanted);
    }
}

/// The video function of the GPU is the first PCI function of every plan, in
/// the fourth place, and it is flagged as multifunction exactly when the
/// topology has an audio function.
pub proof fn lemma_multifunction_iff_audio(
    topology: TopologyView,
    headsets: Seq<HeadsetDevice>,
    profile: VmProfileView,
    iso_present: bool,
)
    ensures
        plan_for(topology, headsets, profile, iso_present).len() > 3,
        forall|i: int|
            0 <= i < 3 ==> !(#[trigger] plan_for(topology, headsets, profile, iso_present)[i]
                is PciPassthrough),
        plan_for(topology, headsets, profile, iso_present)[3]
            == (DeviceDescriptor::PciPassthrough {
            address: topology.video,
            multifunction: topology.audio is Some,
        }),
{
}

/// A plan holds the optical boot medium exactly when an installer image is
/// present.
pub proof fn lemma_optical_boot_iff_iso(
    topology: TopologyView,
    headsets: Seq<HeadsetDevice>,
    profile: VmProfileView,
    iso_present: bool,
)
    ensures
        plan_for(topology, headsets, profile, iso_present).contains(DeviceDescriptor::OpticalBoot)
            <==> iso_present,
{
    let plan = plan_for(topology, headsets, profile, iso_present);
    let before = machine_part(profile) + gpu_part(topology);
    if iso_present {
        assert(plan[before.len() as int + 2] == DeviceDescriptor::OpticalBoot);
    }
    if plan.contains(DeviceDescriptor::OpticalBoot) {
        let i = choose|i: int| 0 <= i < plan.len() && plan[i] == DeviceDescriptor::OpticalBoot;
        let storage_end = before.len() as int + storage_part(iso_present).len();
        let usb_end = storage_end + usb_part(headsets).len();
        if i < before.len() {
            assert(plan[i] == before[i]);
        } else if i < storage_end {
            assert(plan[i] == storage_part(iso_present)[i - before.len() as int]);
        } else if i < usb_end {
            assert(plan[i] == usb_part(headsets)[i - storage_end]);
        } else {
            assert(plan[i] == closing_part()[i - usb_end]);
        }
    }
}

/// A plan hands over as many USB devices as headsets were found.
pub proof fn lemma_one_usb_passthrough_per_headset(
    topology: TopologyView,
    headsets: Seq<HeadsetDevice>,
    profile: VmProfileView,
    iso_present: bool,
)
    ensures
        plan_for(topology, headsets, profile, iso_present).filter(
            |d: DeviceDescriptor| is_usb_passthrough(d),
        ).len() == headsets.len(),
{
    let wanted = |d: DeviceDescriptor| is_usb_passthrough(d);
    let machine = machine_part(profile);
    let gpu = gpu_part(topology);
    let storage = storage_part(iso_present);
    let controller = seq![DeviceDescriptor::UsbController];
    let handed = headsets.map_values(|h: HeadsetDevice| usb_passthrough(h));
    let closing = closing_part();
    lemma_filter_none(machine, wanted);
    lemma_filter_none(gpu, wanted);
    lemma_filter_none(storage, wanted);
    lemma_filter_none(controller, wanted);
    lemma_filter_all(handed, wanted);
    lemma_filter_none(closing, wanted);
    Seq::filter_distributes_over_add(machine, gpu, wanted);
    Seq::filter_distributes_over_add(machine + gpu, storage, wanted);
    Seq::filter_distributes_over_add(controller, handed, wanted);
    Seq::filter_distributes_over_add(machine + gpu + storage, controller + handed, wanted);
    Seq::filter_distributes_over_add(
        machine + gpu + storage + (controller + handed),
        closing,
        wanted,
    );
}

/// The plan is a function of its inputs: equal topologies, headsets, profiles
/// and installer flags give plans that are equal, descriptor by descriptor.
pub proof fn lemma_plan_is_deterministic(
    topology: GpuTopology,
    headsets: Seq<HeadsetDevice>,
    profile: VmProfile,
    iso_present: bool,
    topology_again: GpuTopology,
    headsets_again: Seq<HeadsetDevice>,
    profile_again: VmProfile,
    iso_present_again: bool,
)
    requires
        topology@ == topology_again@,
        headsets == headsets_again,
        profile@ == profile_again@,
        iso_present == iso_present_again,
    ensures
        plan_for(topology@, headsets, profile@, iso_present).len() == plan_for(
            topology_again@,
            headsets_again,
            profile_again@,
            iso_present_again,
        ).len(),
        forall|i: int|
            0 <= i < plan_for(topology@, headsets, profile@, iso_present).len() ==> plan_for(
                topology@,
                headsets,
                profile@,
                iso_present,
            )[i] == plan_for(topology_again@, headsets_again, profile_again@, iso_present_again)[i],
{
}

/// Builds the launch plan.
///
/// The caller has made sure that the guest's disk image exists; without it no
/// plan is to be built.
pub fn build_plan(
    topology: &GpuTopology,
    headsets: &[HeadsetDevice],
    profile: &VmProfile,
    disk_present: bool,
    iso_present: bool,
) -> (plan: LaunchPlan)
    requires
        disk_present,
    ensures
        plan@ == plan_for(topology@, headsets@, profile@, iso_present),
        plan@.len() > 3 && plan@[3] == (DeviceDescriptor::PciPassthrough {
            address: topology@.video,
            multifunction: topology@.audio is Some,
        }),
        plan@.contains(DeviceDescriptor::OpticalBoot) <==> iso_present,
        plan@.filter(|d: DeviceDescriptor| is_usb_passthrough(d)).len() == headsets@.len(),
{
    proof {
        lemma_multifunction_iff_audio(topology@, headsets@, profile@, iso_present);
        lemma_optical_boot_iff_iso(topology@, headsets@, profile@, iso_present);
        lemma_one_usb_passthrough_per_headset(topology@, headsets@, profile@, iso_present);
    }
    let mut d: Vec<DeviceDescriptor> = Vec::new();
    d.push(DeviceDescriptor::CpuTopology);
    d.push(DeviceDescriptor::ClockSource);
    d.push(DeviceDescriptor::MemoryBacking { memory_gb: profile.memory_gb() });
    let video = topology.video();
    let audio = topology.audio();
    d.push(DeviceDescriptor::PciPassthrough { address: video, multifunction: audio.is_some() });
    match audio {
        Some(a) => {
            d.push(DeviceDescriptor::PciPassthrough { address: a, multifunction: false });
        },
        None => {},
    }
    d.push(DeviceDescriptor::StorageController);
    d.push(DeviceDescriptor::StorageDrive);
    if iso_present {
        d.push(DeviceDescriptor::OpticalBoot);
    }
    let ghost head = machine_part(profile@) + gpu_part(topology@) + storage_part(iso_present);
    d.push(DeviceDescriptor::UsbController);
    let mut i: usize = 0;
    while i < headsets.len()
        invariant
            i <= headsets@.len(),
            d@ =~= head + usb_part(headsets@.take(i as int)),
        decreases headsets@.len() - i,
    {
        let h = headsets[i];
        d.push(
            DeviceDescriptor::UsbHostPassthrough {
                vendor_id: h.vendor_id,
                product_id: h.product_id,
            },
        );
        i += 1;
    }
    d.push(DeviceDescriptor::NetworkAdapter);
    d.push(DeviceDescriptor::DisplaySink);
    assert(d@ =~= plan_for(topology@, headsets@, profile@, iso_present));
    LaunchPlan { descriptors: d }
}

} // verus!
