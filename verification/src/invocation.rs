//! The hypervisor invocation: the argument fragment that each descriptor of
//! a launch plan stands for, and the command line made of them.

use crate::pci::PciAddress;
use crate::plan::{DeviceDescriptor, LaunchPlan, VmProfile};
use crate::text::{decimal, hex_word, push_decimal, push_hex_word, texts};
use vstd::prelude::*;
use vstd::string::StringExecFns;

verus! {

/// What the invocation needs to know of the host: where the guest's disk
/// image and the installer image lie, and whether huge pages are mounted.
#[derive(Clone, Debug, PartialEq, Eq)]
pub struct HostSetup {
    pub disk_image: String,
    pub installer_image: String,
    pub hugepages_mounted: bool,
}

/// The arguments that select the machine and its virtual CPUs.
pub open spec fn machine_arguments() -> Seq<Seq<char>> {
    seq![
        "-name"@,
        "TenPod"@,
        "-machine"@,
        "type=q35,accel=kvm,kernel_irqchip=on"@,
        "-cpu"@,
        "host,hv_time,hv_relaxed,hv_vapic,hv_spinlocks=0x1fff,hv_vendor_id=tenpodvr,kvm=off,+invtsc"@,
        "-smp"@,
        "4,sockets=1,cores=4,threads=1"@,
        "-enable-kvm"@,
    ]
}

/// The arguments that set the clock and timer policy.
pub open spec fn clock_arguments() -> Seq<Seq<char>> {
    seq![
        "-rtc"@,
        "base=localtime,clock=host,driftfix=slew"@,
        "-global"@,
        "kvm-pit.lost_tick_policy=delay"@,
        "-no-hpet"@,
    ]
}

/// The arguments that size the guest's memory and, where huge pages are
/// mounted, back it with them.
pub open spec fn memory_arguments(memory_gb: u32, hugepages_mounted: bool) -> Seq<Seq<char>> {
    seq!["-m"@, decimal(memory_gb as nat) + "G"@] + if hugepages_mounted {
        seq!["-mem-path"@, "/dev/hugepages"@, "-mem-prealloc"@]
    } else {
        Seq::empty()
    }
}

/// The arguments that hand a host PCI function to the guest.
pub open spec fn pci_arguments(address: PciAddress, multifunction: bool) -> Seq<Seq<char>> {
    seq![
        "-device"@,
        "vfio-pci,host="@ + address.short_form() + if multifunction {
            ",multifunction=on"@
        } else {
            Seq::empty()
        },
    ]
}

/// The arguments that attach the guest's disk.
pub open spec fn drive_arguments(disk_image: Seq<char>) -> Seq<Seq<char>> {
    seq![
        "-drive"@,
        "file="@ + disk_image + ",format=qcow2,if=none,id=dr1,cache=none,aio=native"@,
        "-device"@,
        "scsi-hd,drive=dr1"@,
    ]
}

/// The arguments that hand a host USB device to the guest.
pub open spec fn usb_arguments(vendor_id: u16, product_id: u16) -> Seq<Seq<char>> {
    seq![
        "-device"@,
        "usb-host,vendorid=0x"@ + hex_word(vendor_id) + ",productid=0x"@ + hex_word(product_id),
    ]
}

/// The fragment of the invocation that a descriptor stands for.
pub open spec fn fragment(
    descriptor: DeviceDescriptor,
    disk_image: Seq<char>,
    installer_image: Seq<char>,
    hugepages_mounted: bool,
) -> Seq<Seq<char>> {
    match descriptor {
        DeviceDescriptor::CpuTopology => machine_arguments(),
        DeviceDescriptor::ClockSource => clock_arguments(),
        DeviceDescriptor::MemoryBacking { memory_gb } => memory_arguments(
            memory_gb,
            hugepages_mounted,
        ),
        DeviceDescriptor::PciPassthrough { address, multifunction } => pci_arguments(
            address,
            multifunction,
        ),
        DeviceDescriptor::StorageController => seq!["-device"@, "virtio-scsi-pci,id=scsi0"@],
        DeviceDescriptor::StorageDrive => drive_arguments(disk_image),
        DeviceDescriptor::OpticalBoot => seq!["-cdrom"@, installer_image, "-boot"@, "d"@],
        DeviceDescriptor::UsbController => seq!["-device"@, "qemu-xhci,id=usb-bus-0"@, "-usb"@],
        DeviceDescriptor::UsbHostPassthrough { vendor_id, product_id } => usb_arguments(
            vendor_id,
            product_id,
        ),
        DeviceDescriptor::NetworkAdapter => seq![
            "-netdev"@,
            "user,id=net0"@,
            "-device"@,
            "virtio-net-pci,netdev=net0"@,
        ],
        DeviceDescriptor::DisplaySink => seq!["-vga"@, "none"@, "-nographic"@],
    }
}

/// The fragments of the descriptors of a plan, one after the other.
pub open spec fn plan_arguments(
    plan: Seq<DeviceDescriptor>,
    disk_image: Seq<char>,
    installer_image: Seq<char>,
    hugepages_mounted: bool,
) -> Seq<Seq<char>>
    decreases plan.len(),
{
    if plan.len() == 0 {
        Seq::empty()
    } else {
        plan_arguments(plan.drop_last(), disk_image, installer_image, hugepages_mounted) + fragment(
            plan.last(),
            disk_image,
            installer_image,
            hugepages_mounted,
        )
    }
}

/// The cores of an affinity set as a list: their decimal numbers, separated
/// by commas.
pub open spec fn core_list(cores: Seq<u32>) -> Seq<char>
    decreases cores.len(),
{
    if cores.len() == 0 {
        Seq::empty()
    } else if cores.len() == 1 {
        decimal(cores[0] as nat)
    } else {
        core_list(cores.drop_last()) + ","@ + decimal(cores.last() as nat)
    }
}

/// The command that pins the hypervisor to the cores of the profile.
pub open spec fn pinning_arguments(cores: Seq<u32>) -> Seq<Seq<char>> {
    seq!["taskset"@, "-c"@, core_list(cores), "qemu-system-x86_64"@]
}

/// The whole command line: the pinned hypervisor, then the fragments of the
/// plan in the order of the plan.
pub open spec fn command_line_for(
    plan: Seq<DeviceDescriptor>,
    cores: Seq<u32>,
    disk_image: Seq<char>,
    installer_image: Seq<char>,
    hugepages_mounted: bool,
) -> Seq<Seq<char>> {
    pinning_arguments(cores) + plan_arguments(plan, disk_image, installer_image, hugepages_mounted)
}

/// The arguments follow the order of the plan: those of a plan made of two
/// parts are those of the first part, then those of the second.
pub proof fn lemma_arguments_follow_plan_order(
    first: Seq<DeviceDescriptor>,
    second: Seq<DeviceDescriptor>,
    disk_image: Seq<char>,
    installer_image: Seq<char>,
    hugepages_mounted: bool,
)
    ensures
        plan_arguments(first + second, disk_image, installer_image, hugepages_mounted)
            == plan_arguments(first, disk_image, installer_image, hugepages_mounted)
            + plan_arguments(second, disk_image, installer_image, hugepages_mounted),
    decreases second.len(),
{
    if second.len() == 0 {
        assert(first + second =~= first);
        assert(plan_arguments(first, disk_image, installer_image, hugepages_mounted)
            + Seq::<Seq<char>>::empty() =~= plan_arguments(
            first,
            disk_image,
            installer_image,
            hugepages_mounted,
        ));
    } else {
        let whole = first + second;
        assert(whole.drop_last() =~= first + second.drop_last());
        assert(whole.last() == second.last());
        lemma_arguments_follow_plan_order(
            first,
            second.drop_last(),
            disk_image,
            installer_image,
            hugepages_mounted,
        );
        let last = fragment(second.last(), disk_image, installer_image, hugepages_mounted);
        let a = plan_arguments(first, disk_image, installer_image, hugepages_mounted);
        let b = plan_arguments(second.drop_last(), disk_image, installer_image, hugepages_mounted);
        assert((a + b) + last =~= a + (b + last));
    }
}

/// Appends one argument to an argument list.
fn push_argument(arguments: &mut Vec<String>, argument: &str)
    ensures
        texts(final(arguments)@) == texts(old(arguments)@).push(argument@),
{
    arguments.push(String::from_str(argument));
    assert(texts(final(arguments)@) =~= texts(old(arguments)@).push(argument@));
}

/// Appends one argument that was built as a string to an argument list.
fn push_built(arguments: &mut Vec<String>, argument: String)
    ensures
        texts(final(arguments)@) == texts(old(arguments)@).push(argument@),
{
    arguments.push(argument);
    assert(texts(final(arguments)@) =~= texts(old(arguments)@).push(argument@));
}

/// Appends the fragment of one descriptor to an argument list.
pub fn push_fragment(arguments: &mut Vec<String>, descriptor: &DeviceDescriptor, host: &HostSetup)
    ensures
        texts(final(arguments)@) == texts(old(arguments)@) + fragment(
            *descriptor,
            host.disk_image@,
            host.installer_image@,
            host.hugepages_mounted,
        ),
{
    let ghost before = texts(arguments@);
    match descriptor {
        DeviceDescriptor::CpuTopology => {
            push_argument(arguments, "-name");
            push_argument(arguments, "TenPod");
            push_argument(arguments, "-machine");
            push_argument(arguments, "type=q35,accel=kvm,kernel_irqchip=on");
            push_argument(arguments, "-cpu");
            push_argument(
                arguments,
                "host,hv_time,hv_relaxed,hv_vapic,hv_spinlocks=0x1fff,hv_vendor_id=tenpodvr,kvm=off,+invtsc",
            );
            push_argument(arguments, "-smp");
            push_argument(arguments, "4,sockets=1,cores=4,threads=1");
            push_argument(arguments, "-enable-kvm");
            assert(texts(arguments@) =~= before + machine_arguments());
        },
        DeviceDescriptor::ClockSource => {
            push_argument(arguments, "-rtc");
            push_argument(arguments, "base=localtime,clock=host,driftfix=slew");
            push_argument(arguments, "-global");
            push_argument(arguments, "kvm-pit.lost_tick_policy=delay");
            push_argument(arguments, "-no-hpet");
            assert(texts(arguments@) =~= before + clock_arguments());
        },
        DeviceDescriptor::MemoryBacking { memory_gb } => {
            proof {
                reveal_strlit("");
            }
            let mut size = String::from_str("");
            push_decimal(&mut size, *memory_gb);
            size.append("G");
            assert(size@ =~= decimal(*memory_gb as nat) + "G"@);
            push_argument(arguments, "-m");
            push_built(arguments, size);
            if host.hugepages_mounted {
                push_argument(arguments, "-mem-path");
                push_argument(arguments, "/dev/hugepages");
                push_argument(arguments, "-mem-prealloc");
            }
            assert(texts(arguments@) =~= before + memory_arguments(
                *memory_gb,
                host.hugepages_mounted,
            ));
        },
        DeviceDescriptor::PciPassthrough { address, multifunction } => {
            let mut device = String::from_str("vfio-pci,host=");
            let short = address.to_short_string();
            device.append(short.as_str());
            if *multifunction {
                device.append(",multifunction=on");
            }
            assert(device@ =~= "vfio-pci,host="@ + address.short_form() + if *multifunction {
                ",multifunction=on"@
            } else {
                Seq::empty()
            });
            push_argument(arguments, "-device");
            push_built(arguments, device);
            assert(texts(arguments@) =~= before + pci_arguments(*address, *multifunction));
        },
        DeviceDescriptor::StorageController => {
            push_argument(arguments, "-device");
            push_argument(arguments, "virtio-scsi-pci,id=scsi0");
            assert(texts(arguments@) =~= before + seq!["-device"@, "virtio-scsi-pci,id=scsi0"@]);
        },
        DeviceDescriptor::StorageDrive => {
            let mut drive = String::from_str("file=");
            drive.append(host.disk_image.as_str());
            drive.append(",format=qcow2,if=none,id=dr1,cache=none,aio=native");
            push_argument(arguments, "-drive");
            push_built(arguments, drive);
            push_argument(arguments, "-device");
            push_argument(arguments, "scsi-hd,drive=dr1");
            assert(texts(arguments@) =~= before + drive_arguments(host.disk_image@));
        },
        DeviceDescriptor::OpticalBoot => {
            push_argument(arguments, "-cdrom");
            push_argument(arguments, host.installer_image.as_str());
            push_argument(arguments, "-boot");
            push_argument(arguments, "d");
            assert(texts(arguments@) =~= before + seq![
                "-cdrom"@,
                host.installer_image@,
                "-boot"@,
                "d"@,
            ]);
        },
        DeviceDescriptor::UsbController => {
            push_argument(arguments, "-device");
            push_argument(arguments, "qemu-xhci,id=usb-bus-0");
            push_argument(arguments, "-usb");
            assert(texts(arguments@) =~= before + seq![
                "-device"@,
                "qemu-xhci,id=usb-bus-0"@,
                "-usb"@,
            ]);
        },
        DeviceDescriptor::UsbHostPassthrough { vendor_id, product_id } => {
            let mut device = String::from_str("usb-host,vendorid=0x");
            push_hex_word(&mut device, *vendor_id);
            device.append(",productid=0x");
            push_hex_word(&mut device, *product_id);
            push_argument(arguments, "-device");
            push_built(arguments, device);
            assert(texts(arguments@) =~= before + usb_arguments(*vendor_id, *product_id));
        },
        DeviceDescriptor::NetworkAdapter => {
            push_argument(arguments, "-netdev");
            push_argument(arguments, "user,id=net0");
            push_argument(arguments, "-device");
            push_argument(arguments, "virtio-net-pci,netdev=net0");
            assert(texts(arguments@) =~= before + seq![
                "-netdev"@,
                "user,id=net0"@,
                "-device"@,
                "virtio-net-pci,netdev=net0"@,
            ]);
        },
        DeviceDescriptor::DisplaySink => {
            push_argument(arguments, "-vga");
            push_argument(arguments, "none");
            push_argument(arguments, "-nographic");
            assert(texts(arguments@) =~= before + seq!["-vga"@, "none"@, "-nographic"@]);
        },
    }
}

/// The fragment of the invocation that a descriptor stands for.
pub fn invocation_fragment(descriptor: &DeviceDescriptor, host: &HostSetup) -> (arguments: Vec<
    String,
>)
    ensures
        texts(arguments@) == fragment(
            *descriptor,
            host.disk_image@,
            host.installer_image@,
            host.hugepages_mounted,
        ),
{
    let mut arguments: Vec<String> = Vec::new();
    assert(texts(arguments@) =~= Seq::<Seq<char>>::empty());
    push_fragment(&mut arguments, descriptor, host);
    assert(texts(arguments@) =~= fragment(
        *descriptor,
        host.disk_image@,
        host.installer_image@,
        host.hugepages_mounted,
    ));
    arguments
}

/// The cores of an affinity set as a list for the pinning command.
pub fn render_core_list(cores: &[u32]) -> (list: String)
    ensures
        list@ == core_list(cores@),
{
    proof {
        reveal_strlit("");
    }
    let mut list = String::from_str("");
    let mut i: usize = 0;
    while i < cores.len()
        invariant
            i <= cores@.len(),
            list@ == core_list(cores@.take(i as int)),
        decreases cores@.len() - i,
    {
        let ghost done = cores@.take(i as int);
        let ghost next = cores@.take(i + 1);
        assert(next.drop_last() =~= done);
        assert(next.last() == cores@[i as int]);
        if i > 0 {
            list.append(",");
        }
        push_decimal(&mut list, cores[i]);
        assert(list@ =~= core_list(next));
        i += 1;
    }
    assert(cores@.take(i as int) =~= cores@);
    list
}

/// The command line that launches a plan: the hypervisor, pinned to the
/// cores of the profile, with the fragment of each descriptor in the order of
/// the plan.
pub fn command_line(plan: &LaunchPlan, profile: &VmProfile, host: &HostSetup) -> (arguments: Vec<
    String,
>)
    ensures
        texts(arguments@) == command_line_for(
            plan@,
            profile@.cpu_affinity,
            host.disk_image@,
            host.installer_image@,
            host.hugepages_mounted,
        ),
{
    let cores = profile.cpu_affinity();
    let descriptors = plan.descriptors();
    let mut arguments: Vec<String> = Vec::new();
    assert(texts(arguments@) =~= Seq::<Seq<char>>::empty());
    push_argument(&mut arguments, "taskset");
    push_argument(&mut arguments, "-c");
    push_built(&mut arguments, render_core_list(cores));
    push_argument(&mut arguments, "qemu-system-x86_64");
    assert(texts(arguments@) =~= pinning_arguments(cores@));
    let mut i: usize = 0;
    while i < descriptors.len()
        invariant
            i <= descriptors@.len(),
            descriptors@ == plan@,
            texts(arguments@) == pinning_arguments(cores@) + plan_arguments(
                descriptors@.take(i as int),
                host.disk_image@,
                host.installer_image@,
                host.hugepages_mounted,
            ),
        decreases descriptors@.len() - i,
    {
        let ghost done = descriptors@.take(i as int);
        let ghost next = descriptors@.take(i + 1);
        assert(next.drop_last() =~= done);
        assert(next.last() == descriptors@[i as int]);
        push_fragment(&mut arguments, &descriptors[i], host);
        assert(texts(arguments@) =~= pinning_arguments(cores@) + plan_arguments(
            next,
            host.disk_image@,
            host.installer_image@,
            host.hugepages_mounted,
        ));
        i += 1;
    }
    assert(descriptors@.take(i as int) =~= descriptors@);
    arguments
}

} // verus!
