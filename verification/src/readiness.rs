//! Host readiness for device passthrough: which preconditions hold, and how
//! to remedy those that do not.

use crate::driver::DriverBinding;
use crate::text::{chars_of, contains_ignoring_case, has_substring_ignoring_case};
use vstd::prelude::*;

verus! {

/// A precondition without which passthrough cannot work.
#[derive(Clone, Copy, Debug, PartialEq, Eq, Structural)]
pub enum CheckKind {
    /// The IOMMU is active.
    Iommu,
    /// The CPU's virtualization extension is available to the kernel.
    VirtualizationExtension,
}

/// What to do where the IOMMU is not active.
pub const IOMMU_REMEDIATION: &'static str =
    "IOMMU not enabled!\nAdd to /etc/default/grub: GRUB_CMDLINE_LINUX=\"intel_iommu=on\" (or amd_iommu=on)\nThen run: sudo grub2-mkconfig -o /boot/grub2/grub.cfg && sudo reboot";

/// What to do where the virtualization extension is not available.
pub const VIRTUALIZATION_REMEDIATION: &'static str =
    "CPU virtualization not available!\nEnable VT-x (Intel) or AMD-V (AMD) in your BIOS settings.";

impl CheckKind {
    /// What to do about the failure of a check.
    pub open spec fn remediation_text(self) -> &'static str {
        match self {
            CheckKind::Iommu => IOMMU_REMEDIATION,
            CheckKind::VirtualizationExtension => VIRTUALIZATION_REMEDIATION,
        }
    }

    /// What to do about the failure of this check.
    #[verifier::when_used_as_spec(remediation_text)]
    pub fn remediation(self) -> (text: &'static str)
        ensures
            text == self.remediation_text(),
    {
        match self {
            CheckKind::Iommu => IOMMU_REMEDIATION,
            CheckKind::VirtualizationExtension => VIRTUALIZATION_REMEDIATION,
        }
    }
}

/// The boot log shows an IOMMU: it holds the word `iommu`, in any case.
pub open spec fn has_iommu_marker(boot_log: Seq<char>) -> bool {
    contains_ignoring_case(boot_log, "iommu"@)
}

/// The failures that the outcome of the two blocking checks calls for: the
/// IOMMU check first, each with its own remediation.
pub open spec fn blocking_failures(iommu_ok: bool, virt_ext_ok: bool) -> Seq<
    (CheckKind, &'static str),
> {
    let iommu = if iommu_ok {
        Seq::empty()
    } else {
        seq![(CheckKind::Iommu, CheckKind::Iommu.remediation_text())]
    };
    let virt = if virt_ext_ok {
        Seq::empty()
    } else {
        seq![
            (
                CheckKind::VirtualizationExtension,
                CheckKind::VirtualizationExtension.remediation_text(),
            ),
        ]
    };
    iommu + virt
}

/// The outcome of the readiness checks. It is advice: whether to go on
/// despite a failure is for the caller to decide.
#[derive(Clone, Debug, PartialEq, Eq)]
pub struct ReadinessReport {
    /// The IOMMU is active.
    pub iommu_ok: bool,
    /// The virtualization extension is available.
    pub virt_ext_ok: bool,
    /// The driver that holds the GPU now. It never counts as a failure.
    pub gpu_driver: DriverBinding,
    /// The blocking checks that failed, in the order in which they were made,
    /// each with what to do about it.
    pub failures: Vec<(CheckKind, &'static str)>,
}

impl ReadinessReport {
    /// The failures are those that the two flags call for.
    pub open spec fn wf(self) -> bool {
        self.failures@ == blocking_failures(self.iommu_ok, self.virt_ext_ok)
    }

    /// Whether no blocking check failed.
    pub fn is_ready(&self) -> (ready: bool)
        ensures
            ready == (self.failures@.len() == 0),
            self.wf() ==> ready == (self.iommu_ok && self.virt_ext_ok),
    {
        self.failures.len() == 0
    }
}

/// Whether a boot log shows an IOMMU.
pub fn detect_iommu(boot_log: &str) -> (found: bool)
    ensures
        found == has_iommu_marker(boot_log@),
{
    let log = chars_of(boot_log);
    let marker = chars_of("iommu");
    has_substring_ignoring_case(log.as_slice(), marker.as_slice())
}

/// Evaluates the readiness of the host from the signals collected on it: the
/// text of the kernel's boot log, whether the virtualization device node
/// exists, and the driver that holds the GPU.
///
/// Every check is made, whatever the outcome of the others, so that the
/// report is complete.
pub fn check_readiness(
    boot_log: &str,
    virt_node_present: bool,
    gpu_driver: DriverBinding,
) -> (report: ReadinessReport)
    ensures
        report.iommu_ok == has_iommu_marker(boot_log@),
        report.virt_ext_ok == virt_node_present,
        report.gpu_driver == gpu_driver,
        report.failures@ == blocking_failures(
            has_iommu_marker(boot_log@),
            virt_node_present,
        ),
        report.wf(),
{
    let iommu_ok = detect_iommu(boot_log);
    let mut failures: Vec<(CheckKind, &'static str)> = Vec::new();
    if !iommu_ok {
        failures.push((CheckKind::Iommu, CheckKind::Iommu.remediation()));
    }
    if !virt_node_present {
        failures.push(
            (CheckKind::VirtualizationExtension, CheckKind::VirtualizationExtension.remediation()),
        );
    }
    assert(failures@ =~= blocking_failures(iommu_ok, virt_node_present));
    ReadinessReport { iommu_ok, virt_ext_ok: virt_node_present, gpu_driver, failures }
}

} // verus!
