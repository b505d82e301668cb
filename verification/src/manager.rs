//! The manager: what one run carries from hardware detection to the launch
//! plan.

use crate::headset::HeadsetDevice;
use crate::topology::{resolve_gpu, resolved_topology, GpuTopology, ResolutionError};
use crate::plan::{build_plan, plan_for, LaunchPlan, VmProfile, VmProfileView};
use vstd::prelude::*;

verus! {

/// Why no launch plan was built.
#[derive(Clone, Copy, Debug, PartialEq, Eq, Structural)]
pub enum StartError {
    /// No GPU has been detected yet.
    HardwareNotDetected,
    /// The guest's disk image does not exist.
    DiskImageMissing,
}

/// The state of the manager: the GPU detected on the host, once it has been,
/// and the resources that the guest is to get.
#[derive(Clone, Debug, PartialEq, Eq)]
pub struct TenPod {
    pub topology: Option<GpuTopology>,
    pub profile: VmProfile,
}

impl TenPod {
    /// A manager that has detected no hardware yet, with the profile
    /// recommended for VR.
    pub fn new() -> (pod: TenPod)
        ensures
            pod.topology is None,
            pod.profile@ == (VmProfileView {
                memory_gb: 16,
                cpu_affinity: seq![4u32, 5u32, 6u32, 7u32],
            }),
    {
        TenPod { topology: None, profile: VmProfile::recommended() }
    }

    /// Resolves the GPU from the text of a PCI enumeration and keeps it.
    /// Where the text describes no GPU, the manager stays as it was.
    pub fn detect_hardware(&mut self, pci_text: &str) -> (r: Result<(), ResolutionError>)
        ensures
            final(self).profile == old(self).profile,
            match r {
                Ok(_) => final(self).topology matches Some(t) && resolved_topology(pci_text@)
                    == Some(t@),
                Err(e) => {
                    &&& e == ResolutionError::NoGpuFound
                    &&& resolved_topology(pci_text@) is None
                    &&& final(self).topology == old(self).topology
                },
            },
    {
        match resolve_gpu(pci_text) {
            Ok(topology) => {
                self.topology = Some(topology);
                Ok(())
            },
            Err(e) => Err(e),
        }
    }

    /// Builds the launch plan for the detected GPU and the headsets found.
    ///
    /// No plan is built before a GPU was detected, nor without the guest's
    /// disk image; of the two, the missing GPU is reported first.
    pub fn start(&self, headsets: &[HeadsetDevice], disk_present: bool, iso_present: bool) -> (r:
        Result<LaunchPlan, StartError>)
        ensures
            match r {
                Ok(plan) => {
                    &&& disk_present
                    &&& self.topology matches Some(t) && plan@ == plan_for(
                        t@,
                        headsets@,
                        self.profile@,
                        iso_present,
                    )
                },
                Err(e) => e == (if self.topology is None {
                    StartError::HardwareNotDetected
                } else {
                    StartError::DiskImageMissing
                }) && (self.topology is None || !disk_present),
            },
    {
        match &self.topology {
            None => Err(StartError::HardwareNotDetected),
            Some(topology) => {
                if disk_present {
                    Ok(build_plan(topology, headsets, &self.profile, disk_present, iso_present))
                } else {
                    Err(StartError::DiskImageMissing)
                }
            },
        }
    }
}

} // verus!
