use tenpod::driver::DriverBinding;
use tenpod::readiness::{check_readiness, detect_iommu, CheckKind};

const IOMMU_TEXT: &str = "IOMMU not enabled!\nAdd to /etc/default/grub: GRUB_CMDLINE_LINUX=\"intel_iommu=on\" (or amd_iommu=on)\nThen run: sudo grub2-mkconfig -o /boot/grub2/grub.cfg && sudo reboot";
const VIRT_TEXT: &str = "CPU virtualization not available!\nEnable VT-x (Intel) or AMD-V (AMD) in your BIOS settings.";

#[test]
fn driver_link_names_are_classified() {
    assert_eq!(DriverBinding::from_link_name(None), DriverBinding::Unbound);
    assert_eq!(DriverBinding::from_link_name(Some("nvidia")), DriverBinding::Nvidia);
    assert_eq!(DriverBinding::from_link_name(Some("nouveau")), DriverBinding::Nouveau);
    assert_eq!(DriverBinding::from_link_name(Some("vfio-pci")), DriverBinding::VfioPci);
    assert_eq!(
        DriverBinding::from_link_name(Some("amdgpu")),
        DriverBinding::Other("amdgpu".to_string())
    );
}

#[test]
fn near_misses_are_other_drivers() {
    for n in ["", "NVIDIA", "nvidia ", "vfio_pci", "vfio-pci2", "nouvea", "unknown"] {
        assert_eq!(DriverBinding::from_link_name(Some(n)), DriverBinding::Other(n.to_string()));
    }
}

#[test]
fn driver_names_are_given_back() {
    assert_eq!(DriverBinding::Unbound.name(), None);
    assert_eq!(DriverBinding::Nvidia.name(), Some("nvidia"));
    assert_eq!(DriverBinding::Nouveau.name(), Some("nouveau"));
    assert_eq!(DriverBinding::VfioPci.name(), Some("vfio-pci"));
    assert_eq!(DriverBinding::Other("i915".to_string()).name(), Some("i915"));
}

#[test]
fn only_the_passthrough_driver_is_ready() {
    assert!(DriverBinding::VfioPci.is_ready());
    assert!(!DriverBinding::Unbound.is_ready());
    assert!(!DriverBinding::Nvidia.is_ready());
    assert!(!DriverBinding::Nouveau.is_ready());
    assert!(!DriverBinding::Other("vfio-pci".to_string()).is_ready());
}

#[test]
fn iommu_marker_is_found_in_any_case() {
    assert!(detect_iommu("[    0.1] DMAR: IOMMU enabled\n"));
    assert!(detect_iommu("[    0.2] pci 0000:00:00.0: Adding to iommu group 0\n"));
    assert!(detect_iommu("AMD-Vi: Iommu ready"));
    assert!(!detect_iommu("[    0.1] ACPI: DMAR table\n[    0.2] kvm: ready\n"));
    assert!(!detect_iommu(""));
    assert!(!detect_iommu("iomm\nu"));
}

#[test]
fn ready_host_has_no_failures() {
    let r = check_readiness("DMAR: IOMMU enabled", true, DriverBinding::VfioPci);
    assert!(r.iommu_ok);
    assert!(r.virt_ext_ok);
    assert_eq!(r.gpu_driver, DriverBinding::VfioPci);
    assert!(r.failures.is_empty());
    assert!(r.is_ready());
}

#[test]
fn missing_iommu_is_reported_with_its_remedy() {
    let r = check_readiness("nothing here", true, DriverBinding::Nvidia);
    assert!(!r.iommu_ok);
    assert!(r.virt_ext_ok);
    assert_eq!(r.failures, vec![(CheckKind::Iommu, IOMMU_TEXT)]);
    assert!(!r.is_ready());
}

#[test]
fn missing_virtualization_is_reported_with_its_remedy() {
    let r = check_readiness("iommu: on", false, DriverBinding::Unbound);
    assert!(r.iommu_ok);
    assert!(!r.virt_ext_ok);
    assert_eq!(r.failures, vec![(CheckKind::VirtualizationExtension, VIRT_TEXT)]);
    assert!(!r.is_ready());
}

#[test]
fn both_failures_are_reported_in_order() {
    let r = check_readiness("", false, DriverBinding::Other("amdgpu".to_string()));
    assert_eq!(
        r.failures,
        vec![(CheckKind::Iommu, IOMMU_TEXT), (CheckKind::VirtualizationExtension, VIRT_TEXT)]
    );
    assert_eq!(r.gpu_driver, DriverBinding::Other("amdgpu".to_string()));
    assert!(!r.is_ready());
}

#[test]
fn the_driver_never_blocks_readiness() {
    for d in [
        DriverBinding::Unbound,
        DriverBinding::Nvidia,
        DriverBinding::Nouveau,
        DriverBinding::VfioPci,
        DriverBinding::Other("x".to_string()),
    ] {
        let r = check_readiness("IOMMU", true, d.clone());
        assert!(r.is_ready());
        assert!(r.failures.is_empty());
        assert_eq!(r.gpu_driver, d);
    }
}

#[test]
fn remedies_differ_per_check() {
    assert_eq!(CheckKind::Iommu.remediation(), IOMMU_TEXT);
    assert_eq!(CheckKind::VirtualizationExtension.remediation(), VIRT_TEXT);
    assert_ne!(CheckKind::Iommu.remediation(), CheckKind::VirtualizationExtension.remediation());
}
