use tenpod::pci::PciAddress;
use tenpod::topology::{resolve_gpu, GpuTopology, ResolutionError};

const GPU_LINE: &str =
    "01:00.0 VGA compatible controller [0300]: NVIDIA Corporation [10de:2204] (rev a1)";
const AUDIO_LINE: &str = "01:00.1 Audio device [0403]: NVIDIA Corporation [10de:1aeb]";

fn addr(bus: u8, device: u8, function: u8) -> PciAddress {
    PciAddress::new(bus, device, function).unwrap()
}

fn join(lines: &[&str]) -> String {
    let mut s = String::new();
    for l in lines {
        s.push_str(l);
        s.push('\n');
    }
    s
}

#[test]
fn address_parts_are_kept() {
    let a = addr(0x0a, 0x1f, 7);
    assert_eq!(a.bus, 0x0a);
    assert_eq!(a.device(), 0x1f);
    assert_eq!(a.function(), 7);
    let b = addr(0, 0, 0);
    assert_eq!((b.bus, b.device(), b.function()), (0, 0, 0));
}

#[test]
fn address_rejects_parts_out_of_range() {
    assert_eq!(PciAddress::new(0, 32, 0), None);
    assert_eq!(PciAddress::new(0, 0, 8), None);
    assert_eq!(PciAddress::new(255, 255, 255), None);
    assert!(PciAddress::new(255, 31, 7).is_some());
}

#[test]
fn canonical_form_has_the_domain_prefix() {
    assert_eq!(addr(1, 0, 0).to_canonical_string(), "0000:01:00.0");
    assert_eq!(addr(0x0a, 0x1f, 7).to_canonical_string(), "0000:0a:1f.7");
    assert_eq!(addr(0xff, 0x10, 3).to_canonical_string(), "0000:ff:10.3");
}

#[test]
fn short_form_has_no_domain() {
    assert_eq!(addr(1, 0, 1).to_short_string(), "01:00.1");
    assert_eq!(addr(0xc4, 0x02, 5).to_short_string(), "c4:02.5");
}

#[test]
fn address_is_read_from_either_form() {
    assert_eq!(PciAddress::from_text("01:00.0"), Some(addr(1, 0, 0)));
    assert_eq!(PciAddress::from_text("0000:01:00.0"), Some(addr(1, 0, 0)));
    assert_eq!(PciAddress::from_text("0a:1f.7"), Some(addr(0x0a, 0x1f, 7)));
    assert_eq!(PciAddress::from_text("0000:ff:10.3"), Some(addr(0xff, 0x10, 3)));
}

#[test]
fn address_comparison_ignores_the_case_of_digits() {
    assert_eq!(PciAddress::from_text("0A:1F.7"), PciAddress::from_text("0a:1f.7"));
    assert_eq!(PciAddress::from_text("0000:0A:1f.7"), Some(addr(0x0a, 0x1f, 7)));
}

#[test]
fn malformed_addresses_are_refused() {
    for t in [
        "", "01:00", "01:00.", "01:00.00", "1:00.0", "01-00.0", "01:00:0", "0g:00.0", "01:0g.0",
        "01:00.g", "01:20.0", "01:00.8", "0001:01:00.0", "0000:01:00", "0000:01:00.8",
        "0000-01:00.0", " 01:00.0", "01:00.0 ", "00000:01:00.0",
    ] {
        assert_eq!(PciAddress::from_text(t), None, "{:?}", t);
    }
}

#[test]
fn written_forms_read_back() {
    for bus in [0u8, 1, 0x7f, 0xff] {
        for device in [0u8, 1, 0x10, 0x1f] {
            for function in 0u8..8 {
                let a = addr(bus, device, function);
                assert_eq!(PciAddress::from_text(&a.to_short_string()), Some(a));
                assert_eq!(PciAddress::from_text(&a.to_canonical_string()), Some(a));
            }
        }
    }
}

#[test]
fn same_bus_compares_the_bus_only() {
    assert!(addr(1, 0, 0).same_bus(addr(1, 3, 1)));
    assert!(!addr(1, 0, 0).same_bus(addr(2, 0, 0)));
}

#[test]
fn topology_requires_a_shared_bus() {
    assert!(GpuTopology::new(addr(1, 0, 0), Some(addr(1, 0, 1))).is_some());
    assert!(GpuTopology::new(addr(1, 0, 0), None).is_some());
    assert!(GpuTopology::new(addr(1, 0, 0), Some(addr(2, 0, 1))).is_none());
    let t = GpuTopology::new(addr(1, 0, 0), Some(addr(1, 0, 1))).unwrap();
    assert_eq!(t.video(), addr(1, 0, 0));
    assert_eq!(t.audio(), Some(addr(1, 0, 1)));
}

#[test]
fn gpu_and_audio_on_one_bus_are_resolved() {
    let t = resolve_gpu(&join(&[GPU_LINE, AUDIO_LINE])).unwrap();
    assert_eq!(t.video().to_canonical_string(), "0000:01:00.0");
    assert_eq!(t.audio().map(|a| a.to_canonical_string()), Some("0000:01:00.1".to_string()));
    assert_eq!(t, GpuTopology::new(addr(1, 0, 0), Some(addr(1, 0, 1))).unwrap());
}

#[test]
fn text_without_final_line_feed_is_resolved() {
    let text = format!("{}\n{}", GPU_LINE, AUDIO_LINE);
    let t = resolve_gpu(&text).unwrap();
    assert_eq!(t.video(), addr(1, 0, 0));
    assert_eq!(t.audio(), Some(addr(1, 0, 1)));
}

#[test]
fn carriage_returns_do_not_disturb() {
    let text = format!("{}\r\n{}\r\n", GPU_LINE, AUDIO_LINE);
    let t = resolve_gpu(&text).unwrap();
    assert_eq!(t.video(), addr(1, 0, 0));
    assert_eq!(t.audio(), Some(addr(1, 0, 1)));
}

#[test]
fn audio_line_before_the_gpu_line_counts() {
    let t = resolve_gpu(&join(&[AUDIO_LINE, GPU_LINE])).unwrap();
    assert_eq!(t.video(), addr(1, 0, 0));
    assert_eq!(t.audio(), Some(addr(1, 0, 1)));
}

#[test]
fn gpu_without_audio_is_no_error() {
    let t = resolve_gpu(&join(&[
        "00:1f.3 Audio device [0403]: Intel Corporation [8086:a348] (rev 10)",
        GPU_LINE,
        "02:00.1 Audio device [0403]: NVIDIA Corporation [10de:1aeb]",
    ]))
    .unwrap();
    assert_eq!(t.video(), addr(1, 0, 0));
    assert_eq!(t.audio(), None);
}

#[test]
fn audio_needs_the_bus_in_its_address() {
    // The digits of the GPU's bus occur in the line, but not as its bus.
    let t = resolve_gpu(&join(&[
        GPU_LINE,
        "02:00.1 Audio device [0403]: Intel Corporation [8086:0101]",
    ]))
    .unwrap();
    assert_eq!(t.audio(), None);
}

#[test]
fn no_gpu_line_fails() {
    assert_eq!(resolve_gpu(""), Err(ResolutionError::NoGpuFound));
    assert_eq!(resolve_gpu("\n\n"), Err(ResolutionError::NoGpuFound));
    assert_eq!(
        resolve_gpu(&join(&[
            "00:02.0 VGA compatible controller [0300]: Intel Corporation [8086:3e92]",
            AUDIO_LINE,
            "03:00.0 Ethernet controller [0200]: NVIDIA Corporation [10de:0000]",
        ])),
        Err(ResolutionError::NoGpuFound)
    );
}

#[test]
fn vendor_code_or_name_marks_nvidia() {
    let by_code = resolve_gpu("04:00.0 VGA compatible controller [0300]: [10de:2204]\n").unwrap();
    assert_eq!(by_code.video(), addr(4, 0, 0));
    let by_name = resolve_gpu("05:00.0 3D controller: NVIDIA Corporation GA100\n").unwrap();
    assert_eq!(by_name.video(), addr(5, 0, 0));
    assert_eq!(
        resolve_gpu("05:00.0 3D controller: nvidia corporation [10DE:2204]\n"),
        Err(ResolutionError::NoGpuFound)
    );
}

#[test]
fn first_gpu_wins() {
    let t = resolve_gpu(&join(&[
        GPU_LINE,
        AUDIO_LINE,
        "41:00.0 VGA compatible controller [0300]: NVIDIA Corporation [10de:2684]",
        "41:00.1 Audio device [0403]: NVIDIA Corporation [10de:22ba]",
    ]))
    .unwrap();
    assert_eq!(t.video(), addr(1, 0, 0));
    assert_eq!(t.audio(), Some(addr(1, 0, 1)));
}

#[test]
fn last_audio_line_on_the_bus_wins() {
    let t = resolve_gpu(&join(&[
        GPU_LINE,
        AUDIO_LINE,
        "01:00.2 Audio device [0403]: NVIDIA Corporation [10de:1aec]",
        "02:00.3 Audio device [0403]: NVIDIA Corporation [10de:1aed]",
    ]))
    .unwrap();
    assert_eq!(t.audio(), Some(addr(1, 0, 2)));
}

#[test]
fn lines_with_unreadable_addresses_are_passed_over() {
    let t = resolve_gpu(&join(&[
        "VGA compatible controller [0300]: NVIDIA Corporation [10de:2204]",
        "0x:00.0 VGA compatible controller [0300]: NVIDIA Corporation [10de:2204]",
        "01:00 VGA compatible controller [0300]: NVIDIA Corporation [10de:2204]",
        "07:00.0 VGA compatible controller [0300]: NVIDIA Corporation [10de:2204]",
        "Audio device [0403]: NVIDIA Corporation [10de:1aeb]",
        "07:00.1 Audio device [0403]: NVIDIA Corporation [10de:1aeb]",
    ]))
    .unwrap();
    assert_eq!(t.video(), addr(7, 0, 0));
    assert_eq!(t.audio(), Some(addr(7, 0, 1)));
}

#[test]
fn only_unreadable_gpu_lines_fail() {
    assert_eq!(
        resolve_gpu("VGA compatible controller [0300]: NVIDIA Corporation [10de:2204]\n"),
        Err(ResolutionError::NoGpuFound)
    );
}

#[test]
fn addresses_with_domain_are_read() {
    let t = resolve_gpu(&join(&[
        "0000:01:00.0 VGA compatible controller [0300]: NVIDIA Corporation [10de:2204]",
        "0000:01:00.1 Audio device [0403]: NVIDIA Corporation [10de:1aeb]",
    ]))
    .unwrap();
    assert_eq!(t.video(), addr(1, 0, 0));
    assert_eq!(t.audio(), Some(addr(1, 0, 1)));
}

#[test]
fn leading_blanks_before_the_address_are_skipped() {
    let t = resolve_gpu(&format!("   {}\n\t{}\n", GPU_LINE, AUDIO_LINE)).unwrap();
    assert_eq!(t.video(), addr(1, 0, 0));
    assert_eq!(t.audio(), Some(addr(1, 0, 1)));
}

#[test]
fn every_address_reads_back_from_both_forms() {
    for bus in 0u8..=255 {
        for device in 0u8..32 {
            for function in 0u8..8 {
                let a = addr(bus, device, function);
                assert_eq!((a.bus, a.device(), a.function()), (bus, device, function));
                let short = a.to_short_string();
                assert_eq!(short, format!("{:02x}:{:02x}.{:x}", bus, device, function));
                assert_eq!(PciAddress::from_text(&short), Some(a));
                assert_eq!(PciAddress::from_text(&short.to_uppercase()), Some(a));
                let canonical = a.to_canonical_string();
                assert_eq!(canonical, format!("0000:{}", short));
                assert_eq!(PciAddress::from_text(&canonical), Some(a));
            }
        }
    }
}

#[test]
fn a_gpu_line_behind_another_does_not_choose_the_audio() {
    // The audio line stands behind the second GPU line, on its bus; the first
    // GPU line wins, and its bus has no audio function.
    let t = resolve_gpu(&join(&[
        GPU_LINE,
        "02:00.0 VGA compatible controller [0300]: NVIDIA Corporation [10de:2684]",
        "02:00.1 Audio device [0403]: NVIDIA Corporation [10de:22ba]",
    ]))
    .unwrap();
    assert_eq!(t.video(), addr(1, 0, 0));
    assert_eq!(t.audio(), None);
}

#[test]
fn resolved_audio_shares_the_bus_of_the_video_function() {
    for text in [
        join(&[GPU_LINE, AUDIO_LINE]),
        join(&[AUDIO_LINE, "02:00.1 Audio device", GPU_LINE, "01:1f.7 Audio device"]),
    ] {
        let t = resolve_gpu(&text).unwrap();
        let audio = t.audio().unwrap();
        assert!(audio.same_bus(t.video()));
        assert_eq!(GpuTopology::new(t.video(), t.audio()), Some(t));
    }
}
