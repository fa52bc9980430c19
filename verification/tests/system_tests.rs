use rkernel::cpuid::{append_text, brand, CpuidResult};
use rkernel::mem::{create_mapping, framebuffer_mapping, memory_size, BootInfoFrameAllocator, MemoryArea};
use rkernel::pci::{config_address, register_offsets, PciDevice, PciScan};
use rkernel::vga::{CellWrite, Screen};

fn area(start: u64, end: u64, available: bool) -> MemoryArea {
    MemoryArea { start, end, available }
}

#[test]
fn allocator_walks_available_areas() {
    let mut a = BootInfoFrameAllocator::init(vec![
        area(0x0, 0x3000, true),
        area(0x3000, 0x5000, false),
        area(0x10_0000, 0x10_1800, true),
    ]);
    let got: Vec<Option<u64>> = (0..6).map(|_| a.allocate_frame()).collect();
    // the last half frame of the third area is not handed out
    assert_eq!(got, vec![Some(0x0), Some(0x1000), Some(0x2000), Some(0x10_0000), None, None]);
}

#[test]
fn allocator_steps_from_unaligned_start() {
    let mut a = BootInfoFrameAllocator::init(vec![area(0x1234, 0x3000, true), area(0x5000, 0x5000, true)]);
    assert_eq!(a.allocate_frame(), Some(0x2000));
    assert_eq!(a.allocate_frame(), None);
}

#[test]
fn allocator_skips_areas_without_a_whole_frame() {
    let mut a = BootInfoFrameAllocator::init(vec![
        area(0x1800, 0x2000, true),
        area(0x4001, 0x5FFF, true),
        area(0x7000, 0x8000, true),
    ]);
    assert_eq!(a.allocate_frame(), Some(0x7000));
    assert_eq!(a.allocate_frame(), None);
    let mut top = BootInfoFrameAllocator::init(vec![area(u64::MAX - 0x800, u64::MAX, true)]);
    assert_eq!(top.allocate_frame(), None);
}

#[test]
fn allocator_empty_map() {
    let mut a = BootInfoFrameAllocator::init(Vec::new());
    assert_eq!(a.allocate_frame(), None);
}

#[test]
fn framebuffer_identity_mapping() {
    let m = framebuffer_mapping(0xFD00_0000, 800 * 600);
    assert_eq!(m.len(), 118);
    assert_eq!(m[0], (0xFD00_0000, 0xFD00_0000));
    assert_eq!(m[117], (0xFD07_5000, 0xFD07_5000));
    assert!(m.iter().all(|&(p, f)| p == f && p % 4096 == 0));
    let m = framebuffer_mapping(0x1234, 0);
    assert_eq!(m, vec![(0x1000, 0x1000)]);
}

#[test]
fn memory_size_sums_areas() {
    assert_eq!(memory_size(&[]), 0);
    assert_eq!(memory_size(&[area(0, 0x9FC00, true), area(0x10_0000, 0x800_0000, true)]), 0x9FC00 + 0x7F0_0000);
}

#[test]
fn pci_config_address_fields() {
    assert_eq!(config_address(0, 3, 1, 0x0B), 0x8000_1908);
    assert_eq!(config_address(0xFF, 31, 7, 0xFF), 0x80FF_FFFC);
    assert_eq!(config_address(0, 0, 0, 0), 0x8000_0000);
    assert_eq!(register_offsets(), [0x0, 0x2, 0xa, 0xb, 0xe]);
}

#[test]
fn pci_device_presence() {
    let d = PciDevice::new([0x1237_8086, 0x1237_8086, 0x0600_0002, 0x0600_0002, 0x0000_0000]);
    assert!(d.is_present());
    assert_eq!(d.vendor_id(), 0x1237_8086);
    assert_eq!(d.device_id(), 0x1237_8086);
    let empty = PciDevice::new([0xFFFF_FFFF; 5]);
    assert!(!empty.is_present());
}

#[test]
fn pci_scan_visits_populated_slots() {
    // devices: slot 2 functions 0 and 1, slot 5 function 0
    let present = |slot: u8, function: u8| (slot == 2 && function <= 1) || (slot == 5 && function == 0);
    let mut scan = PciScan::new();
    let mut probes = 0;
    let mut reports = Vec::new();
    while let Some((slot, function)) = scan.target() {
        probes += 1;
        if scan.step(present(slot, function)) {
            reports.push((slot, function));
        }
    }
    assert_eq!(reports, vec![(2, 0), (2, 1), (5, 0)]);
    // 31 slot probes plus 7 function probes in each of the two populated slots
    assert_eq!(probes, 31 + 2 * 7);
}

#[test]
fn cpuid_brand_string() {
    let text = b"Intel(R) Core(TM) i7 CPU          920  @ 2.67GHz";
    let mut leaves = Vec::new();
    for leaf in 0..3 {
        let reg = |r: usize| {
            let i = leaf * 16 + r * 4;
            u32::from_le_bytes([text[i], text[i + 1], text[i + 2], text[i + 3]])
        };
        leaves.push(CpuidResult { eax: reg(0), ebx: reg(1), ecx: reg(2), edx: reg(3) });
    }
    assert_eq!(brand(&leaves), text.to_vec());
}

#[test]
fn cpuid_brand_replaces_invalid_bytes() {
    let leaves = [CpuidResult { eax: 0x0000_FF41, ebx: 0, ecx: 0, edx: 0 }];
    let mut want = vec![0x41u8, 0xEF, 0xBF, 0xBD, 0x00, 0x00];
    want.extend_from_slice(&[0u8; 12]);
    assert_eq!(brand(&leaves), want);
}

#[test]
fn text_console_writes_and_erases() {
    let mut s = Screen::new();
    s.write_byte(b'A');
    assert_eq!(s.take_writes(), vec![CellWrite { offset: 2, value: b'A' }, CellWrite { offset: 3, value: 0xB }]);
    s.pop();
    assert_eq!(s.take_writes(), vec![CellWrite { offset: 3, value: 0xB }, CellWrite { offset: 2, value: b' ' }]);
    s.write(b"hi");
    assert_eq!(
        s.take_writes(),
        vec![
            CellWrite { offset: 2, value: b'h' },
            CellWrite { offset: 3, value: 0xB },
            CellWrite { offset: 4, value: b'i' },
            CellWrite { offset: 5, value: 0xB },
        ]
    );
    s.pop();
    s.pop();
    s.pop();
    assert_eq!(s.take_writes()[4], CellWrite { offset: 1, value: 0xB });
    s.write_byte(b'x');
    assert_eq!(s.take_writes()[0], CellWrite { offset: 0, value: b'x' });
}

#[test]
fn pci_config_address_reads_back_fields() {
    for &(bus, slot, function, offset) in &[(0u8, 0u8, 0u8, 0u8), (3, 17, 5, 0x3E), (255, 31, 7, 0xFF)] {
        let a = config_address(bus, slot, function, offset);
        assert_eq!(a >> 31, 1);
        assert_eq!((a >> 16) & 0xFF, bus as u32);
        assert_eq!((a >> 11) & 0x1F, slot as u32);
        assert_eq!((a >> 8) & 0x7, function as u32);
        assert_eq!(a & 0xFF, (offset & 0xFC) as u32);
    }
}

#[test]
fn mapping_frame_holds_address() {
    assert_eq!(create_mapping(0x1234_5678), 0x1234_5000);
    assert_eq!(create_mapping(0x2000), 0x2000);
    assert_eq!(create_mapping(0xF_FFFF_FFFF_FFFF), 0xF_FFFF_FFFF_F000);
}

#[test]
fn brand_text_appends_in_order() {
    let mut out = b"Genu".to_vec();
    append_text(&mut out, b"ineI");
    append_text(&mut out, b"");
    assert_eq!(out, b"GenuineI".to_vec());
}
