use elohim::boot::{
    allocated_frame, default_config, file_buffer_len, file_page_count, find_acpi2_entry,
    find_config_entry, find_mode, max_phys_addr, physical_memory_ranges, MemoryRegion,
};

#[test]
fn default_settings() {
    let c = default_config();
    assert_eq!(c.physical_memory_address, 0xFFFF800000000000);
    assert_eq!(c.efi_path, "\\EFI\\Elohim\\Elohim.efi");
    assert_eq!(c.resolution, (1024, 768));
}

#[test]
fn mode_selection_takes_first_match() {
    let modes = [(640, 480), (1024, 768), (800, 600), (1024, 768)];
    assert_eq!(find_mode(&modes, (1024, 768)), Some(1));
    assert_eq!(find_mode(&modes, (640, 480)), Some(0));
    assert_eq!(find_mode(&modes, (1920, 1080)), None);
    assert_eq!(find_mode(&[], (1024, 768)), None);
}

#[test]
fn acpi2_entry_found_by_uefi_guid() {
    let acpi1 = uefi::table::cfg::ConfigTableEntry::ACPI_GUID.to_bytes();
    let acpi2 = uefi::table::cfg::ConfigTableEntry::ACPI2_GUID.to_bytes();
    let smbios = uefi::table::cfg::ConfigTableEntry::SMBIOS_GUID.to_bytes();
    assert_eq!(find_acpi2_entry(&[acpi1, smbios, acpi2, acpi2]), Some(2));
    assert_eq!(find_acpi2_entry(&[acpi1, smbios]), None);
    assert_eq!(
        acpi2,
        [0x71, 0xe8, 0x68, 0x88, 0xf1, 0xe4, 0xd3, 0x11, 0xbc, 0x22, 0x00, 0x80, 0xc7, 0x3c, 0x88, 0x81]
    );
}

#[test]
fn config_entry_lookup() {
    let a = [1u8; 16];
    let b = [2u8; 16];
    assert_eq!(find_config_entry(&[a, b], &b), Some(1));
    assert_eq!(find_config_entry(&[a, a], &b), None);
}

#[test]
fn file_buffer_sizes() {
    assert_eq!(file_page_count(0), 1);
    assert_eq!(file_page_count(4095), 1);
    assert_eq!(file_page_count(4096), 2);
    assert_eq!(file_page_count(10000), 3);
    assert_eq!(file_buffer_len(10000), 3 * 4096);
    assert_eq!(file_buffer_len(4096), 8192);
}

fn region(ty: u32, phys_start: u64, page_count: u64) -> MemoryRegion {
    MemoryRegion { ty, phys_start, page_count }
}

#[test]
fn max_phys_addr_at_least_4gib() {
    let small = [region(7, 0, 16), region(2, 0x10_0000, 256)];
    assert_eq!(max_phys_addr(&small), 0x1_0000_0000);
    let big = [region(7, 0, 16), region(7, 0x1_0000_0000, 0x1000), region(1, 0x2000, 1)];
    assert_eq!(max_phys_addr(&big), 0x1_0100_0000);
}

#[test]
fn usable_memory_ranges() {
    let map = [
        region(7, 0x1000, 2),
        region(2, 0x10_0000, 256),
        region(7, 0x20_0000, 0x100),
        region(4, 0x30_0000, 1),
    ];
    assert_eq!(
        physical_memory_ranges(&map),
        vec![(0x1000, 0x3000), (0x20_0000, 0x30_0000)]
    );
    assert_eq!(physical_memory_ranges(&[]), Vec::<(u64, u64)>::new());
    assert_eq!(physical_memory_ranges(&[region(3, 0, 1)]), Vec::<(u64, u64)>::new());
}

#[test]
fn frames_of_allocated_pages() {
    assert_eq!(allocated_frame(0x12345), 0x12000);
    assert_eq!(allocated_frame(0x2000), 0x2000);
    assert_eq!(allocated_frame(0x000f_ffff_ffff_ffff), 0x000f_ffff_ffff_f000);
}

#[test]
fn usable_ranges_are_whole_pages() {
    let map = [region(7, 0x1000, 3), region(1, 0, 1), region(7, 0xA000, 0)];
    let ranges = physical_memory_ranges(&map);
    assert!(ranges.len() <= map.len());
    for (start, end) in ranges {
        assert!(start <= end);
        assert_eq!((end - start) % 4096, 0);
    }
}
