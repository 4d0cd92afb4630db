use elohim::gdt::{
    canonical_address, interrupt_stack_of, kcode_selector, table_entries_of, tss_selector, Cpu,
    GdtSelectors, KCODE, KDATA, STACK_SIZE, UCODE, UDATA,
};

#[test]
fn hardcoded_selectors() {
    assert_eq!(kcode_selector(), 8);
    assert_eq!(tss_selector(), 40);
}

#[test]
fn canonical_forms() {
    assert_eq!(canonical_address(0x1234), Some(0x1234));
    assert_eq!(canonical_address(0x0000_7fff_ffff_ffff), Some(0x0000_7fff_ffff_ffff));
    assert_eq!(canonical_address(0x0000_8000_0000_0000), Some(0xffff_8000_0000_0000));
    assert_eq!(canonical_address(0xffff_8000_0000_0000), Some(0xffff_8000_0000_0000));
    assert_eq!(canonical_address(0x0001_0000_0000_0000), None);
    assert_eq!(canonical_address(0x8000_0000_0000_0000), None);
}

#[test]
fn new_cpu_is_empty() {
    let cpu = Cpu::new();
    assert_eq!(cpu.table_entries(), vec![0]);
    for i in 0..3 {
        assert_eq!(cpu.privilege_stack(i), 0);
    }
    for i in 0..7 {
        assert_eq!(cpu.interrupt_stack(i), 0);
    }
    assert_eq!(cpu.double_fault_stack().len(), STACK_SIZE);
    assert!(cpu.double_fault_stack().iter().all(|b| *b == 0));
}

#[test]
fn init_fills_table_and_stack() {
    let cpu: &'static mut Cpu = Box::leak(Box::new(Cpu::new()));
    let tables = cpu.init(0x10_0000);
    assert_eq!(
        tables.selectors,
        GdtSelectors { kernel_code: 8, kernel_data: 16, user_code: 27, user_data: 35, tss: 40 }
    );
    assert_eq!(tables.selectors.kernel_code, kcode_selector());
    assert_eq!(tables.selectors.tss, tss_selector());
    let entries = table_entries_of(tables.gdt);
    assert_eq!(entries.len(), 7);
    assert_eq!(&entries[..5], &[0, KCODE, KDATA, UCODE, UDATA]);
    let low = entries[5];
    assert_eq!(low & 0xffff, 103);
    assert_eq!((low >> 40) & 0xf, 9);
    assert_eq!((low >> 45) & 3, 0);
    assert_eq!((low >> 47) & 1, 1);
    assert_eq!(interrupt_stack_of(tables.tss, 0), 0x10_1000);
    assert_eq!(interrupt_stack_of(tables.tss, 1), 0);
}

#[test]
fn init_sign_extends_stack_top() {
    let cpu: &'static mut Cpu = Box::leak(Box::new(Cpu::new()));
    let tables = cpu.init(0x0000_7fff_ffff_f000);
    assert_eq!(interrupt_stack_of(tables.tss, 0), 0xffff_8000_0000_0000);
}

#[test]
fn return_rsp_goes_to_ring0_stack() {
    let mut cpu = Cpu::new();
    cpu.set_return_rsp(0xffff_8000_0001_0000);
    assert_eq!(cpu.privilege_stack(0), 0xffff_8000_0001_0000);
    assert_eq!(cpu.privilege_stack(1), 0);
    assert_eq!(cpu.interrupt_stack(0), 0);
    assert_eq!(cpu.table_entries(), vec![0]);
    cpu.set_return_rsp(0x0000_8000_0000_0008);
    assert_eq!(cpu.privilege_stack(0), 0xffff_8000_0000_0008);
}

#[test]
fn selector_fields_recoverable() {
    let cpu: &'static mut Cpu = Box::leak(Box::new(Cpu::new()));
    let s = cpu.init(0x20_0000).selectors;
    for (sel, index, rpl) in [
        (s.kernel_code, 1, 0),
        (s.kernel_data, 2, 0),
        (s.user_code, 3, 3),
        (s.user_data, 4, 3),
        (s.tss, 5, 0),
    ] {
        assert_eq!(sel >> 3, index);
        assert_eq!(sel & 3, rpl);
    }
}
