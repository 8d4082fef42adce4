use kernel::arch::x86_64::cpu::{current_core_id, Cpu};
use kernel::arch::x86_64::gdt::{
    Gdt, GdtEntry, TssDescriptor, GDT_LEN, KERNEL_CODE_SELECTOR, KERNEL_DATA_SELECTOR,
    TSS_SELECTOR,
};
use kernel::arch::x86_64::idt::{Idt, IdtEntry, IDT_LEN};
use kernel::arch::x86_64::interrupts::{
    decode_general_protection_fault, decode_page_fault, register_handlers, ExceptionStubs,
    PageFaultCause, ProtectionFaultCause, DIVIDE_BY_ZERO_VEC, DOUBLE_FAULT_VEC,
    GENERAL_PROTECTION_FAULT_VEC, PAGE_FAULT_VEC,
};
use kernel::arch::x86_64::tss::{Tss, TSS_LIMIT, TSS_SIZE};

fn descriptor_base(d: &TssDescriptor) -> u64 {
    (d.base_low as u64)
        | ((d.base_mid as u64) << 16)
        | ((d.base_high as u64) << 24)
        | ((d.base_upper as u64) << 32)
}

fn handler_offset(e: &IdtEntry) -> u64 {
    (e.offset_low as u64) | ((e.offset_mid as u64) << 16) | ((e.offset_high as u64) << 32)
}

#[test]
fn selectors_name_the_entries_at_their_offsets() {
    assert_eq!(GDT_LEN, 3);
    assert_eq!(KERNEL_CODE_SELECTOR, 8);
    assert_eq!(KERNEL_DATA_SELECTOR, 16);
    assert_eq!(TSS_SELECTOR, 24);
}

#[test]
fn gdt_entries_of_the_kernel() {
    let null = GdtEntry::empty();
    assert_eq!((null.access, null.limit_high_flags), (0, 0));
    let code = GdtEntry::kernel_code();
    assert_eq!((code.access, code.limit_high_flags), (0x9a, 0xa0));
    assert_eq!((code.limit_low, code.base_low, code.base_mid, code.base_high), (0, 0, 0, 0));
    let data = GdtEntry::kernel_data();
    assert_eq!((data.access, data.limit_high_flags), (0x92, 0));
}

#[test]
fn new_gdt_holds_null_code_data() {
    let gdt = Gdt::new();
    assert_eq!(gdt.entries[0].access, 0);
    assert_eq!(gdt.entries[1].access, 0x9a);
    assert_eq!(gdt.entries[1].limit_high_flags, 0xa0);
    assert_eq!(gdt.entries[2].access, 0x92);
    assert_eq!(gdt.tss_desc.access, 0);
    assert_eq!(descriptor_base(&gdt.tss_desc), 0);
}

#[test]
fn tss_descriptor_splits_the_address() {
    let mut d = TssDescriptor::empty();
    d.init(0xffff_8000_1234_5678);
    assert_eq!(d.base_low, 0x5678);
    assert_eq!(d.base_mid, 0x34);
    assert_eq!(d.base_high, 0x12);
    assert_eq!(d.base_upper, 0xffff_8000);
    assert_eq!(d.limit_low, 103);
    assert_eq!(d.limit_high_flags, 0);
    assert_eq!(d.access, 0x89);
    assert_eq!(d._reserved, 0);
    assert_eq!(descriptor_base(&d), 0xffff_8000_1234_5678);
}

#[test]
fn tss_descriptor_gives_every_address_back() {
    for addr in [0u64, 1, 0xffff, 0x1_0000, 0xff_ffff, 0xffff_ffff, u64::MAX, 0xdead_beef_cafe_f00d] {
        let mut d = TssDescriptor::empty();
        d.init(addr);
        assert_eq!(descriptor_base(&d), addr);
    }
}

#[test]
fn init_tss_leaves_the_segments() {
    let mut gdt = Gdt::new();
    gdt.init_tss(0x0010_2030);
    assert_eq!(descriptor_base(&gdt.tss_desc), 0x0010_2030);
    assert_eq!(gdt.tss_desc.access, 0x89);
    assert_eq!(gdt.tss_desc.limit_low, TSS_LIMIT);
    assert_eq!(gdt.entries[1].access, 0x9a);
    assert_eq!(gdt.entries[2].access, 0x92);
}

#[test]
fn new_tss_has_no_stacks_and_no_io_bitmap() {
    let tss = Tss::new();
    assert_eq!(tss.rsp0, 0);
    assert_eq!(tss.ist1, 0);
    assert_eq!(tss.iopb_offset, 104);
    assert_eq!(TSS_SIZE, 104);
    assert_eq!(TSS_LIMIT, 103);
}

#[test]
fn tss_init_sets_the_double_fault_stack() {
    let mut tss = Tss::new();
    tss.init(0xffff_8000_0000_9000);
    assert_eq!(tss.ist1, 0xffff_8000_0000_9000);
    assert_eq!(tss.rsp0, 0);
    assert_eq!(tss._ist2, 0);
    assert_eq!(tss.iopb_offset, 104);
}

#[test]
fn idt_entry_splits_the_handler_address() {
    let e = IdtEntry::new(0xffff_ffff_8012_3456);
    assert_eq!(e.offset_low, 0x3456);
    assert_eq!(e.offset_mid, 0x8012);
    assert_eq!(e.offset_high, 0xffff_ffff);
    assert_eq!(e.selector, 0x28);
    assert_eq!(e.ist, 0);
    assert_eq!(e.type_attrs, 0x8e);
    assert_eq!(e.reserved, 0);
    assert_eq!(handler_offset(&e), 0xffff_ffff_8012_3456);
}

#[test]
fn empty_idt_entry_is_not_present() {
    let e = IdtEntry::empty();
    assert_eq!(e.type_attrs, 0);
    assert_eq!(e.selector, 0);
    assert_eq!(handler_offset(&e), 0);
}

#[test]
fn register_handlers_installs_four_entries() {
    let mut idt = Idt::new();
    assert_eq!(idt.entries.len(), IDT_LEN);
    let stubs = ExceptionStubs {
        divide_by_zero: 0x1000,
        double_fault: 0x2000,
        general_protection_fault: 0xffff_ffff_8000_3000,
        page_fault: 0x4000,
    };
    register_handlers(&mut idt, &stubs);
    assert_eq!(handler_offset(&idt.entries[DIVIDE_BY_ZERO_VEC]), 0x1000);
    assert_eq!(handler_offset(&idt.entries[DOUBLE_FAULT_VEC]), 0x2000);
    assert_eq!(handler_offset(&idt.entries[GENERAL_PROTECTION_FAULT_VEC]), 0xffff_ffff_8000_3000);
    assert_eq!(handler_offset(&idt.entries[PAGE_FAULT_VEC]), 0x4000);
    assert_eq!(idt.entries[DOUBLE_FAULT_VEC].ist, 1);
    assert_eq!(idt.entries[PAGE_FAULT_VEC].ist, 0);
    assert_eq!(idt.entries[DIVIDE_BY_ZERO_VEC].ist, 0);
    for v in 0..IDT_LEN {
        let handled = v == 0 || v == 8 || v == 13 || v == 14;
        assert_eq!(idt.entries[v].type_attrs, if handled { 0x8e } else { 0 });
    }
}

#[test]
fn set_ist_keeps_the_handler() {
    let mut idt = Idt::new();
    idt.set_handler(14, 0xabcd_0000);
    idt.set_ist(14, 3);
    assert_eq!(handler_offset(&idt.entries[14]), 0xabcd_0000);
    assert_eq!(idt.entries[14].ist, 3);
    idt.set_handler(14, 0x1234_0000);
    assert_eq!(idt.entries[14].ist, 0);
}

#[test]
fn page_fault_bits() {
    assert_eq!(
        decode_page_fault(0),
        PageFaultCause { present: false, write: false, user: false }
    );
    assert_eq!(
        decode_page_fault(0b011),
        PageFaultCause { present: true, write: true, user: false }
    );
    assert_eq!(
        decode_page_fault(0b100),
        PageFaultCause { present: false, write: false, user: true }
    );
    assert_eq!(
        decode_page_fault(0xffff_fff8),
        PageFaultCause { present: false, write: false, user: false }
    );
}

#[test]
fn general_protection_fault_parts() {
    assert_eq!(
        decode_general_protection_fault(0),
        ProtectionFaultCause { external: false, table: 0, selector: 0 }
    );
    assert_eq!(
        decode_general_protection_fault(0b101_0_11_1),
        ProtectionFaultCause { external: true, table: 3, selector: 0b1010 }
    );
    assert_eq!(
        decode_general_protection_fault(0x18 | 0b10),
        ProtectionFaultCause { external: false, table: 1, selector: 3 }
    );
}

#[test]
fn core_id_is_the_top_byte() {
    assert_eq!(current_core_id(0), 0);
    assert_eq!(current_core_id(0x0300_0800), 3);
    assert_eq!(current_core_id(0xff12_3456), 255);
    assert_eq!(current_core_id(0x00ff_ffff), 0);
}

#[test]
fn cpu_init_ties_the_tables_together() {
    let mut cpu = Cpu::new();
    assert_eq!(cpu.df_stack.len(), 4096);
    assert!(cpu.df_stack.iter().all(|b| *b == 0));
    kernel::arch::x86_64::cpu::init(&mut cpu, 0xffff_8000_0000_8000, 0xffff_8000_0000_7000);
    assert_eq!(cpu.tss.ist1, 0xffff_8000_0000_9000);
    assert_eq!(descriptor_base(&cpu.gdt.tss_desc), 0xffff_8000_0000_7000);
    assert_eq!(cpu.gdt.tss_desc.access, 0x89);
    assert_eq!(cpu.gdt.entries[1].access, 0x9a);
}
