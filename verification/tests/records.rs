use cardinal3::interface::{Error, SyscallReturn, error_code, error_from_code, return_payload, return_tag};
use cardinal3::net::ipv4::{Ipv4Address, Ipv4Header, Ipv4Protocol};
use cardinal3::net::proto::{EthernetHeader, MacAddress};
use cardinal3::net::Packet;
use cardinal3::pci::{PciAddress, PciProbe, decode_device_info, find_device};
use cardinal3::process::{Process, ProcessDisposition, ProcessState, ProcessTable};
use cardinal3::x86::context::{Context, InterruptFrame};
use cardinal3::x86::gdt::{GdtEntry, Ring, Tss, init_in_place};
use cardinal3::x86::idt::{GateType, Idt, IdtEntry};
use cardinal3::x86::interrupts::{HandlerRoute, decode_page_fault, interrupt_info, route};
use cardinal3::x86::page::AddressSpace;
use cardinal3::limine::{LimineHhdm, LimineMmap, LimineRsdp, LimineSmp, LIMINE_MAGIC1, LIMINE_MAGIC2};
use cardinal3::process::map::{elf_entry, elf_segments, overlapping_pages};

#[test]
fn error_codes_are_stable_and_decode_back() {
    assert_eq!(error_code(Error::InvalidSyscall), 0);
    assert_eq!(error_code(Error::InvalidArgument), 1);
    assert_eq!(error_code(Error::NoSuchSocket), 2);
    for v in 0..3u64 {
        assert_eq!(error_code(error_from_code(v).unwrap()), v);
    }
    assert!(error_from_code(3).is_none());
}

#[test]
fn three_state_return_encoding() {
    assert_eq!(return_tag(SyscallReturn::Complete(55)), 0);
    assert_eq!(return_payload(SyscallReturn::Complete(55)), 55);
    assert_eq!(return_tag(SyscallReturn::NotComplete), 1);
    assert_eq!(return_tag(SyscallReturn::Error(Error::NoSuchSocket)), 2);
    assert_eq!(return_payload(SyscallReturn::Error(Error::NoSuchSocket)), 2);
}

#[test]
fn user_frame_starts_at_the_stack_top_with_interrupts_on() {
    let f = InterruptFrame::new_user(0x1000);
    assert_eq!(f.ip(), 0x1000);
    assert_eq!(f.cs, 0x1b);
    assert_eq!(f.ss, 0x23);
    assert_eq!(f.flags, 0x200);
    assert_eq!(f.user_sp, 0x0000_7fff_ff00_0000);
    assert!(f.from_usermode());
    assert!(!InterruptFrame::new().from_usermode());
}

#[test]
fn syscall_result_lands_in_the_return_registers() {
    let mut f = InterruptFrame::new_user(0x1000);
    f.set_syscall_return(SyscallReturn::Error(Error::InvalidArgument));
    assert_eq!(f.rax, 2);
    assert_eq!(f.rdi, 1);
    f.set_tasks_to_wake_count(3);
    assert_eq!(f.rdx, 3);
    let mut c = Context::new_user(0x2000);
    c.set_arg1(77);
    assert_eq!(c.frame.rdi, 77);
    assert!(!c.has_fpu_context);
}

#[test]
fn should_run_follows_state_and_timeslice() {
    let mut table = ProcessTable::new();
    assert_eq!(table.next_pid, 1);
    let mk = |state| Process {
        context: Context::new_user(0x1000),
        vm: AddressSpace { root_frame: 0, user: Vec::new(), kernel: Vec::new() },
        state,
        exit_code: None,
        pid: 1,
        sched_in: 100,
        on_cpu: Some(0),
        wake_queue: Vec::new(),
    };
    let p = mk(ProcessState::Running);
    assert_eq!(p.should_run(105), ProcessDisposition::MayContinue);
    assert_eq!(p.should_run(109), ProcessDisposition::MayContinue);
    assert_eq!(p.should_run(110), ProcessDisposition::TimesUp);
    assert!(p.time_expired(110));
    assert!(!p.time_expired(109));
    assert_eq!(mk(ProcessState::Waiting).should_run(105), ProcessDisposition::NotNow);
    assert_eq!(mk(ProcessState::Exited).should_run(105), ProcessDisposition::NeverAgain);
    table.schedule_pid(1);
    table.schedule_pid(1);
    assert_eq!(table.runnable.len(), 1, "no double scheduling");
}

#[test]
fn runqueue_rotation_is_fifo() {
    let mut table = ProcessTable::new();
    table.schedule_pid(5);
    table.schedule_pid(6);
    let picked = table.maybe_run_usermode_program(Some(9), true);
    assert_eq!(picked, Some(5));
    assert_eq!(table.runnable, vec![6, 9]);
    let picked = table.maybe_run_usermode_program(None, false);
    assert_eq!(picked, Some(6));
    let picked = table.maybe_run_usermode_program(None, false);
    assert_eq!(picked, Some(9));
    assert_eq!(table.maybe_run_usermode_program(None, false), None);
}

#[test]
fn gdt_words_match_the_architecture_layout() {
    let mut gdt: Vec<u64> = Vec::new();
    init_in_place(&mut gdt, 0x1234_5678_9abc_def0);
    assert_eq!(gdt.len(), 7);
    assert_eq!(gdt[0], 0);
    assert_eq!(gdt[1], 0x0020_9a00_0000_0000);
    assert_eq!(gdt[2], 0x0020_9200_0000_0000);
    assert_eq!(gdt[3], 0x0020_9a00_0000_0000 | (3u64 << 45));
    assert_eq!(gdt[4], 0x0020_9200_0000_0000 | (3u64 << 45));
    let addr: u64 = 0x1234_5678_9abc_def0;
    let expected_low = 0x67u64
        | ((addr & 0xFFFF) << 16)
        | (((addr >> 16) & 0xFF) << 32)
        | (0x89u64 << 40)
        | (((addr >> 24) & 0xFF) << 56);
    assert_eq!(gdt[5], expected_low);
    assert_eq!(gdt[6], (addr >> 32) & 0xFFFF_FFFF);
    let (code, high) = GdtEntry::CodeSegment { ring: Ring::Ring3 }.serialize();
    assert_eq!(code, gdt[3]);
    assert!(high.is_none());
    let mut tss = Tss::new();
    tss.set_kernel_stack(0xAAAA);
    tss.set_df_stack(0xBBBB);
    assert_eq!(tss.kernel_stack(), 0xAAAA);
    assert_eq!(tss.ist1, 0xBBBB);
    assert_eq!(tss.len(), 0x67);
}

#[test]
fn idt_gate_packs_the_handler_address() {
    let e = IdtEntry::new(0x1122_3344_5566_7788, 1, 3, GateType::InterruptGate);
    assert_eq!(e.offset_low, 0x7788);
    assert_eq!(e.offset_middle, 0x5566);
    assert_eq!(e.offset_high, 0x1122_3344);
    assert_eq!(e.selector, 8);
    assert_eq!(e.ist, 1);
    assert_eq!(e.flags, 0x80 | (3 << 5) | 0xe);
    let t = Idt::zero();
    assert_eq!(t.len(), 256);
    assert_eq!(t.table[7], IdtEntry::zero());
}

#[test]
fn vectors_route_to_their_handlers() {
    assert_eq!(route(3), HandlerRoute::Breakpoint);
    assert_eq!(route(14), HandlerRoute::PageFault);
    assert_eq!(route(32), HandlerRoute::Irq(0));
    assert_eq!(route(36), HandlerRoute::Irq(4));
    assert_eq!(route(47), HandlerRoute::Irq(15));
    assert_eq!(route(128), HandlerRoute::Syscall);
    assert_eq!(route(129), HandlerRoute::Ipi);
    assert_eq!(route(130), HandlerRoute::IpiPanic);
    assert_eq!(route(77), HandlerRoute::Unexpected);
    let r = decode_page_fault(0x2 | 0x4);
    assert!(r.write && r.user_mode);
    assert!(!r.protection_violation && !r.instruction_fetch && !r.unknown_condition);
    assert_eq!(interrupt_info(14).short, "#PF");
    assert_eq!(interrupt_info(8).name, "Double Fault");
}

#[test]
fn pci_address_packs_and_search_finds_first_match() {
    let a = PciAddress::new(1, 3, 2);
    assert_eq!(a.to_u32(), (1 << 16) | (3 << 11) | (2 << 8));
    let probes = vec![
        PciProbe { address: PciAddress::new(0, 0, 0), base_register: 0xffff_ffff },
        PciProbe { address: PciAddress::new(0, 1, 0), base_register: 0x8139_10ec },
        PciProbe { address: PciAddress::new(0, 2, 0), base_register: 0x8139_10ec },
    ];
    let hit = find_device(&probes, 0x10ec, 0x8139).unwrap();
    assert_eq!(hit, PciAddress::new(0, 1, 0));
    assert!(find_device(&probes, 0x8086, 0x100e).is_none());
    let info = decode_device_info(0x8139_10ec, 0x0200_0010, 0x0080_0000);
    assert_eq!(info.vendor_id, 0x10ec);
    assert_eq!(info.device_id, 0x8139);
    assert_eq!(info.class, 0x02);
    assert_eq!(info.header_type, 0x80);
}

#[test]
fn wire_headers_carry_their_fields() {
    let src = Ipv4Address::new([10, 0, 0, 1]);
    let dst = Ipv4Address::new([10, 0, 0, 2]);
    let h = Ipv4Header::new(src, dst, Ipv4Protocol::Udp, &[0u8; 8]);
    assert_eq!(h.version_ihl, 0x45);
    assert_eq!(h.total_length, 28);
    assert_eq!(h.ttl, 64);
    assert_eq!(h.protocol, 17);
    assert_eq!(h.source.0, [10, 0, 0, 1]);
    let e = EthernetHeader::new(
        MacAddress::new([1, 2, 3, 4, 5, 6]),
        MacAddress::new([6, 5, 4, 3, 2, 1]),
        0x0800,
    );
    assert_eq!(e.ether_type, 0x0800);
    assert_eq!(e.destination.0, [1, 2, 3, 4, 5, 6]);
    let p = Packet::new(&[7, 8, 9]);
    assert_eq!(p.data, vec![7, 8, 9]);
    let icmp = cardinal3::net::icmp::IcmpHeader::new_echo_request(&[1, 2]);
    assert_eq!(icmp.icmp_code, 0);
    assert_eq!(icmp.checksum, 0);
    let icmp2 = cardinal3::net::proto::IcmpHeader::new_echo_request(&[1, 2]);
    assert_eq!(icmp2.rest, [0, 0, 0, 0]);
}

#[test]
fn limine_requests_carry_their_magic() {
    let m = LimineMmap::new();
    assert_eq!(m.id[0], LIMINE_MAGIC1);
    assert_eq!(m.id[1], LIMINE_MAGIC2);
    assert_eq!(m.id[2], 0x67cf3d9d378a806f);
    assert_eq!(LimineHhdm::new().id[2], 0x48dcf1cb8ad2b852);
    assert_eq!(LimineRsdp::new().id[3], 0x27637845accdcf3c);
    let s = LimineSmp::new(1);
    assert_eq!(s.flags, 1);
    assert_eq!(s.revision, 0);
}

#[test]
fn elf_wrappers_reject_garbage_and_read_real_headers() {
    let garbage = vec![0u8; 80];
    assert!(elf_entry(&garbage).is_none());
    assert!(elf_segments(&garbage).is_none());
    let mut v = vec![0u8; 64 + 56];
    v[0..4].copy_from_slice(&[0x7f, b'E', b'L', b'F']);
    v[4] = 2;
    v[5] = 1;
    v[6] = 1;
    v[16..18].copy_from_slice(&2u16.to_le_bytes());
    v[18..20].copy_from_slice(&0x3eu16.to_le_bytes());
    v[20..24].copy_from_slice(&1u32.to_le_bytes());
    v[24..32].copy_from_slice(&0x40_1000u64.to_le_bytes());
    v[32..40].copy_from_slice(&64u64.to_le_bytes());
    v[52..54].copy_from_slice(&64u16.to_le_bytes());
    v[54..56].copy_from_slice(&56u16.to_le_bytes());
    v[56..58].copy_from_slice(&1u16.to_le_bytes());
    v[64..68].copy_from_slice(&1u32.to_le_bytes());
    v[68..72].copy_from_slice(&5u32.to_le_bytes());
    v[80..88].copy_from_slice(&0x40_0000u64.to_le_bytes());
    v[96..104].copy_from_slice(&0x100u64.to_le_bytes());
    v[104..112].copy_from_slice(&0x100u64.to_le_bytes());
    assert_eq!(elf_entry(&v), Some(0x40_1000));
    let segs = elf_segments(&v).unwrap();
    assert_eq!(segs.len(), 1);
    assert_eq!(segs[0].p_type, 1);
    assert_eq!(segs[0].p_flags, 5);
    assert_eq!(segs[0].p_vaddr, 0x40_0000);
    assert_eq!(segs[0].p_filesz, 0x100);
}

#[test]
fn overlapping_pages_rounds_to_page_boundaries() {
    assert_eq!(overlapping_pages(0x1000, 0x1000), 1);
    assert_eq!(overlapping_pages(0x1800, 0x1000), 2);
    assert_eq!(overlapping_pages(0x1000, 0x1001), 2);
    assert_eq!(overlapping_pages(0x1fff, 1), 1);
}
