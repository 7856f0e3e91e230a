use cardinal3::executor::WakerData;
use cardinal3::interface::{Error, Syscall, SyscallReturn, UserBuf};
use cardinal3::limine::{LimineMmapEntry, LimineMmapEntryType};
use cardinal3::per_cpu::PerCpu;
use cardinal3::syscalls::{Effect, Kernel, ResumeDecision};
use cardinal3::x86::context::InterruptFrame;
use cardinal3::x86::cpu::Stack;
use cardinal3::x86::page::PageTable;

/// A minimal 64-bit little-endian executable: one writable loadable
/// segment of 0x20 bytes at 0x40_0000, entry at `entry`.
fn tiny_elf(entry: u64) -> Vec<u8> {
    let mut v = vec![0u8; 64 + 56];
    v[0..4].copy_from_slice(&[0x7f, b'E', b'L', b'F']);
    v[4] = 2; // 64-bit
    v[5] = 1; // little endian
    v[6] = 1; // version
    v[16..18].copy_from_slice(&2u16.to_le_bytes()); // ET_EXEC
    v[18..20].copy_from_slice(&0x3eu16.to_le_bytes()); // x86-64
    v[20..24].copy_from_slice(&1u32.to_le_bytes());
    v[24..32].copy_from_slice(&entry.to_le_bytes());
    v[32..40].copy_from_slice(&64u64.to_le_bytes()); // e_phoff
    v[52..54].copy_from_slice(&64u16.to_le_bytes()); // e_ehsize
    v[54..56].copy_from_slice(&56u16.to_le_bytes()); // e_phentsize
    v[56..58].copy_from_slice(&1u16.to_le_bytes()); // e_phnum
    let ph = 64;
    v[ph..ph + 4].copy_from_slice(&1u32.to_le_bytes()); // PT_LOAD
    v[ph + 4..ph + 8].copy_from_slice(&6u32.to_le_bytes()); // RW
    v[ph + 8..ph + 16].copy_from_slice(&0u64.to_le_bytes()); // p_offset
    v[ph + 16..ph + 24].copy_from_slice(&0x40_0000u64.to_le_bytes()); // p_vaddr
    v[ph + 32..ph + 40].copy_from_slice(&0x10u64.to_le_bytes()); // p_filesz
    v[ph + 40..ph + 48].copy_from_slice(&0x20u64.to_le_bytes()); // p_memsz
    v
}

fn boot_kernel(cpu_count: usize) -> Kernel {
    let entries = vec![
        LimineMmapEntry { base: 0, len: 0x4000, typ: LimineMmapEntryType::KernelAndModules },
        LimineMmapEntry { base: 0x4000, len: 0x100000, typ: LimineMmapEntryType::Usable },
    ];
    let mut stacks = Vec::new();
    for i in 0..cpu_count {
        stacks.push((
            Stack { base: 0x10000 + (i as u64) * 0x8000 },
            Stack { base: 0x14000 + (i as u64) * 0x8000 },
            0x2000 + (i as u64) * 0x100,
        ));
    }
    let cpus = PerCpu::init(cpu_count, &stacks);
    Kernel::new(&entries, cpus, PageTable::zeroed(), tiny_elf(0x40_0000), 0x1000)
}

fn kernel_frame(vector: u64) -> InterruptFrame {
    let mut f = InterruptFrame::new();
    f.interrupt_number = vector;
    f
}

fn user_frame(vector: u64) -> InterruptFrame {
    let mut f = InterruptFrame::new_user(0x40_0000);
    f.interrupt_number = vector;
    f
}

#[test]
fn hello_exit_restores_frame_counts() {
    let mut k = boot_kernel(1);
    let mut effects: Vec<Effect> = Vec::new();
    let free0 = k.frames.summary().free;

    let pid = k.spawn(0, &mut effects).unwrap();
    assert!(k.frames.summary().free < free0);

    // a kernel-context interrupt return picks the new process up
    let mut f = kernel_frame(3);
    match k.rs_interrupt_shim(0, &mut f, None, &mut effects) {
        ResumeDecision::Switch(out) => {
            assert_eq!(out.context.frame.ip, 0x40_0000);
        }
        _ => panic!("the fresh process must be dispatched"),
    }
    assert_eq!(k.cpus[0].running, Some(pid));

    // Print("hi") then Exit(0)
    let mut uf = user_frame(128);
    let r = k.handle_syscall(0, &mut uf, &Syscall::Print(b"hi".to_vec()), &mut effects);
    assert_eq!(r, SyscallReturn::Complete(0));
    assert_eq!(uf.rax, 0);
    assert!(effects.iter().any(|e| matches!(e, Effect::SerialWrite(b) if b == b"hi")));
    let r = k.handle_syscall(0, &mut uf, &Syscall::Exit(0), &mut effects);
    assert_eq!(r, SyscallReturn::Complete(0));

    // the return from interrupt retires the exited process
    let mut rf = user_frame(3);
    match k.rs_interrupt_shim(0, &mut rf, None, &mut effects) {
        ResumeDecision::Idle => {}
        _ => panic!("nothing else is runnable"),
    }
    assert_eq!(k.cpus[0].running, None);

    // the background task removes the record and frees its tree
    k.do_work(0, &mut effects);
    assert!(k.procs.find(pid).is_none());
    assert_eq!(k.frames.summary().free, free0);
}

#[test]
fn yield_then_wake_delivers_task_id_and_bytes() {
    let mut k = boot_kernel(1);
    let mut effects: Vec<Effect> = Vec::new();
    let reader = k.spawn(0, &mut effects).unwrap();
    let writer = k.spawn(1, &mut effects).unwrap();

    // the reader runs and opens a socket
    k.cpus[0].running = Some(reader);
    let mut uf = user_frame(128);
    uf.rdi = 7; // usermode task id awaiting this call
    let sid = match k.handle_syscall(0, &mut uf, &Syscall::DgSocket, &mut effects) {
        SyscallReturn::Complete(v) => v,
        other => panic!("socket creation failed: {:?}", other),
    };

    // DgRead parks a kernel task on the socket, then Yield
    let mut uf = user_frame(128);
    uf.rdi = 7;
    let buf = UserBuf { base: 0x7fff_feff_d000, len: 1024 };
    let r = k.handle_syscall(0, &mut uf, &Syscall::DgRead(sid, buf), &mut effects);
    assert_eq!(r, SyscallReturn::NotComplete);
    let mut uf = user_frame(128);
    uf.rdi = 7;
    let r = k.handle_syscall(0, &mut uf, &Syscall::Yield, &mut effects);
    assert_eq!(r, SyscallReturn::Complete(0));
    k.do_work(0, &mut effects); // the read task polls once and parks

    // give the reader's saved context a tasks-to-wake buffer
    let ri = k.procs.find(reader).unwrap();
    k.procs.procs[ri].context.frame.rsi = 0x7fff_feff_e000;
    k.procs.procs[ri].context.frame.rdx = 8;

    // the writer sends three bytes on another turn
    k.cpus[0].running = Some(writer);
    let mut wf = user_frame(128);
    let r = k.handle_syscall(0, &mut wf, &Syscall::DgWrite(sid, vec![1, 2, 3]), &mut effects);
    assert_eq!(r, SyscallReturn::Complete(3));

    // the woken read task completes: the datagram bytes go to the
    // reader's buffer, byte for byte
    k.do_work(0, &mut effects);
    assert!(effects.iter().any(|e| matches!(e,
        Effect::CopyToUser { pid, base, bytes }
            if *pid == reader && *base == 0x7fff_feff_d000 && bytes == &vec![1, 2, 3])));

    // the reader's next dispatch hands it the kernel task id with
    // Complete(0) and clears its Waiting state
    let out = k.procs.dispatch(reader, 0, k.cpus[0].timer.ticks).unwrap();
    assert_eq!(out.delivered.len(), 1);
    assert_eq!(out.wake_buf_base, 0x7fff_feff_e000);
    assert_eq!(out.context.frame.rax, 0); // Complete tag
    assert_eq!(out.context.frame.rdx, 1); // one id delivered
    let ri = k.procs.find(reader).unwrap();
    assert_eq!(k.procs.procs[ri].state, cardinal3::process::ProcessState::Running);
}

#[test]
fn timeslice_preemption_alternates_two_processes() {
    let mut k = boot_kernel(1);
    let mut effects: Vec<Effect> = Vec::new();
    let p1 = k.spawn(0, &mut effects).unwrap();
    let p2 = k.spawn(1, &mut effects).unwrap();

    let mut f = kernel_frame(3);
    match k.rs_interrupt_shim(0, &mut f, None, &mut effects) {
        ResumeDecision::Switch(_) => {}
        _ => panic!("first dispatch"),
    }
    let mut runs = std::collections::HashMap::new();
    runs.insert(p1, 0u32);
    runs.insert(p2, 0u32);
    *runs.get_mut(&k.cpus[0].running.unwrap()).unwrap() += 1;

    for slice in 1..=20u64 {
        k.cpus[0].timer.ticks = slice * 10;
        let mut uf = user_frame(3);
        match k.rs_interrupt_shim(0, &mut uf, None, &mut effects) {
            ResumeDecision::Switch(_) => {}
            other => panic!("timeslice must rotate, got {:?}", matches!(other, ResumeDecision::Idle)),
        }
        *runs.get_mut(&k.cpus[0].running.unwrap()).unwrap() += 1;
    }
    let a = runs[&p1] as i64;
    let b = runs[&p2] as i64;
    assert!((a - b).abs() <= 1, "unfair: {} vs {}", a, b);
    assert_eq!(a + b, 21);
}

#[test]
fn mid_slice_interrupt_resumes_the_same_process() {
    let mut k = boot_kernel(1);
    let mut effects: Vec<Effect> = Vec::new();
    let _p1 = k.spawn(0, &mut effects).unwrap();
    let mut f = kernel_frame(3);
    let root = match k.rs_interrupt_shim(0, &mut f, None, &mut effects) {
        ResumeDecision::Switch(out) => out.root_frame,
        _ => panic!("dispatch"),
    };
    k.cpus[0].timer.ticks = 5; // inside the 10-tick slice
    let mut uf = user_frame(3);
    match k.rs_interrupt_shim(0, &mut uf, None, &mut effects) {
        ResumeDecision::Resume { root_frame } => assert_eq!(root_frame, root),
        _ => panic!("a process inside its slice continues"),
    }
}

#[test]
fn spawn_fanout_distinct_pids_args_and_frame_recovery() {
    let mut k = boot_kernel(1);
    let mut effects: Vec<Effect> = Vec::new();
    let free0 = k.frames.summary().free;
    let mut pids = Vec::new();
    for i in 0..16u64 {
        let pid = k.spawn(i, &mut effects).unwrap();
        let idx = k.procs.find(pid).unwrap();
        assert_eq!(k.procs.procs[idx].context.frame.rdi, i);
        pids.push(pid);
    }
    let mut sorted = pids.clone();
    sorted.sort();
    sorted.dedup();
    assert_eq!(sorted.len(), 16, "each child got its own pid");
    for pid in pids {
        k.procs.remove(pid, &mut k.frames);
    }
    assert_eq!(k.frames.summary().free, free0);
}

#[test]
fn spawned_process_maps_its_segment_and_stack() {
    let mut k = boot_kernel(1);
    let mut effects: Vec<Effect> = Vec::new();
    let pid = k.spawn(0, &mut effects).unwrap();
    let i = k.procs.find(pid).unwrap();
    // the writable segment's one page resolves, as do the four stack pages
    assert!(k.procs.procs[i].vm.physical_address(0x40_0000).is_some());
    assert!(k.procs.procs[i].vm.physical_address(0x40_0123).is_some());
    assert_eq!(k.procs.procs[i].vm.physical_address(0x41_0000), None);
    for st in 0..4u64 {
        let va = 0x0000_7fff_feff_c000 + st * 0x1000;
        assert!(k.procs.procs[i].vm.physical_address(va).is_some());
    }
    // one copy action for the one writable page
    assert!(effects.iter().any(|e| matches!(e, Effect::Load(acts)
        if acts.len() == 1 && acts[0].copy_len == 0x10 && acts[0].zero_len == 0xff0)));
}

#[test]
fn timer_fires_route_to_the_owning_cpu() {
    let mut k = boot_kernel(2);
    let mut effects: Vec<Effect> = Vec::new();
    // an event on cpu 0's wheel carries a waker owned by cpu 1
    k.cpus[0].timer.raw_insert(1, WakerData { cpu: 1, id: 9 });
    k.timer_tick(0, &mut effects);
    assert_eq!(k.cpus[0].timer.ticks, 1);
    assert_eq!(k.cpus[1].executor.tasks_to_poll, vec![9]);
    // cpu 0 drained its own queue
    assert_eq!(k.cpus[0].executor.tasks_to_poll.len(), 0);
}

#[test]
fn panic_vector_halts_every_receiving_cpu() {
    let mut k = boot_kernel(4);
    let mut effects: Vec<Effect> = Vec::new();
    for cpu in 0..4usize {
        let mut f = kernel_frame(130);
        match k.rs_interrupt_shim(cpu, &mut f, None, &mut effects) {
            ResumeDecision::Halt => {}
            _ => panic!("the panic vector must halt its receiver"),
        }
    }
}

#[test]
fn kernel_page_fault_is_fatal_and_broadcasts() {
    let mut k = boot_kernel(1);
    let mut effects: Vec<Effect> = Vec::new();
    let mut f = kernel_frame(14);
    match k.rs_interrupt_shim(0, &mut f, None, &mut effects) {
        ResumeDecision::Halt => {}
        _ => panic!("an unhandled page fault is fatal"),
    }
    assert!(effects.iter().any(|e| matches!(e, Effect::BroadcastPanic)));
}

#[test]
fn sleep_syscall_wakes_after_its_ticks() {
    let mut k = boot_kernel(1);
    let mut effects: Vec<Effect> = Vec::new();
    let pid = k.spawn(0, &mut effects).unwrap();
    k.cpus[0].running = Some(pid);
    let mut uf = user_frame(128);
    uf.rdi = 9; // task id
    let r = k.handle_syscall(0, &mut uf, &Syscall::Sleep(2000), &mut effects);
    assert_eq!(r, SyscallReturn::NotComplete);

    // first poll re-arms the timer for tick 2
    k.do_work(0, &mut effects);
    let ri = k.procs.find(pid).unwrap();
    assert_eq!(k.procs.procs[ri].wake_queue.len(), 0);

    k.timer_tick(0, &mut effects); // tick 1: not yet
    let ri = k.procs.find(pid).unwrap();
    assert_eq!(k.procs.procs[ri].wake_queue.len(), 0);
    k.timer_tick(0, &mut effects); // tick 2: fires, task polls, 2 > 2 false
    k.timer_tick(0, &mut effects); // tick 3: 3 > 2, wake scheduled
    let ri = k.procs.find(pid).unwrap();
    assert_eq!(k.procs.procs[ri].wake_queue.len(), 1);
    assert_eq!(k.procs.procs[ri].wake_queue[0], 9);
    assert!(k.procs.runnable.contains(&pid));
}

#[test]
fn syscall_return_drains_wakes_with_the_live_buffer() {
    let mut k = boot_kernel(1);
    let mut effects: Vec<Effect> = Vec::new();
    let pid = k.spawn(0, &mut effects).unwrap();
    k.cpus[0].running = Some(pid);
    k.procs.schedule_wakeup(pid, 42);
    k.procs.schedule_wakeup(pid, 43);
    // the live syscall frame names the buffer: base and capacity
    let mut uf = user_frame(128);
    uf.rsi = 0x7fff_feff_e000;
    uf.rdx = 8;
    let r = k.handle_syscall(0, &mut uf, &Syscall::Print(b"x".to_vec()), &mut effects);
    assert_eq!(r, SyscallReturn::Complete(0));
    assert_eq!(uf.rdx, 2, "both pending ids drained into the count register");
    assert!(effects.iter().any(|e| matches!(e,
        Effect::DeliverWakes { pid: p, base, ids }
            if *p == pid && *base == 0x7fff_feff_e000 && ids == &vec![42, 43])));
    let i = k.procs.find(pid).unwrap();
    assert_eq!(k.procs.procs[i].wake_queue.len(), 0);

    // a capacity of one drains one id only
    k.procs.schedule_wakeup(pid, 7);
    k.procs.schedule_wakeup(pid, 8);
    let mut uf = user_frame(128);
    uf.rsi = 0x7fff_feff_e000;
    uf.rdx = 1;
    k.handle_syscall(0, &mut uf, &Syscall::Print(b"y".to_vec()), &mut effects);
    assert_eq!(uf.rdx, 1);
    let i = k.procs.find(pid).unwrap();
    assert_eq!(k.procs.procs[i].wake_queue, vec![8]);
}

#[test]
fn dispatch_drains_only_a_waiting_process() {
    let mut k = boot_kernel(1);
    let mut effects: Vec<Effect> = Vec::new();
    let pid = k.spawn(0, &mut effects).unwrap();
    k.procs.schedule_wakeup(pid, 5);
    // a Running process is dispatched without touching its pending list
    let out = k.procs.dispatch(pid, 0, 0).unwrap();
    assert_eq!(out.delivered.len(), 0);
    let i = k.procs.find(pid).unwrap();
    assert_eq!(k.procs.procs[i].wake_queue, vec![5]);
    // once Waiting, the next dispatch delivers it
    k.procs.procs[i].state = cardinal3::process::ProcessState::Waiting;
    k.procs.procs[i].context.frame.rdx = 4;
    let out = k.procs.dispatch(pid, 0, 0).unwrap();
    assert_eq!(out.delivered, vec![5]);
    let i = k.procs.find(pid).unwrap();
    assert_eq!(k.procs.procs[i].state, cardinal3::process::ProcessState::Running);
}

#[test]
fn exit_keeps_its_code_through_the_wake_drain() {
    let mut k = boot_kernel(1);
    let mut effects: Vec<Effect> = Vec::new();
    let pid = k.spawn(0, &mut effects).unwrap();
    k.cpus[0].running = Some(pid);
    k.procs.schedule_wakeup(pid, 9);
    let mut uf = user_frame(128);
    uf.rdx = 4;
    k.handle_syscall(0, &mut uf, &Syscall::Exit(3), &mut effects);
    let i = k.procs.find(pid).unwrap();
    assert_eq!(k.procs.procs[i].state, cardinal3::process::ProcessState::Exited);
    assert_eq!(k.procs.procs[i].exit_code, Some(3));
}

#[test]
fn dgwrite_to_unknown_socket_is_an_error() {
    let mut k = boot_kernel(1);
    let mut effects: Vec<Effect> = Vec::new();
    let pid = k.spawn(0, &mut effects).unwrap();
    k.cpus[0].running = Some(pid);
    let mut uf = user_frame(128);
    let r = k.handle_syscall(0, &mut uf, &Syscall::DgWrite(42, vec![1]), &mut effects);
    assert_eq!(r, SyscallReturn::Error(Error::NoSuchSocket));
    assert_eq!(uf.rax, 2); // error tag
    assert_eq!(uf.rdi, 2); // NoSuchSocket code
    let r = k.handle_syscall(0, &mut uf, &Syscall::Unknown, &mut effects);
    assert_eq!(r, SyscallReturn::Error(Error::InvalidSyscall));
}

#[test]
fn backtrace_request_reaches_every_cpu_queue() {
    let mut k = boot_kernel(3);
    k.backtrace_all();
    for cpu in 0..3usize {
        assert_eq!(k.cpus[cpu].ipi_queue.len(), 1);
    }
    let mut effects: Vec<Effect> = Vec::new();
    let mut f = kernel_frame(129);
    k.rs_interrupt_shim(1, &mut f, None, &mut effects);
    assert_eq!(k.cpus[1].ipi_queue.len(), 0);
    assert!(effects.iter().any(|e| matches!(e, Effect::Backtrace { cpu: 1 })));
}
