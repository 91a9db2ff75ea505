use dvida_kernel::drivers::ata::pata::{
    buffer_fits, identify_poll, identify_status, lba28_registers, lba48_registers, sector_word,
    store_sector_words, IdentPoll, PataDevice, PataIdentErr, DRIVE, LBA48, LBA_HIGH, LBA_LOW, LBA_MID,
    SECTOR_COUNT,
};
use dvida_kernel::drivers::ata::sata::command::{build_flush_command, build_identify_command, build_rw_command, split_addr};
use dvida_kernel::drivers::ata::sata::fis::FisType;
use dvida_kernel::drivers::ata::sata::hba::{command_slot_count, enabled_ghc, hba_phys_base, implemented_ports, port_base, supports_64bit};
use dvida_kernel::drivers::ata::sata::port::{
    command_header_offset, device_detection, identify_status as sata_identify_status, init_needs,
    interface_power_management, issue_bit, lba48_supported, nth_command_table_offset, sector_count_of,
    slot_done, stopped_cmd, task_file_ready, usable_port, with_det_init, with_icc, AhciSata, IdentifyStatus,
};
use dvida_kernel::drivers::ata::sata::port::{effective_lba, port_init_step, PortInitAction, PortInitPhase};
use dvida_kernel::drivers::ata::sata::task::{
    ahci_interrupt_handler_by_idx, stop_on_task_file_error, AhciErr, AhciRecovery, AhciSataInterruptData,
    AhciSataPortFuture, AhciTaskState, IFS, INFS, TFES, TaskWait,
};
use dvida_kernel::hal::storage::{identify_storage_devices, HalBlockDevice, IoErr, PciFunction};
use dvida_kernel::hal::buffer::Buffer;
use dvida_kernel::hal::storage::{HalStorageOperation, HalStorageOperationErr};

#[test]
fn pata_identify_checks() {
    assert_eq!(identify_status(0), Err(PataIdentErr::DeviceNonExist));
    assert_eq!(identify_status(0x50), Ok(()));
    assert_eq!(identify_poll(1, 0, 0), IdentPoll::Failed(PataIdentErr::DeviceNotAta));
    assert_eq!(identify_poll(0, 0, 0x01), IdentPoll::Failed(PataIdentErr::Error));
    assert_eq!(identify_poll(0, 0, 0x08), IdentPoll::Ready);
    assert_eq!(identify_poll(0, 0, 0x80), IdentPoll::Wait);
}

#[test]
fn pata_identify_buffer() {
    let mut words = [0u16; 256];
    words[6] = 63;
    words[60] = 0x5678;
    words[61] = 0x1234;
    words[83] = 1 << 10;
    words[100] = 0x0004;
    words[101] = 0x0003;
    words[102] = 0x0002;
    words[103] = 0x0001;
    let mut d = PataDevice::new(0x1F0);
    d.read_identify_buffer(&words);
    assert!(d.identified && d.lba48_supported);
    assert_eq!(d.sectors_per_track, 63);
    assert_eq!(d.lba28_sector_count, 0x1234_5678);
    assert_eq!(d.lba48_sector_count, 0x0001_0002_0003_0004);
    assert_eq!(d.sector_count(), 0x0001_0002_0003_0004);
}

#[test]
fn pata_lba_and_range() {
    let mut d = PataDevice::new(0x170);
    d.lba28_sector_count = 1000;
    d.lba48_sector_count = 5000;
    assert_eq!(d.get_lba(7), 7);
    // Without 48-bit support a negative index counts back from the 48-bit count.
    assert_eq!(d.get_lba(-1), 4999);
    d.lba48_supported = true;
    assert_eq!(d.get_lba(-1), 999);
    assert_eq!(d.verify_lba(4990, 10), Ok(()));
    assert_eq!(d.verify_lba(4991, 10), Err(IoErr::SectorOutOfRange));
    assert_eq!(d.io_init(4990, 10), Err(IoErr::Unavailable));
    d.identified = true;
    assert_eq!(d.io_init(4990, 10), Ok(4990));
    assert_eq!(d.io_init(4991, 10), Err(IoErr::SectorOutOfRange));
    d.lba48_supported = false;
    assert_eq!(d.verify_lba(990, 10), Ok(()));
    assert_eq!(d.verify_lba(991, 10), Err(IoErr::SectorOutOfRange));
}

#[test]
fn pata_register_writes() {
    let w = lba48_registers(0x0102, 0x0A0B_0C0D_0E0F);
    assert_eq!(
        w,
        vec![
            (DRIVE, LBA48),
            (SECTOR_COUNT, 0x01),
            (LBA_LOW, 0x0C),
            (LBA_MID, 0x0B),
            (LBA_HIGH, 0x0A),
            (SECTOR_COUNT, 0x02),
            (LBA_LOW, 0x0F),
            (LBA_MID, 0x0E),
            (LBA_HIGH, 0x0D),
        ]
    );
    let w = lba28_registers(0x0102, 0x0A0B_0C0D);
    assert_eq!(w, vec![(DRIVE, 0xFF), (SECTOR_COUNT, 0x02), (LBA_LOW, 0x0D), (LBA_MID, 0x0C), (LBA_MID, 0x0B)]);
}

#[test]
fn pata_sector_words() {
    let mut words = [0u16; 256];
    words[0] = 0xBEEF;
    words[255] = 0x1234;
    let mut out = vec![0x55u8; 1024];
    store_sector_words(&mut out, 1, &words);
    assert_eq!(out[0], 0x55);
    assert_eq!(out[511], 0x55);
    assert_eq!((out[512], out[513]), (0xEF, 0xBE));
    assert_eq!((out[1022], out[1023]), (0x34, 0x12));
    assert_eq!(sector_word(&out, 1, 0), 0xBEEF);
    assert_eq!(sector_word(&out, 1, 255), 0x1234);
    assert_eq!(buffer_fits(1024, 2), Ok(()));
    assert_eq!(buffer_fits(1023, 2), Err(IoErr::InputTooSmall));
}

#[test]
fn sata_register_fields() {
    assert_eq!(device_detection(0x0123), 3);
    assert_eq!(interface_power_management(0x0123), 1);
    assert!(usable_port(0x0000_0101, 0x0113));
    assert!(!usable_port(0xEB14_0101, 0x0113));
    assert!(!usable_port(0x0000_0101, 0x0110));
    assert_eq!(stopped_cmd(0xFFFF_FFFF), 0xFFFF_FFEE);
    assert_eq!(init_needs(0x0004), (true, true));
    assert_eq!(init_needs(0x0113), (false, false));
    assert_eq!(with_det_init(0xABCD_EF05, 1), 0xABCD_EF01);
    assert_eq!(with_icc(0x1234_5678, 0xF), 0xF234_5678);
    assert!(task_file_ready(0x40));
    assert!(!task_file_ready(0x80));
    assert!(lba48_supported(0x0400));
    assert!(!lba48_supported(0x0200));
    assert_eq!(sector_count_of(1025), 2);
    assert!(slot_done(0b10, 0));
    assert!(!slot_done(0b10, 1));
    assert_eq!(issue_bit(5), 32);
    assert_eq!(command_header_offset(3), 96);
    assert_eq!(sata_identify_status(0x01), IdentifyStatus::DriveError);
    assert_eq!(sata_identify_status(0x88), IdentifyStatus::StillBusy);
    assert_eq!(sata_identify_status(0x40), IdentifyStatus::Done);
    assert!(nth_command_table_offset(1) > nth_command_table_offset(0));
}

#[test]
fn sata_drive_identify() {
    let mut d = AhciSata::new(0x10_0000, 31, 0, 2);
    let mut words = [0u16; 256];
    words[6] = 17;
    words[100] = 0x1000;
    words[101] = 0x0001;
    d.apply_identify(&words);
    assert_eq!(d.sectors_per_track, 17);
    assert_eq!(d.sector_count, 0x0001_1000);
    assert!(d.command_table_paddr(1) > d.command_table_paddr(0));
    assert!(d.received_fis_paddr() >= 0x10_0000);
}

#[test]
fn sata_commands() {
    assert_eq!(split_addr(0x1234_5678_9ABC_DEF0), (0x9ABC_DEF0, 0x1234_5678));
    let c = build_rw_command(0x0605_0403_0201, 2, true, 0x1_2345_6000, 0x8000);
    assert_eq!(c.fis.fis_type, 0x27);
    assert_eq!((c.fis.lba0, c.fis.lba1, c.fis.lba5), (0x01, 0x02, 0x06));
    assert_eq!((c.fis.count_low, c.fis.count_high), (2, 0));
    assert_eq!((c.prdt.data_base_low, c.prdt.data_base_high), (0x2345_6000, 1));
    assert_eq!(c.prdt.flags & 0x3F_FFFF, 1023);
    assert_eq!(c.header.physical_region_descriptor_table_length, 1);
    assert_eq!(c.header.cmd_table_base_addr_low, 0x8000);
    let r = build_rw_command(5, 1, false, 0, 0);
    assert_ne!(r.fis.command, c.fis.command);
    let i = build_identify_command(0x9000, 0xA000);
    assert_eq!(i.fis.command, 0xEC);
    let f = build_flush_command(0xA000);
    assert_eq!(f.fis.command, 0xE7);
    assert_eq!(FisType::from_code(0x27), Some(FisType::RegH2D));
    assert_eq!(FisType::from_code(0x00), None);
    assert_eq!(FisType::RegD2H.code(), 0x34);
}

#[test]
fn task_slots_and_completion() {
    let mut t = AhciTaskState::new(1);
    assert_eq!(t.remaining_operations, 2);
    assert_eq!(t.start_operation(100, 1), Some(0));
    assert_eq!(t.start_operation(101, 1), Some(1));
    assert_eq!(t.remaining_operations, 0);
    let data = AhciSataInterruptData::default();
    let (done, rec) = t.handle_interrupt(data, 0b10);
    assert_eq!(done, vec![(100, None)]);
    assert!(rec.is_empty());
    assert_eq!(t.operations[0], None);
    assert_eq!(t.operations[1], Some(101));
    assert_eq!(t.remaining_operations, 1);
}

#[test]
fn task_file_error_fails_current_slot() {
    let mut t = AhciTaskState::new(3);
    t.start_operation(7, 3);
    t.start_operation(8, 3);
    let data = AhciSataInterruptData {
        command_issue: 0b11,
        cmd_and_status: 1 << 8,
        interrupt_status: TFES,
        task_file_data: 0x04 << 8,
        sata_error: 0,
    };
    let (done, rec) = t.handle_interrupt(data, 0b11);
    assert_eq!(done, vec![(8, Some(AhciErr::ATA(4)))]);
    assert_eq!(rec, vec![AhciRecovery::TaskFileRestart { command_issue: 0b01 }]);
    assert_eq!(t.operations[0], Some(7));
    assert_eq!(t.operations[1], None);
}

#[test]
fn fatal_errors_fail_everything() {
    let mut t = AhciTaskState::new(3);
    t.start_operation(7, 3);
    t.start_operation(8, 3);
    let data = AhciSataInterruptData { interrupt_status: IFS, ..Default::default() };
    let (done, rec) = t.handle_interrupt(data, 0);
    assert_eq!(done, vec![(7, Some(AhciErr::Internal)), (8, Some(AhciErr::Internal))]);
    assert_eq!(rec, vec![AhciRecovery::FailureReset]);
    assert!(t.operations.iter().all(|o| o.is_none()));

    let mut t = AhciTaskState::new(3);
    t.start_operation(9, 3);
    let data = AhciSataInterruptData { interrupt_status: INFS, ..Default::default() };
    let (done, rec) = t.handle_interrupt(data, 0);
    assert_eq!(done, vec![(9, Some(AhciErr::Internal))]);
    assert_eq!(rec, vec![AhciRecovery::ComReset]);
}

#[test]
fn slots_full() {
    let mut t = AhciTaskState::new(40);
    for k in 0..2u64 {
        assert_eq!(t.start_operation(k, 1), Some(k as usize));
    }
    assert_eq!(t.start_operation(5, 1), None);
}

#[test]
fn interrupt_ports_and_restart() {
    assert_eq!(ahci_interrupt_handler_by_idx(0b1001_0001), vec![0, 4, 7]);
    assert_eq!(ahci_interrupt_handler_by_idx(0), Vec::<usize>::new());
    assert_eq!(stop_on_task_file_error(TFES, 0x17), Some(0x16));
    assert_eq!(stop_on_task_file_error(0, 0x17), None);
    let mut f = AhciSataPortFuture::new(0, 1);
    assert!(!f.poll_step());
    assert!(f.poll_step());
}

#[test]
fn storage_controllers_found() {
    let f = |class, subclass, prog_if, address| PciFunction { class, subclass, prog_if, address };
    let found = identify_storage_devices(&vec![
        f(0x01, 0x06, 0x01, 0xA000),
        f(0x02, 0x00, 0x00, 0xB000),
        f(0x01, 0x01, 0x80, 0xC000),
        f(0x01, 0x06, 0x01, 0xD000),
        f(0x01, 0x06, 0x00, 0xE000),
    ]);
    assert_eq!(found, vec![0xA000, 0xD000]);
    assert!(identify_storage_devices(&vec![]).is_empty());
}

#[test]
fn sata_drive_geometry_as_block_device() {
    let mut d = AhciSata::new(0x20_0000, 7, 1, 0);
    let mut words = [0u16; 256];
    words[6] = 32;
    words[100] = 500;
    d.apply_identify(&words);
    assert_eq!(HalBlockDevice::sector_count(&mut d), 500);
    assert_eq!(d.sectors_per_track(), 32);
}

#[test]
fn finished_operation_answers() {
    let read = HalStorageOperation::Read { buffer: Buffer { inner: 0x1000, len: 512 }, lba: 3, cell: 9 };
    assert!(matches!(read.finish_answer(None), Some((9, Ok(())))));
    match (HalStorageOperation::Flush { cell: 4 }).finish_answer(Some(AhciErr::Internal)) {
        Some((4, Err(HalStorageOperationErr::DriveErr(m)))) => assert_eq!(m, "Internal drive error"),
        _ => panic!("expected the drive's error"),
    }
    match read.finish_answer(Some(AhciErr::ATA(0x51))) {
        Some((9, Err(HalStorageOperationErr::DriveErr(m)))) => assert_eq!(m, "0"),
        _ => panic!("expected the drive's error"),
    }
    assert!(HalStorageOperation::Identify { cell: 1 }.finish_answer(None).is_none());
}

#[test]
fn hba_registers_and_ports() {
    assert_eq!(hba_phys_base(0xFEBF_1000, 0x12), 0xFEBF_1000);
    assert_eq!(hba_phys_base(0xFEBF_1004, 0x12), 0x12_FEBF_1000);
    assert_eq!(hba_phys_base(0xFEBF_100F, 0), 0xFEBF_1000);
    assert_eq!(enabled_ghc(0), 0x8000_0002);
    assert_eq!(enabled_ghc(0x0000_0101), 0x8000_0103);
    assert!(supports_64bit(0xC734_FF05));
    assert!(!supports_64bit(0x4000_0000));
    assert_eq!(command_slot_count(0x0000_1F00), 32);
    assert_eq!(command_slot_count(0x0000_0700), 8);
    assert_eq!(implemented_ports(0b101), vec![0, 2]);
    assert_eq!(port_base(0x1000, 2), 0x1000 + 0x100 + 2 * 0x80);
}

#[test]
fn storage_controllers_past_eighth_skipped() {
    let fns: Vec<PciFunction> = (0..10u64)
        .map(|i| PciFunction { class: 0x01, subclass: 0x06, prog_if: 0x01, address: 0x1000 * (i + 1) })
        .collect();
    let found = identify_storage_devices(&fns);
    assert_eq!(found.len(), 8);
    assert_eq!(found[7], 0x8000);
}

#[test]
fn negative_lba_counts_from_end() {
    assert_eq!(effective_lba(5, 1000), 5);
    assert_eq!(effective_lba(-1, 1000), 999);
    assert_eq!(effective_lba(-1000, 1000), 0);
    assert_eq!(effective_lba(-1, u64::MAX), u64::MAX - 1);
}

#[test]
fn port_init_runs_in_order() {
    let dma = 0x10_0000u64;
    // Offline port (det 4, no power state): COMRESET first, then a wake-up.
    let (p, a) = port_init_step(PortInitPhase::Start, 0, 0, 0, 0, 0, dma);
    assert_eq!((p, a), (PortInitPhase::Status, PortInitAction::DisableInterrupts));
    let (p, a) = port_init_step(p, 0x004, 0, 0x11, 0, 0, dma);
    assert_eq!((p, a), (PortInitPhase::ComresetControl { wake: true }, PortInitAction::WriteCommand(0)));
    let (p, a) = port_init_step(p, 0x004, 0x300, 0, 0, 10, dma);
    assert_eq!((p, a), (PortInitPhase::WaitPhy { wake: true, start: 10 }, PortInitAction::WriteControl(0x301)));
    let (p2, a2) = port_init_step(p, 0x001, 0x301, 0, 0, 500, dma);
    assert_eq!((p2, a2), (p, PortInitAction::Poll));
    let (p, a) = port_init_step(p, 0x003, 0x301, 0x10, 0, 600, dma);
    assert_eq!((p, a), (PortInitPhase::ComresetRelease { wake: true }, PortInitAction::WriteCommand(0)));
    let (p, a) = port_init_step(p, 0x003, 0x301, 0, 0, 600, dma);
    assert_eq!((p, a), (PortInitPhase::Wake, PortInitAction::WriteControl(0x300)));
    let (p, a) = port_init_step(p, 0x003, 0x300, 0x0000_0000, 0, 700, dma);
    assert_eq!((p, a), (PortInitPhase::WaitActive { start: 700 }, PortInitAction::WriteCommand(0x1000_0000)));
    let (p, a) = port_init_step(p, 0x103, 0x300, 0x1000_0000, 0, 800, dma);
    assert_eq!((p, a), (PortInitPhase::WakeRelease, PortInitAction::WriteCommand(0x1000_0000)));
    let (p, a) = port_init_step(p, 0x103, 0x300, 0, 0, 800, dma);
    assert_eq!((p, a), (PortInitPhase::ResetCheck, PortInitAction::WriteControl(0x300)));
    // Idle engine: the addresses are set at once.
    let (p, a) = port_init_step(p, 0x103, 0, 0, 0, 800, dma);
    assert_eq!((p, a), (PortInitPhase::ClearErrors, PortInitAction::SetAddresses { command_list: dma, fis: dma + 0x400 }));
    let (p, a) = port_init_step(p, 0x103, 0, 0, 0, 900, dma);
    assert_eq!((p, a), (PortInitPhase::WaitReady { start: 900 }, PortInitAction::ClearErrors));
    let (p, a) = port_init_step(p, 0x103, 0, 0, 0x80, 1500, dma);
    assert_eq!((p, a), (PortInitPhase::WaitReady { start: 900 }, PortInitAction::Poll));
    let (p, a) = port_init_step(p, 0x103, 0, 0, 0x50, 1600, dma);
    assert_eq!((p, a), (PortInitPhase::EnableFis, PortInitAction::Poll));
    let (p, a) = port_init_step(p, 0x103, 0, 0x0, 0, 1600, dma);
    assert_eq!((p, a), (PortInitPhase::WaitFisRunning { cmd: 0x10 }, PortInitAction::WriteCommand(0x10)));
    let (p, a) = port_init_step(p, 0x103, 0, 0x4010, 0, 1600, dma);
    assert_eq!((p, a), (PortInitPhase::WaitListRunning, PortInitAction::WriteCommand(0x11)));
    let (p, a) = port_init_step(p, 0x103, 0, 0xC011, 0, 1600, dma);
    assert_eq!((p, a), (PortInitPhase::Done { ok: true }, PortInitAction::Finish(true)));
}

#[test]
fn port_init_times_out() {
    // The device never comes up within a second of the COMRESET.
    let (p, a) = port_init_step(PortInitPhase::WaitPhy { wake: false, start: 100 }, 0x001, 0, 0, 0, 1100, 0);
    assert_eq!((p, a), (PortInitPhase::Done { ok: false }, PortInitAction::Finish(false)));
    // Stopping the engine fails only past a second.
    let (p, a) = port_init_step(PortInitPhase::WaitStopped { start: 0 }, 0, 0, 0x8000, 0, 1000, 0);
    assert_eq!((p, a), (PortInitPhase::WaitStopped { start: 0 }, PortInitAction::Poll));
    let (p, a) = port_init_step(PortInitPhase::WaitStopped { start: 0 }, 0, 0, 0x8000, 0, 1001, 0);
    assert_eq!((p, a), (PortInitPhase::Done { ok: false }, PortInitAction::Finish(false)));
    // A busy engine is stopped before the addresses are set.
    let (p, a) = port_init_step(PortInitPhase::ResetCheck, 0x103, 0, 0xC011, 0, 5, 0);
    assert_eq!((p, a), (PortInitPhase::WaitStopped { start: 5 }, PortInitAction::WriteCommand(0xC000)));
}

#[test]
fn task_waits_for_requests_while_slots_free() {
    let mut t = AhciTaskState::new(0);
    assert_eq!(t.next_wait(), TaskWait::RequestOrInterrupt);
    t.remaining_operations = 0;
    assert_eq!(t.next_wait(), TaskWait::InterruptOnly);
}
