use mesa_kernel::ata::{access_registers, busy_step, drq_step, identify_response, parse_identify, AtaDriver, WaitStep};
use mesa_kernel::audio_player::{resample_frames, source_frame, stream_plan, chunk_frames, AudioError};
use mesa_kernel::block::BlockDevice;
use mesa_kernel::console::Color;
use mesa_kernel::cursor::Cursor;
use mesa_kernel::hda::{
    bdl_words, check_pcm, codecs_in_mask, enumerate_codecs, gain, next_corb_wp, output_stream_base, playback_ticks,
    print_status, stream_setup, verb, widget_verbs, HdaDriver, RegWrite,
};
use mesa_kernel::i2c::{
    dw_read_commands, dw_setup, dw_write_commands, elan_found, le_word, smbus_base_from_config, smbus_base_from_pm,
    smbus_control, smbus_status, SmbStatus, SmbTransfer,
};
use mesa_kernel::msc::{register, scsi_outcome, MscDevice, ScsiOutcome, MSC_TAG};
use mesa_kernel::net::{mac, rtl_send};
use mesa_kernel::nvme::{
    bar_base, cap_fields, enabled_config, io_command, split_io, CqEntry, IoChunk, NvmeDriver, NvmeQueue, PollStep, SqEntry,
    POLL_LIMIT,
};
use mesa_kernel::paging::{cow_resolved, is_cow_candidate, next_table, walk_index};
use mesa_kernel::rndis::{init_message, init_message_bytes, usb_net_poll, usb_net_tx};
use mesa_kernel::rtl8139::{get_rx_offset, tx_status, Rtl8139, TxStatus};
use mesa_kernel::speaker::{speak, speaker_off, speaker_on, tone_divider, PcSpeaker, Phoneme};
use mesa_kernel::ui::UiRenderer;
use mesa_kernel::usb::CommandStatusWrapper;
use mesa_kernel::virtio_net::{check_queue_size, io_base, VirtQueue};
use mesa_kernel::xhci_port::{
    ack_reset, after_reset, controller_base, dcbaa_bytes, port_status, reset_request, warm_reset_outcome, PortRecovery,
};

fn cq(cid: u16, status: u16) -> CqEntry {
    CqEntry { cdw0: 0, rsvd1: 0, sq_head: 0, sq_id: 1, cid, status }
}

#[test]
fn nvme_submit_takes_tail_and_rings_doorbell() {
    let mut q = NvmeQueue::new(1, 4, 0, 0x1000, 0x2000);
    let mut e = SqEntry::default();
    e.cdw0 = 0xABCD_0002;
    let s = q.submit(e);
    assert_eq!(s.cid, 0);
    assert_eq!(s.entry.cdw0, 0x0000_0002);
    assert_eq!(s.doorbell.offset, 0x1008);
    assert_eq!(s.doorbell.value, 1);
    q.submit(e);
    q.submit(e);
    let last = q.submit(e);
    assert_eq!(last.cid, 3);
    assert_eq!(last.entry.cdw0, 0x0003_0002);
    assert_eq!(last.doorbell.value, 0);
    assert_eq!(q.sq_tail, 0);
}

#[test]
fn nvme_poll_consumes_by_phase() {
    let mut q = NvmeQueue::new(1, 2, 0, 0x1000, 0x2000);
    let stale = q.poll_step(cq(0, 0), 0, 0);
    assert_eq!(stale.doorbell, None);
    assert_eq!(stale.step, PollStep::Retry(1));
    let done = q.poll_step(cq(0, 1), 0, 5);
    assert_eq!(done.step, PollStep::Done(cq(0, 1)));
    assert_eq!(done.doorbell.unwrap().offset, 0x100C);
    assert_eq!(done.doorbell.unwrap().value, 1);
    let other = q.poll_step(cq(7, (5 << 1) | 1), 0, 9);
    assert_eq!(other.step, PollStep::Retry(10));
    assert_eq!((q.cq_head, q.phase), (0, 0));
    let failed = q.poll_step(cq(3, 5 << 1), 3, 0);
    assert_eq!(failed.step, PollStep::Failed(5));
    let timeout = q.poll_step(cq(0, 1), 0, POLL_LIMIT);
    assert_eq!(timeout.step, PollStep::TimedOut);
}

#[test]
fn nvme_commands_and_registers() {
    let c = io_command(1, 0x1_0000_0005, 0x5000, 8, false);
    assert_eq!((c.cdw0, c.nsid, c.prp1, c.cdw10, c.cdw11, c.cdw12), (2, 1, 0x5000, 5, 1, 7));
    assert_eq!(io_command(1, 0, 0, 1, true).cdw0, 1);
    assert_eq!(bar_base(0x8000_000C, 1), 0x1_8000_0000);
    assert_eq!(bar_base(0xFEB0_0000, 5), 0xFEB0_0000);
    assert_eq!(enabled_config(0, 0), 0x46_0001);
    assert_eq!(cap_fields((2u64 << 48) | (3u64 << 32) | 0xFFFF), (3, 2));
    let q = NvmeQueue::new(1, 4, 2, 0, 0);
    let mut q2 = q;
    assert_eq!(q2.submit(SqEntry::default()).doorbell.offset, 0x1020);
    let mut drv = NvmeDriver::new(0);
    assert_eq!(drv.submit_io(0, 0, 1, false).unwrap_err(), "IO Queue not initialized");
}

#[test]
fn nvme_request_split() {
    assert_eq!(split_io(100, 4, 2048).unwrap(), vec![IoChunk { lba: 100, sectors: 4, buf_offset: 0 }]);
    let v = split_io(100, 9, 4608).unwrap();
    assert_eq!(v.len(), 9);
    assert_eq!(v[8], IoChunk { lba: 108, sectors: 1, buf_offset: 4096 });
    assert_eq!(split_io(0, 2, 1000).unwrap_err(), "Buffer too small");
}

#[test]
fn rtl8139_transmit_descriptors_rotate() {
    let mut r = Rtl8139::new(0xC000);
    r.tx_buffers = [0x10, 0x20, 0x30, 0x40];
    let t = r.send_packet(100).unwrap();
    assert_eq!((t.index, t.phys, t.tsad_port, t.tsd_port, t.tsd_value), (0, 0x10, 0xC020, 0xC010, 100));
    assert_eq!(r.tx_index, 1);
    assert_eq!(r.send_packet(2000).unwrap_err(), "Packet too large");
    assert_eq!(r.tx_index, 1);
    for _ in 0..3 {
        r.send_packet(60).unwrap();
    }
    assert_eq!(r.tx_index, 0);
    assert_eq!(tx_status(0xA000), TxStatus::Sent);
    assert_eq!(tx_status(0), TxStatus::Busy);
    assert_eq!(tx_status(0xC000), TxStatus::Underrun);
    assert_eq!(tx_status(0x8000), TxStatus::Done);
}

#[test]
fn rtl8139_receive_ring() {
    let mut r = Rtl8139::new(0xC000);
    let mut ring = vec![0u8; 8192];
    ring[0..4].copy_from_slice(&[1, 0, 68, 0]);
    for i in 0..64 {
        ring[4 + i] = i as u8;
    }
    let idle = r.poll_rx(0, 0x04, 100, &ring);
    assert_eq!((idle.capr, idle.packet.clone()), (None, None));
    let same = r.poll_rx(0, 0x0C, 0, &ring);
    assert_eq!(same.packet, None);
    let out = r.poll_rx(5, 0x0C, 100, &ring);
    assert_eq!(out.isr_ack, Some(5));
    let p = out.packet.unwrap();
    assert_eq!(p.len(), 64);
    assert_eq!(p[63], 63);
    assert_eq!(r.rx_offset, 72);
    assert_eq!(out.capr, Some(56));
    assert_eq!(get_rx_offset(Some(&r)), 72);
    assert_eq!(get_rx_offset(None), 0);
}

#[test]
fn rtl8139_receive_wraps_and_skips_bad_frames() {
    let mut r = Rtl8139::new(0xC000);
    r.rx_offset = 8188;
    let mut ring = vec![0u8; 8192];
    ring[8188..8192].copy_from_slice(&[1, 0, 8, 0]);
    ring[0..4].copy_from_slice(&[9, 8, 7, 6]);
    let out = r.poll_rx(0, 0x0C, 0, &ring);
    assert_eq!(out.packet.unwrap(), vec![9, 8, 7, 6]);
    assert_eq!(r.rx_offset, 8);
    ring[8..12].copy_from_slice(&[1, 0, 2, 0]);
    let bad = r.poll_rx(0, 0x0C, 0, &ring);
    assert_eq!(bad.packet, None);
    assert_eq!(r.rx_offset, 16);
    ring[16..20].copy_from_slice(&[0, 0, 64, 0]);
    let not_ok = r.poll_rx(0, 0x0C, 0, &ring);
    assert_eq!(not_ok.packet, None);
    assert_eq!(r.rx_offset, 16 + 68);
}

#[test]
fn hda_verbs_and_stream() {
    assert_eq!(verb(1, 0x12, 0xF0000), 0x112F_0000);
    assert_eq!(next_corb_wp(255, 256), 0);
    assert_eq!(output_stream_base(0x4401), 0x100);
    assert_eq!((gain(100), gain(50), gain(25), gain(0)), (127, 63, 31, 0));
    let dac = widget_verbs(6, 31);
    assert_eq!(dac.len(), 11);
    assert_eq!(dac[0], 0x3B000 | 31);
    assert_eq!(dac[1], 0x37000 | 31);
    assert_eq!(dac[8], 0x37700 | 31);
    assert_eq!(&dac[9..], &[0x70610, 0x20011]);
    assert_eq!(widget_verbs(4 << 20, 0), vec![0x707C0, 0x70C02]);
    assert_eq!(widget_verbs(3 << 20, 0), vec![0x70100]);
    let bdl = bdl_words(0x10_0000);
    assert_eq!(bdl.len(), 512);
    assert_eq!(&bdl[0..4], &[0x10_0000, 0, 4096, 0]);
    assert_eq!(&bdl[508..512], &[0x17_F000, 0, 4096, 1]);
    let w = stream_setup(0x100, 0x1_2345_6000);
    assert_eq!(w[0], RegWrite { offset: 0x100, width: 4, value: 0x10_0000 });
    assert_eq!(w[4], RegWrite { offset: 0x118, width: 4, value: 0x2345_6000 });
    assert_eq!(w[5], RegWrite { offset: 0x11C, width: 4, value: 1 });
    assert_eq!(check_pcm(0, true).unwrap_err(), "Buffer PCM vacío");
    assert_eq!(check_pcm(10, false).unwrap_err(), "Driver HDA no inicializado");
    assert!(check_pcm(10, true).is_ok());
    assert_eq!(playback_ticks(192_000), 18);
}

#[test]
fn hda_driver_state_and_status() {
    let mut d = HdaDriver::new(0xF000);
    d.configured(0x4401, 0b101);
    assert_eq!(d.stream_base, 0x100);
    d.set_volume(150);
    assert_eq!(d.volume, 100);
    assert_eq!(codecs_in_mask(0b101), vec![0, 2]);
    assert_eq!(enumerate_codecs(Some(&d)).unwrap(), vec![0, 2]);
    assert_eq!(enumerate_codecs(None).unwrap_err(), "[HDA] Driver no inicializado.");
    let lines = print_status(Some(&d));
    assert_eq!(lines.len(), 7);
    assert_eq!(lines[1], "  BAR0 Virtual : 0xf000");
    assert_eq!(lines[2], "  Codecs       : 2 (mask: 0x0005)");
    assert_eq!(lines[4], "  Stream DMA   : PARADO");
    let start = d.start_stream(0x10_0000);
    assert_eq!(start.value, 0x10_0002);
    assert!(d.stream_running);
    assert_eq!(print_status(None).len(), 1);
}

#[test]
fn xhci_port_writes_keep_change_bits() {
    assert_eq!(controller_base(0xF000_0004, 1), 0x1_F000_0000);
    assert_eq!(controller_base(0xF000_0000, 1), 0xF000_0000);
    assert_eq!(reset_request(0x0002_0203), 0x211);
    assert_eq!(ack_reset(0x0020_0003), 0x20_0001);
    let st = port_status(0x1203);
    assert!(st.connected && st.enabled);
    assert_eq!((st.link_state, st.speed), (0, 4));
    assert_eq!(after_reset(0x1203, 4), PortRecovery::Ready);
    assert_eq!(after_reset(0x1201, 4), PortRecovery::WarmReset);
    assert_eq!(after_reset(0x0C01, 3), PortRecovery::PowerCycle);
    assert_eq!(after_reset(0x1003 | (8 << 5), 4), PortRecovery::WarmReset);
    assert_eq!(warm_reset_outcome(0x1003), Some(4));
    assert_eq!(warm_reset_outcome(0x1001), None);
    assert_eq!(dcbaa_bytes(32), 264);
}

#[test]
fn virtio_queues() {
    let mut q = VirtQueue::new(4);
    let t = q.post_tx(0x9000, 60, 7);
    assert_eq!((t.head, t.desc.addr, t.desc.len, t.desc.flags, t.new_avail_idx), (0, 0x9000, 70, 0, 8));
    assert_eq!(q.index, 1);
    assert_eq!(q.rx_pending(0), None);
    assert_eq!(q.rx_pending(1), Some(0));
    let r = q.rx_complete(3, 74, 10);
    assert_eq!((r.frame_len, r.avail_slot, r.avail_value, r.new_avail_idx), (Some(64), 2, 3, 11));
    assert_eq!(q.rx_complete(1, 10, 0xFFFF).frame_len, None);
    assert_eq!(q.last_used, 2);
    assert_eq!(check_queue_size(0).unwrap_err(), "Tamaño de cola invalido");
    assert!(check_queue_size(513).is_err());
    assert!(check_queue_size(256).is_ok());
    assert_eq!(io_base(0xC001), 0xC000);
}

#[test]
fn ata_status_and_identify() {
    assert_eq!(busy_step(0x80), WaitStep::Again);
    assert_eq!(busy_step(0x41), WaitStep::Error);
    assert_eq!(busy_step(0x40), WaitStep::Ready);
    assert_eq!(drq_step(0x09), WaitStep::Ready);
    assert_eq!(drq_step(0x01), WaitStep::Error);
    assert_eq!(drq_step(0x40), WaitStep::Again);
    assert_eq!(identify_response(0, 0, 0).unwrap_err(), "No disk detected");
    assert_eq!(identify_response(0x50, 0x14, 0xEB).unwrap_err(), "Not an ATA disk (probably ATAPI)");
    assert!(identify_response(0x50, 0, 0).is_ok());
    assert_eq!(access_registers(0x0123_4567), [0xE1, 1, 0x67, 0x45, 0x23]);
    let empty = AtaDriver::new();
    assert_eq!(empty.check_lba(0).unwrap_err(), "Disk not initialized");
    assert_eq!(empty.capacity(), 0);
    let mut w = [0u16; 256];
    w[83] = 0x400;
    w[101] = 0x20;
    w[27] = 0x4142;
    let info = parse_identify(&w);
    assert_eq!(info.sectors, 0x20_0000);
    assert_eq!(info.size_mb, 1024);
    assert_eq!(&info.model[0..2], &[0x42, 0x41]);
    let disk = AtaDriver { info: Some(info) };
    assert_eq!(disk.check_lba(0x20_0000).unwrap_err(), "LBA out of range");
    assert!(disk.check_lba(5).is_ok());
    assert_eq!(disk.disk_info().unwrap().sectors, 0x20_0000);
}

#[test]
fn msc_commands_and_status() {
    let c = MscDevice::command_wrapper(0x12, 36);
    assert_eq!((c.d_cbw_tag, c.d_cbw_data_transfer_length, c.bm_cbw_flags, c.b_cbw_cb_length), (MSC_TAG, 36, 0x80, 6));
    assert_eq!(c.cbw_cb[0], 0x12);
    assert_eq!(c.cbw_cb[4], 36);
    assert_eq!(c.to_bytes().len(), 31);
    assert_eq!(MscDevice::command_wrapper(0x25, 8).b_cbw_cb_length, 10);
    let ok = CommandStatusWrapper { d_csw_signature: 0x53425355, d_csw_tag: MSC_TAG, d_csw_data_residue: 0, b_csw_status: 0 };
    assert_eq!(scsi_outcome(true, &ok, MSC_TAG), ScsiOutcome::Passed);
    let failed = CommandStatusWrapper { b_csw_status: 2, ..ok };
    assert_eq!(scsi_outcome(true, &failed, MSC_TAG), ScsiOutcome::Failed(2));
    assert_eq!(scsi_outcome(true, &ok, 1), ScsiOutcome::NoStatus);
    assert_eq!(scsi_outcome(false, &ok, MSC_TAG), ScsiOutcome::NoStatus);
    let mut dev = MscDevice::new(0, 3, 2, 5, 512);
    dev.set_capacity(&[0, 0, 0x0F, 0xFF, 0, 0, 2, 0]);
    assert_eq!((dev.capacity_blocks, dev.block_size), (4096, 512));
    let mut buf = [0u8; 512];
    assert_eq!(dev.read(0, 1, &mut buf).unwrap_err(), "MSC read failed");
    assert_eq!(dev.write(0, 1, &buf).unwrap_err(), "MSC write failed");
    assert_eq!(dev.capacity(), 4096);
    let mut all = Vec::new();
    register(&mut all, dev);
    assert_eq!(all.len(), 1);
}

#[test]
fn speaker_tones_and_voice() {
    assert_eq!(tone_divider(1000), (0xA9, 0x04));
    assert_eq!(PcSpeaker::play_tone(0), None);
    assert_eq!(PcSpeaker::beep(), (0xA9, 0x04));
    assert_eq!(speaker_on(0), Some(3));
    assert_eq!(speaker_on(3), None);
    assert_eq!(speaker_off(0xFF), 0xFC);
    assert_eq!(
        speak("Hola A!"),
        vec![Phoneme::Tone(550), Phoneme::Tone(440), Phoneme::Tone(550), Phoneme::Tone(440), Phoneme::Pause, Phoneme::Tone(440)]
    );
}

#[test]
fn touchpad_buses() {
    assert_eq!(dw_read_commands(2, 2), vec![0x202, 0x100, 0x500]);
    assert_eq!(dw_write_commands(1, 8), (1, 0x408));
    assert_eq!(dw_setup()[1], (0, 0x121));
    assert_eq!(le_word(0x34, 0x12), 0x1234);
    assert!(elan_found(0, Some(0x0102)));
    assert!(!elan_found(1, Some(0x0102)));
    assert!(!elan_found(0, Some(0xFFFF)));
    assert!(!elan_found(0, None));
    assert_eq!(smbus_status(0x14), SmbStatus::Complete);
    assert_eq!(smbus_status(0x04), SmbStatus::Failed);
    assert_eq!(smbus_status(0x01), SmbStatus::Pending);
    assert_eq!(smbus_control(SmbTransfer::I2cBlock(8)), 0x4D);
    assert_eq!(smbus_base_from_config(0x0B21), Some(0x0B20));
    assert_eq!(smbus_base_from_config(0x0B20), None);
    assert_eq!(smbus_base_from_pm(0x51, 0x0B10), Some(0x0B00));
    assert_eq!(smbus_base_from_pm(0x50, 0x0B10), None);
}

#[test]
fn copy_on_write_faults() {
    assert!(is_cow_candidate(2, 0x1000));
    assert!(!is_cow_candidate(0, 0x1000));
    assert!(!is_cow_candidate(2, 0xFFFF_8000_0000_0000));
    assert_eq!(walk_index(0x0000_7FFF_FFFF_F000, 3), 0xFF);
    assert_eq!(walk_index(0x0000_7FFF_FFFF_F000, 0), 0x1FF);
    assert_eq!(next_table(0x5003), Some(0x5000));
    assert_eq!(next_table(0x5002), None);
    assert_eq!(cow_resolved(0x1_2345_0A05, 0x9_9999_9000, 0x200), 0x9_9999_9807);
}

#[test]
fn network_card_choice_and_rndis() {
    assert_eq!(mac(true, Some([1; 6]), None), Some([1; 6]));
    assert_eq!(mac(false, Some([1; 6]), None), None);
    let r = Rtl8139::new(0xC000);
    assert_eq!(mac(false, None, Some(&r)), Some([0; 6]));
    assert_eq!(rtl_send(None, 10).unwrap_err(), "Driver not initialized");
    let bytes = init_message_bytes(&init_message(2));
    assert_eq!(bytes, vec![2, 0, 0, 0, 24, 0, 0, 0, 1, 0, 0, 0, 1, 0, 0, 0, 0, 0, 0, 0, 0, 0x40, 0, 0]);
    assert_eq!(usb_net_tx(&[1, 2]).unwrap_err(), "RNDIS TX not yet implemented");
    assert!(usb_net_poll().is_none());
}

#[test]
fn cursor_draw_layers() {
    let mut ui = UiRenderer::new(32, 32, 128, 4);
    let c = Cursor { x: 10, y: 10, width: 32, height: 32 };
    c.draw(&mut ui);
    let at = |ui: &UiRenderer, x: usize, y: usize| ui.pixels[y * 32 + x];
    assert_eq!(at(&ui, 10, 10), Color { r: 224, g: 222, b: 244 });
    assert_eq!(at(&ui, 11, 10), Color { r: 25, g: 23, b: 36 });
    assert_eq!(at(&ui, 12, 10), Color { r: 255, g: 0, b: 0 });
    assert_eq!(at(&ui, 10, 12), Color { r: 224, g: 222, b: 244 });
    assert_eq!(at(&ui, 30, 30), Color { r: 0, g: 0, b: 0 });
}

#[test]
fn audio_streaming_plan() {
    assert_eq!(stream_plan(0, 2, 48000).unwrap_err(), AudioError::DecodeError);
    assert_eq!(stream_plan(10, 1, 48000).unwrap_err(), AudioError::NotPcm);
    assert_eq!(stream_plan(1, 2, 48000).unwrap_err(), AudioError::DecodeError);
    let p = stream_plan(200_000, 2, 48000).unwrap();
    assert_eq!((p.total_input_frames, p.total_output_frames, p.total_chunks), (100_000, 100_000, 1));
    let q = stream_plan(400_000, 2, 24000).unwrap();
    assert_eq!((q.total_output_frames, q.total_chunks), (400_000, 4));
    assert_eq!(chunk_frames(&q, 393_216), 6784);
    assert_eq!(source_frame(3, 24000, 48000, 10), (1, 2, 24000));
    assert_eq!(source_frame(30, 24000, 48000, 10), (9, 9, 0));
    assert_eq!(resample_frames(10, 24000, 48000), 20);
}
