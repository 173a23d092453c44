use sem86_core::hw::bcd::IntoBcd;
use sem86_core::hw::cmos::RtcTime;
use sem86_core::hw::dma::{Dma, FddDma, Reg16};
use sem86_core::hw::fdc::{Chrn, Command, CommandStatus, Disk};
use sem86_core::hw::ide::atapi::{compute_simple_toc, AtapiError, AtapiPacket};
use sem86_core::hw::ide::drive::{BlockAddr, Geometry};
use sem86_core::hw::intr::Intr;
use sem86_core::hw::logger::Logger;
use sem86_core::hw::machine::{Hw, MovableDevice, PortReply};
use sem86_core::hw::mouse::UartMouse;
use sem86_core::hw::net::dhcp::{DhcpError, DhcpServer, Recipient};
use sem86_core::hw::net::unat::{
    forwards, inspect_packet_for_nat, tcp_plan, transfer_step, NatAction, Packet, TcpEvent,
    TransferOutcome, TransferStep,
};
use sem86_core::hw::pci::bus::blend_into_u32;
use sem86_core::hw::pci::{Address, Bar};
use sem86_core::hw::pic::bitset::Bitset;
use sem86_core::hw::pic::io::{RedirectionEntry, TriggerMode};
use sem86_core::hw::pic::local::LocalApicCore;
use sem86_core::hw::pic::{DualDynamicIrqLine, IrqSystem};
use sem86_core::hw::ports::{from_u32, from_u8, PortError, PortValue, PortWidth};
use sem86_core::hw::routes::{find_read_target, find_write_target, PortTarget};
use sem86_core::hw::storage::DiskData;
use sem86_core::hw::wide::{ReadAction, WideRead, WideWrite, WriteAction};
use sem86_core::mem::{Memory, OutOfRange};

#[test]
fn disk_geometry() {
    let disk = Disk {
        head: 0,
        track: 0,
        cylinder: 0,
        data: Some(DiskData::from_mem(vec![0; 720 * 1024])),
    };

    assert_eq!(disk.num_cylinders(), 80);
    assert_eq!(disk.num_heads(), 2);
    assert_eq!(disk.sectors_per_track(), 9);
}

#[test]
fn chrn_to_offset() {
    let disk = Disk {
        head: 0,
        track: 0,
        cylinder: 0,
        data: Some(DiskData::from_mem(vec![0; 720 * 1024])),
    };

    assert_eq!(disk.chrn_to_offset(&Chrn { c: 0, h: 0, r: 1, n: 2 }), 0x0);
    assert_eq!(disk.chrn_to_offset(&Chrn { c: 0, h: 0, r: 2, n: 2 }), 0x200);
    assert_eq!(disk.chrn_to_offset(&Chrn { c: 0, h: 0, r: 9, n: 2 }), 0x1000);
    assert_eq!(disk.chrn_to_offset(&Chrn { c: 0, h: 1, r: 1, n: 2 }), 0x1200);
}

#[test]
fn sectors_are_read_into_memory() {
    let mut image = vec![0; 720 * 1024];
    image[0x1200] = 0x5a;
    let disk = Disk { head: 0, track: 0, cylinder: 0, data: Some(DiskData::from_mem(image)) };
    let mut mem = Memory::new(0x10000);
    let dma = FddDma { addr: 0x2000, len: 0x1ff, mode: 1 };
    let chrn = Chrn { c: 0, h: 1, r: 1, n: 2 };
    assert!(disk.read_to_mem(&chrn, &dma, &mut mem).is_ok());
    assert_eq!(mem.get8(0x2000), Some(0x5a));
    let none = Disk::empty();
    assert_eq!(
        none.read_to_mem(&chrn, &dma, &mut mem).err(),
        Some(CommandStatus::TerminatedAbnormally)
    );
}

#[test]
fn floppy_commands_are_parsed() {
    assert!(Command::try_parse(&[0x0f, 0x00]).is_none());
    assert!(matches!(Command::try_parse(&[0x0f, 0x01, 5]), Some(Command::Seek { ncn: 5, .. })));
    assert!(matches!(Command::try_parse(&[0x08]), Some(Command::SenseInterruptStatus)));
}

const DHCP_PACKET: [u8; 342] = [
    0xFF, 0xFF, 0xFF, 0xFF, 0xFF, 0xFF, 0xB0, 0xC4, 0x20, 0x00, 0x00, 0x00, 0x08, 0x00, 0x45, 0x00,
    0x01, 0x48, 0x00, 0x00, 0x00, 0x00, 0x80, 0x11, 0x39, 0xA6, 0x00, 0x00, 0x00, 0x00, 0xFF, 0xFF,
    0xFF, 0xFF, 0x00, 0x44, 0x00, 0x43, 0x01, 0x34, 0x41, 0xF8, 0x01, 0x01, 0x06, 0x00, 0x3E, 0x02,
    0x3E, 0x02, 0x00, 0x00, 0x00, 0x00, 0x00, 0x00, 0x00, 0x00, 0x00, 0x00, 0x00, 0x00, 0x00, 0x00,
    0x00, 0x00, 0x00, 0x00, 0x00, 0x00, 0xB0, 0xC4, 0x20, 0x00, 0x00, 0x00, 0x00, 0x00, 0x00, 0x00,
    0x00, 0x00, 0x00, 0x00, 0x00, 0x00, 0x00, 0x00, 0x00, 0x00, 0x00, 0x00, 0x00, 0x00, 0x00, 0x00,
    0x00, 0x00, 0x00, 0x00, 0x00, 0x00, 0x00, 0x00, 0x00, 0x00, 0x00, 0x00, 0x00, 0x00, 0x00, 0x00,
    0x00, 0x00, 0x00, 0x00, 0x00, 0x00, 0x00, 0x00, 0x00, 0x00, 0x00, 0x00, 0x00, 0x00, 0x00, 0x00,
    0x00, 0x00, 0x00, 0x00, 0x00, 0x00, 0x00, 0x00, 0x00, 0x00, 0x00, 0x00, 0x00, 0x00, 0x00, 0x00,
    0x00, 0x00, 0x00, 0x00, 0x00, 0x00, 0x00, 0x00, 0x00, 0x00, 0x00, 0x00, 0x00, 0x00, 0x00, 0x00,
    0x00, 0x00, 0x00, 0x00, 0x00, 0x00, 0x00, 0x00, 0x00, 0x00, 0x00, 0x00, 0x00, 0x00, 0x00, 0x00,
    0x00, 0x00, 0x00, 0x00, 0x00, 0x00, 0x00, 0x00, 0x00, 0x00, 0x00, 0x00, 0x00, 0x00, 0x00, 0x00,
    0x00, 0x00, 0x00, 0x00, 0x00, 0x00, 0x00, 0x00, 0x00, 0x00, 0x00, 0x00, 0x00, 0x00, 0x00, 0x00,
    0x00, 0x00, 0x00, 0x00, 0x00, 0x00, 0x00, 0x00, 0x00, 0x00, 0x00, 0x00, 0x00, 0x00, 0x00, 0x00,
    0x00, 0x00, 0x00, 0x00, 0x00, 0x00, 0x00, 0x00, 0x00, 0x00, 0x00, 0x00, 0x00, 0x00, 0x00, 0x00,
    0x00, 0x00, 0x00, 0x00, 0x00, 0x00, 0x00, 0x00, 0x00, 0x00, 0x00, 0x00, 0x00, 0x00, 0x00, 0x00,
    0x00, 0x00, 0x00, 0x00, 0x00, 0x00, 0x00, 0x00, 0x00, 0x00, 0x00, 0x00, 0x00, 0x00, 0x00, 0x00,
    0x00, 0x00, 0x00, 0x00, 0x00, 0x00, 0x63, 0x82, 0x53, 0x63, 0x35, 0x01, 0x01, 0x3D, 0x07, 0x01,
    0xB0, 0xC4, 0x20, 0x00, 0x00, 0x00, 0x32, 0x04, 0x0A, 0x00, 0x02, 0x0F, 0x0C, 0x07, 0x50, 0x31,
    0x42, 0x38, 0x43, 0x37, 0x00, 0x37, 0x08, 0x01, 0x03, 0x06, 0x0F, 0x2C, 0x2E, 0x2F, 0x39, 0xFF,
    0x00, 0x00, 0x00, 0x00, 0x00, 0x00, 0x00, 0x00, 0x00, 0x00, 0x00, 0x00, 0x00, 0x00, 0x00, 0x00,
    0x00, 0x00, 0x00, 0x00, 0x00, 0x00,
];

/// The message behind the headers of the three protocols below it.
fn dhcp_message() -> &'static [u8] {
    &DHCP_PACKET[42..]
}

#[test]
fn dhcp_message_is_received() {
    let mut server = DhcpServer::new();
    let response = server.update(dhcp_message());
    match &response {
        Ok(Some(answer)) => {
            // An offer of the server, for the same transaction.
            assert_eq!(answer.payload[0], 2);
            assert_eq!(answer.payload[4..8], dhcp_message()[4..8]);
            assert_eq!(answer.recipient, Recipient::Broadcast);
        }
        other => panic!("{other:?}"),
    }
    assert_eq!(server.packets_received(), 1);
}

#[test]
fn dhcp_addresses_are_kept() {
    let mut server = DhcpServer::new();
    let first = server.update(dhcp_message()).unwrap().unwrap();
    let second = server.update(dhcp_message()).unwrap().unwrap();
    assert_eq!(first.payload[16..20], second.payload[16..20]);
    let mut other = dhcp_message().to_vec();
    other[33] = 1;
    let third = server.update(&other).unwrap().unwrap();
    assert_ne!(first.payload[16..20], third.payload[16..20]);
    assert!(matches!(server.update(&[1, 2, 3]), Ok(None)));
    other[236] = 0;
    assert!(matches!(server.update(&other), Err(DhcpError::Malformed)));
}

#[test]
fn dhcp_requests_get_the_address_they_ask_for() {
    let mut request = dhcp_message().to_vec();
    let kind = (240..request.len() - 2).find(|&i| request[i..i + 3] == [0x35, 1, 1]).unwrap();
    request[kind + 2] = 3;
    let mut server = DhcpServer::new();
    let answer = server.update(&request).unwrap().unwrap();
    assert_eq!(answer.payload[16..20], [10, 0, 2, 15]);
    // Without the option an address is allocated; the zeros in its place are padding.
    let end = request.iter().rposition(|&b| b == 0xff).unwrap();
    let asked = (240..end).find(|&i| request[i..i + 2] == [0x32, 4]).unwrap();
    let mut padded = request.clone();
    padded[asked..asked + 6].fill(0);
    let allocated = server.update(&padded).unwrap().unwrap();
    assert_eq!(allocated.payload[16..20], [10, 0, 37, 15]);
}

fn ip_packet(dst: [u8; 4], protocol: u8, payload: &[u8]) -> Packet {
    let mut data = vec![0x52, 0x55, 0x0a, 0, 0, 2, 0xb0, 0xc4, 0x20, 0, 0, 0, 8, 0];
    let len = 20 + payload.len() as u16;
    data.extend([0x45, 0, (len >> 8) as u8, len as u8, 0, 0, 0, 0, 64, protocol, 0, 0]);
    data.extend([10, 0, 2, 15]);
    data.extend(dst);
    data.extend(payload);
    Packet::new(data)
}

fn tcp_header(flags: u8) -> Vec<u8> {
    let mut tcp = vec![0x04, 0x00, 0x00, 0x50];
    tcp.extend([0; 8]);
    tcp.extend([0x50, flags, 0, 0, 0, 0, 0, 0]);
    tcp
}

#[test]
fn new_connections_need_sockets() {
    let far = [93, 184, 216, 34];
    match inspect_packet_for_nat(&ip_packet(far, 6, &tcp_header(0x02))) {
        Some(NatAction::EnsureTcp(ids)) => {
            assert_eq!((ids.local.port, ids.remote.port), (0x400, 0x50));
        }
        other => panic!("{other:?}"),
    }
    let answered = inspect_packet_for_nat(&ip_packet(far, 6, &tcp_header(0x12)));
    assert!(matches!(answered, Some(NatAction::Ignore)));
    let udp = [0x04, 0x00, 0x00, 0x35, 0, 8, 0, 0];
    match inspect_packet_for_nat(&ip_packet(far, 17, &udp)) {
        Some(NatAction::EnsureUdp(ids)) => assert_eq!(ids.remote.port, 0x35),
        other => panic!("{other:?}"),
    }
    let near = inspect_packet_for_nat(&ip_packet([10, 0, 37, 2], 6, &tcp_header(0x02)));
    assert!(matches!(near, Some(NatAction::Ignore)));
}

#[test]
fn packets_are_padded() {
    let mut p = Packet::new(vec![1, 2, 3]);
    p.pad_to_60();
    assert_eq!(p.data().len(), 60);
    assert_eq!(&p.data()[..4], &[1, 2, 3, 0]);
    assert!(forwards(&Packet::new(DHCP_PACKET.to_vec())));
}

#[test]
fn transfers_go_on_while_bytes_move() {
    assert_eq!(transfer_step(TransferOutcome::WouldBlock), TransferStep::Wait);
    assert_eq!(transfer_step(TransferOutcome::Failed), TransferStep::Close);
    let plan = tcp_plan(TcpEvent {
        error: true,
        was_ready: false,
        connected: false,
        in_progress: false,
        writable: false,
        readable: false,
    });
    assert!(plan.abort || plan.close);
}

#[test]
fn numbers_become_decimal_digits() {
    let n: u8 = 59;
    let r: u8 = n.to_bcd();
    assert_eq!(r, 0x59);
}

#[test]
fn log_lines_end() {
    let mut log = Logger::new();
    for b in b"hello" {
        assert!(log.write(*b).is_none());
    }
    assert_eq!(log.write(0x0a), Some(b"hello".to_vec()));
    for _ in 0..80 {
        assert!(log.write(b'x').is_none());
    }
    assert_eq!(log.write(b'y').map(|l| l.len()), Some(80));
}

#[test]
fn bits_are_found() {
    let mut set = Bitset::new();
    assert_eq!(set.highest_index_set(), None);
    set.set(3);
    set.set(200);
    assert_eq!(set.highest_index_set(), Some(200));
    set.reset(200);
    assert!(set.get(3) && !set.get(200));
    assert_eq!(set.highest_index_set(), Some(3));
}

#[test]
fn redirection_entries_keep_their_bits() {
    for v in [0u64, 0x0001_0000, 0xff00_0000_0000_a955, 0x1234_5678_9abc_def0] {
        assert_eq!(RedirectionEntry::from_value(v).value(), v);
    }
    assert_eq!(RedirectionEntry::from_value(0x1_0020).vector, 0x20);
}

#[test]
fn local_interrupts_are_delivered_by_priority() {
    let mut intr = Intr::new();
    let mut core = LocalApicCore::new(intr.handle());
    core.raise_interrupt(0x31, TriggerMode::EdgeSensitive, &mut intr);
    core.raise_interrupt(0x52, TriggerMode::EdgeSensitive, &mut intr);
    assert!(intr.any_pending());
    assert_eq!(core.next_pending_interrupt(&mut intr), Some(0x52));
    // The other one has a lower priority and waits.
    assert_eq!(core.next_pending_interrupt(&mut intr), None);
    core.write_eoi(&mut intr);
    assert_eq!(core.next_pending_interrupt(&mut intr), Some(0x31));
    core.write_eoi(&mut intr);
    assert!(!intr.any_pending());
}

#[test]
fn requests_are_counted() {
    let mut intr = Intr::new();
    let handle = intr.handle();
    let a = handle.request(&mut intr);
    let b = handle.request(&mut intr);
    a.release(&mut intr);
    assert!(intr.any_pending());
    b.release(&mut intr);
    assert!(!intr.any_pending() && !handle.any_pending(&intr));
    let irq = IrqSystem::new(intr);
    assert!(!irq.intr.any_pending());
}

#[test]
fn handles_share_their_pin() {
    let mut intr = Intr::new();
    let first = intr.handle();
    let held = first.request(&mut intr);
    // A handle that is made later sees the request, and changes nothing.
    let second = intr.handle();
    assert!(intr.any_pending() && second.any_pending(&intr));
    held.release(&mut intr);
    assert!(!first.any_pending(&intr) && !intr.any_pending());
}

#[test]
fn closed_pins_do_not_count() {
    let mut intr = Intr::new();
    let handle = intr.handle();
    let before = handle.request(&mut intr);
    intr.close();
    assert!(intr.any_pending() && !handle.any_pending(&intr));
    let after = handle.request(&mut intr);
    after.release(&mut intr);
    before.release(&mut intr);
    assert!(intr.any_pending());
}

#[test]
fn ports_have_widths() {
    assert_eq!(from_u32(0x1234_5678, 2, PortWidth::Byte), 0x34);
    assert_eq!(from_u32(0x1234_5678, 2, PortWidth::Word), 0x1234);
    assert_eq!(from_u8(7, PortWidth::Byte), Ok(7));
    assert_eq!(from_u8(7, PortWidth::Word), Err(PortError::UnsupportedWidth));
    let v = PortValue { width: PortWidth::Byte, value: 0xab };
    assert_eq!(blend_into_u32(v, 1, 0x1111_1111), 0x1111_ab11);
}

#[test]
fn ports_belong_to_devices() {
    assert_eq!(find_read_target(0x71), PortTarget::CmosData);
    assert_eq!(find_write_target(0x70), PortTarget::CmosIndex);
}

const REFUSED: Result<u32, PortError> = Err(PortError::UnsupportedWidth);

#[test]
fn wide_reads_fall_back_to_bytes() {
    let mut r = WideRead::new(0x60, PortWidth::Dword);
    assert_eq!(r.step(REFUSED), ReadAction::Read { port: 0x60, width: PortWidth::Word });
    assert_eq!(r.step(REFUSED), ReadAction::Read { port: 0x60, width: PortWidth::Byte });
    assert_eq!(r.step(Ok(0x11)), ReadAction::Read { port: 0x61, width: PortWidth::Byte });
    assert_eq!(r.step(Ok(0x22)), ReadAction::Read { port: 0x62, width: PortWidth::Byte });
    assert_eq!(r.step(Ok(0x33)), ReadAction::Read { port: 0x63, width: PortWidth::Byte });
    assert_eq!(r.step(Ok(0x44)), ReadAction::Done(0x4433_2211));

    let mut words = WideRead::new(0x60, PortWidth::Dword);
    assert_eq!(words.step(REFUSED), ReadAction::Read { port: 0x60, width: PortWidth::Word });
    assert_eq!(words.step(Ok(0x2211)), ReadAction::Read { port: 0x61, width: PortWidth::Word });
    assert_eq!(words.step(Ok(0x4433)), ReadAction::Done(0x4433_2211));

    let mut byte = WideRead::new(0x60, PortWidth::Byte);
    assert_eq!(byte.step(REFUSED), ReadAction::Fail);

    // The last port is read at once.
    let mut last = WideRead::new(0xffff, PortWidth::Dword);
    assert_eq!(last.step(Ok(0x1234_5678)), ReadAction::Done(0x1234_5678));
}

#[test]
fn wide_writes_fall_back_to_bytes() {
    let part = |port, width, value| WriteAction::Write { port, val: PortValue { width, value } };
    let mut w = WideWrite::new(0x60, PortValue { width: PortWidth::Dword, value: 0x4433_2211 });
    assert_eq!(w.step(false), part(0x60, PortWidth::Word, 0x2211));
    assert_eq!(w.step(true), part(0x61, PortWidth::Word, 0x4433));
    assert_eq!(w.step(false), part(0x61, PortWidth::Byte, 0x33));
    assert_eq!(w.step(true), part(0x62, PortWidth::Byte, 0x44));
    assert_eq!(w.step(true), WriteAction::Done);
    let mut last = WideWrite::new(0xffff, PortValue { width: PortWidth::Word, value: 0x1234 });
    assert_eq!(last.step(true), WriteAction::Done);
    let mut fail = WideWrite::new(0x60, PortValue { width: PortWidth::Byte, value: 1 });
    assert_eq!(fail.step(false), WriteAction::Fail);
}

#[test]
fn disks_are_read_back() {
    let mut disk = DiskData::from_mem(vec![0; 1024]);
    disk.write_slice(510, &[1, 2, 3]);
    assert_eq!(disk.read_slice(509, 514), vec![0, 1, 2, 3, 0]);
    assert_eq!(disk.len(), 1024);
    let copy = DiskData::from_snapshot(disk.snapshot());
    assert_eq!(copy.read_slice(510, 513), vec![1, 2, 3]);
    assert!(DiskData::cd(vec![0; 2048]).is_cd());
}

#[test]
fn memory_has_an_end() {
    let mut mem = Memory::new(4);
    assert_eq!(mem.write_slice(2, &[1, 2, 3]), Err(OutOfRange { addr: 2 }));
    assert_eq!(mem.write_slice(2, &[1, 2]), Ok(()));
    assert_eq!(mem.read_slice(1, 3), Ok(vec![0, 1, 2]));
    assert_eq!(mem.read_slice(2, 3), Err(OutOfRange { addr: 2 }));
}

#[test]
fn dma_registers_take_two_bytes() {
    let mut r = Reg16::new(0);
    r.write(0x34);
    r.write(0x12);
    assert_eq!(r.value, 0x1234);
    assert_eq!((r.read(), r.read()), (0x34, 0x12));
    let mut dma = Dma::new();
    dma.write_count(2, 0xff);
    dma.write_count(2, 0x01);
    dma.write_address(2, 0x00);
    dma.write_address(2, 0x20);
    dma.write_page_addr_reg(1, 3);
    assert_eq!(dma.fdd.len, 0x1ff);
    assert_eq!(dma.fdd.addr % 0x1_0000, 0x2000);
}

#[test]
fn mouse_starts_silent() {
    let mouse = UartMouse::new();
    assert!(!mouse.data_remaining());
}

#[test]
fn addresses_go_to_the_next_sector() {
    let g = Geometry { head_count: 16, sector_size: 512, sectors_per_track: 63 };
    assert_eq!(BlockAddr::Lba(7).as_byte_offset(&g), 7 * 512);
    assert_eq!(BlockAddr::Lba(7).next_sector(&g), BlockAddr::Lba(8));
    let chs = BlockAddr::Chs { cylinder: 1, head: 2, sector: 3 };
    assert_eq!(chs.as_byte_offset(&g), ((16 + 2) * 63 + 2) * 512);
}

#[test]
fn packets_are_parsed() {
    let mut bytes = [0u8; 12];
    bytes[0] = 0x28;
    bytes[5] = 9;
    bytes[8] = 2;
    match AtapiPacket::parse(&bytes) {
        Ok(AtapiPacket::Read { lba, transfer_length }) => assert_eq!((lba, transfer_length), (9, 2)),
        other => panic!("{other:?}"),
    }
    bytes[0] = 0xff;
    assert!(matches!(AtapiPacket::parse(&bytes), Err(AtapiError::IllegalOpcode)));
}

#[test]
fn contents_announce_their_length() {
    for format in 0..3 {
        let toc = compute_simple_toc(false, format, 1, 1000).unwrap();
        assert_eq!(toc.len(), 2 + toc[0] as usize * 256 + toc[1] as usize);
    }
    assert_eq!(compute_simple_toc(false, 0, 5, 1000), Err("invalid start track"));
}

#[test]
fn pci_addresses_have_fields() {
    let a = Address { value: 0x8000_1A3C };
    assert_eq!((a.device_number(), a.function_number()), (3, 2));
    let mut bar = Bar::new(0x1800, true);
    assert_eq!(bar.len_rounded_up_to_page_bound(), 0x2000);
    let remap = bar.enable_and_set_addr(0xE000_0000);
    assert!(remap.unmap.is_none() && remap.map.is_some());
}

fn machine() -> Hw {
    Hw::new(Intr::new(), vec![DiskData::from_mem(vec![0; 720 * 1024])], 0x100_0000)
}

fn now() -> RtcTime {
    RtcTime {
        year: 2024,
        month: 12,
        days_in_month: 31,
        weekday: 3,
        hour: 23,
        minute: 59,
        second: 58,
        millisecond: 0,
    }
}

fn write(hw: &mut Hw, mem: &mut Memory, port: u16, width: PortWidth, value: u32) {
    let val = PortValue { width, value };
    assert!(hw.write_port(port, val, 0, mem, None, false).is_ok());
}

fn read(hw: &mut Hw, port: u16, width: PortWidth) -> u32 {
    match hw.read_port(port, width, now(), 0, None, false) {
        Ok(PortReply::Value(v)) => v,
        other => panic!("{other:?}"),
    }
}

#[test]
fn clock_is_read_through_ports() {
    let mut hw = machine();
    let mut mem = Memory::new(0x1000);
    write(&mut hw, &mut mem, 0x70, PortWidth::Byte, 0);
    assert_eq!(read(&mut hw, 0x71, PortWidth::Byte), 0x58);
    write(&mut hw, &mut mem, 0x70, PortWidth::Byte, 4);
    assert_eq!(read(&mut hw, 0x71, PortWidth::Byte), 0x23);
}

#[test]
fn pci_functions_answer() {
    let mut hw = machine();
    let mut mem = Memory::new(0x1000);
    write(&mut hw, &mut mem, 0xcf8, PortWidth::Dword, 0x8000_0000);
    let id = read(&mut hw, 0xcfc, PortWidth::Dword);
    assert_eq!(id & 0xffff, 0x8086);
    assert_eq!(read(&mut hw, 0xcfe, PortWidth::Word), id >> 16);
    write(&mut hw, &mut mem, 0xcf8, PortWidth::Dword, 0x8000_f800);
    assert_eq!(read(&mut hw, 0xcfc, PortWidth::Dword), 0xffff_ffff);
}

#[test]
fn machines_start_fresh() {
    let hw = machine();
    assert_eq!(hw.vector_offsets(), (0x08, 0x70));
    assert_eq!(hw.cmos.phys_mem_size, 0x100_0000);
    let floppy = hw.fdc.disks[0].data.as_ref().unwrap();
    assert_eq!(floppy.len(), 720 * 1024);
    assert!(hw.fdc.disks[1].data.is_none());
    assert!(hw.space.ide.primary.drives.0.is_none());
    assert_eq!(hw.space.ide.primary.inner.regs.drive_and_head.value, 0x40);
    assert_eq!(hw.pci.read_address(), 0);
    assert!(!hw.space.ne2k.rx_irq_enabled);
    assert_eq!((hw.space.acpi.pm_base, hw.space.isa_bridge.serr_enable), (0xB000, true));
}

#[test]
fn machines_without_disks_have_an_empty_one() {
    let hw = Hw::new(Intr::new(), vec![], 0x100_0000);
    assert_eq!(hw.fdc.disks[0].data.as_ref().unwrap().len(), 0);
}

#[test]
fn other_devices_take_bytes() {
    let mut hw = machine();
    let mut mem = Memory::new(0x1000);
    let mut write = |port, width, value| {
        hw.write_port(port, PortValue { width, value }, 0, &mut mem, None, false).map(|o| o.external)
    };
    for port in [0x40, 0x43, 0x60, 0x61, 0x62, 0x64, 0x92, 0x300, 0x3c4, 0x3d4, 0x3f8] {
        assert_eq!(write(port, PortWidth::Byte, 1), Ok(true));
        assert_eq!(write(port, PortWidth::Word, 1), Err(PortError::UnsupportedWidth));
        assert_eq!(write(port, PortWidth::Dword, 1), Err(PortError::UnsupportedWidth));
    }
    assert_eq!(write(0x1ce, PortWidth::Word, 1), Ok(true));
    let mut hw = machine();
    let mut read = |port, width| hw.read_port(port, width, now(), 0, None, false);
    assert_eq!(read(0x3c4, PortWidth::Byte), Ok(PortReply::External));
    assert_eq!(read(0x3c4, PortWidth::Word), Err(PortError::UnsupportedWidth));
    assert_eq!(read(0x1cf, PortWidth::Word), Ok(PortReply::External));
}

#[test]
fn disconnected_network_cards_leave_other_ports_usable() {
    let mut hw = machine();
    let mut mem = Memory::new(0x1000);
    let line = |hw: &Hw| {
        DualDynamicIrqLine::can_be_pulsed(&hw.irq, hw.space.ne2k.pci_header.interrupt_line)
    };
    assert!(line(&hw));
    write(&mut hw, &mut mem, 0xcf8, PortWidth::Dword, 0x8000_2000);
    assert_eq!(read(&mut hw, 0xcfc, PortWidth::Dword), 0x8029_10ec);
    write(&mut hw, &mut mem, 0xcf8, PortWidth::Dword, 0x8000_203c);
    write(&mut hw, &mut mem, 0xcfc, PortWidth::Byte, 0xff);
    assert!(!line(&hw));
    write(&mut hw, &mut mem, 0x70, PortWidth::Byte, 0);
    assert_eq!(read(&mut hw, 0x71, PortWidth::Byte), 0x58);
    hw.set_disk(0, 0, Some(DiskData::from_mem(vec![0; 512])));
    assert!(hw.fdc.irq.can_be_pulsed(&hw.irq));
    write(&mut hw, &mut mem, 0xcf8, PortWidth::Dword, 0x8000_203c);
    write(&mut hw, &mut mem, 0xcfc, PortWidth::Byte, 11);
    assert!(line(&hw));
}

#[test]
fn restored_clocks_stop_their_timer() {
    let mut hw = machine();
    let mut mem = Memory::new(0x1000);
    let quiet = hw.snapshot();
    write(&mut hw, &mut mem, 0x70, PortWidth::Byte, 0xb);
    write(&mut hw, &mut mem, 0x71, PortWidth::Byte, 0x42);
    let ticking = hw.snapshot();
    assert_eq!(hw.cmos.timer_info.unwrap().interrupt_rate_hz, 1024);
    assert!(hw.restore(quiet, 5).is_none());
    assert!(hw.cmos.timer_info.is_none());
    let timer = hw.restore(ticking, 6).unwrap();
    assert_eq!((timer.next_interrupt, timer.info.interrupt_rate_hz), (6, 1024));
    assert_eq!(hw.cmos.timers_started, 2);
}

#[test]
fn movable_ports_are_found() {
    let hw = machine();
    assert_eq!(hw.find_movable_device(0x1f0, true), MovableDevice::Disk);
    assert_eq!(hw.find_movable_device(0xb008, true), MovableDevice::PowerManagement);
    assert_eq!(hw.find_movable_device(0xd000, true), MovableDevice::Sound);
    assert_eq!(hw.find_movable_device(0xd000, false), MovableDevice::Nothing);
    assert_eq!(hw.find_movable_device(0x0010, false), MovableDevice::Network);
}

#[test]
fn disks_are_put_into_the_named_drive() {
    let mut hw = machine();
    hw.set_disk(1, 0, Some(DiskData::from_mem(vec![0; 512])));
    assert!(hw.space.ide.secondary.drives.0.is_some() && hw.space.ide.secondary.drives.1.is_none());
    assert!(hw.space.ide.primary.drives.0.is_none() && hw.space.ide.primary.drives.1.is_none());
    hw.set_disk(1, 0, None);
    assert!(hw.space.ide.secondary.drives.0.is_none());
}

#[test]
fn disks_identify_themselves() {
    let mut hw = machine();
    let mut mem = Memory::new(0x1000);
    hw.set_disk(0, 0, Some(DiskData::from_mem(vec![0; 16 * 63 * 512 * 4])));
    write(&mut hw, &mut mem, 0x1f6, PortWidth::Byte, 0xa0);
    write(&mut hw, &mut mem, 0x1f7, PortWidth::Byte, 0xec);
    assert_eq!(read(&mut hw, 0x3f6, PortWidth::Byte) & 0x08, 0x08);
    let words: Vec<u32> = (0..256).map(|_| read(&mut hw, 0x1f0, PortWidth::Word)).collect();
    assert_eq!(words[3], 16);
    assert_eq!(words[6], 63);
    assert_eq!(read(&mut hw, 0x3f6, PortWidth::Byte) & 0x08, 0);
}

#[test]
fn floppy_controller_answers() {
    let mut hw = machine();
    let mut mem = Memory::new(0x1000);
    write(&mut hw, &mut mem, 0x3f5, PortWidth::Byte, 0x0f);
    write(&mut hw, &mut mem, 0x3f5, PortWidth::Byte, 0x00);
    write(&mut hw, &mut mem, 0x3f5, PortWidth::Byte, 0x05);
    write(&mut hw, &mut mem, 0x3f5, PortWidth::Byte, 0x08);
    // The seek has ended on the cylinder that was asked for.
    assert_eq!(read(&mut hw, 0x3f5, PortWidth::Byte), 0x20);
    assert_eq!(read(&mut hw, 0x3f5, PortWidth::Byte), 0x05);
}

#[test]
fn interrupts_come_from_devices() {
    let mut hw = machine();
    let mut mem = Memory::new(0x1000);
    assert_eq!(hw.vector_offsets(), (0x08, 0x70));
    assert_eq!(hw.check_interrupt(), None);
    // Leaving reset raises the interrupt of the floppy controller.
    write(&mut hw, &mut mem, 0x3f2, PortWidth::Byte, 0x0c);
    assert_eq!(hw.check_interrupt(), Some(0x0e));
    assert_eq!(hw.check_interrupt(), None);
}

#[test]
fn hardware_snapshots_come_back() {
    let mut hw = machine();
    let mut mem = Memory::new(0x1000);
    write(&mut hw, &mut mem, 0xcf8, PortWidth::Dword, 0x8000_0800);
    write(&mut hw, &mut mem, 0x70, PortWidth::Byte, 0x33);
    let snapshot = hw.snapshot();
    write(&mut hw, &mut mem, 0xcf8, PortWidth::Dword, 0);
    write(&mut hw, &mut mem, 0x70, PortWidth::Byte, 0);
    assert!(hw.restore(snapshot, 0).is_none());
    assert_eq!(read(&mut hw, 0xcf8, PortWidth::Dword), 0x8000_0800);
    assert_eq!(hw.cmos.selected_reg, 0x33);
}
