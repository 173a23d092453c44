//! What the commands of a channel move between disks, the data register and memory.
use vstd::prelude::*;

use crate::bytes::overwrite;
use crate::hw::ide::atapi::{packet_of, AtapiPacket};
use crate::hw::ide::channel::Channel;
use crate::hw::ide::drive::{BlockAddr, DriveModel};
use crate::hw::ide::model::{
    buffer_value, capacity_data, prd_at, scattered, IdeWorld, PendingDma,
};
use crate::hw::ide::regs::{ChannelRegs, Error, Status};
use crate::hw::ports::{PortError, PortValue, PortWidth};

verus! {

/// The drive that bit 4 of the drive/head register selects.
pub open spec fn chosen(w: IdeWorld) -> Option<DriveModel> {
    if w.regs.drive_and_head.value / 0x10 % 2 == 1 {
        w.second
    } else {
        w.first
    }
}

/// The number of the first sector of a command. Bit 6 of the drive/head register tells whether the
/// address registers hold it as a number of 28 bits, or as sector, cylinder and head, the sectors
/// of a track being numbered from 1.
pub open spec fn first_sector(w: IdeWorld) -> int {
    let r = w.regs;
    let high = r.drive_and_head.value as int % 16;
    if r.drive_and_head.value / 0x40 % 2 == 1 {
        r.block_addr0 + 0x100 * r.block_addr1 + 0x1_0000 * r.block_addr2 + 0x100_0000 * high
    } else {
        let g = chosen(w).unwrap().geometry;
        ((r.block_addr1 + 0x100 * r.block_addr2) * g.head_count + high) * g.sectors_per_track
            + r.block_addr0 - 1
    }
}

/// The number of sectors of a command: the value of the sector count register, or 256 for 0.
pub open spec fn sectors_asked(w: IdeWorld) -> int {
    if w.regs.sector_count == 0 {
        256
    } else {
        w.regs.sector_count as int
    }
}

/// A hard disk with sectors of 512 bytes is selected, and the address names a sector.
pub open spec fn addresses_hard_disk(w: IdeWorld) -> bool {
    &&& chosen(w) matches Some(d) && !d.data.is_cd && d.geometry.sector_size == 512
    &&& w.regs.drive_and_head.value / 0x40 % 2 == 1 || w.regs.block_addr0 >= 1
}

/// The sectors of the command lie on the disk.
pub open spec fn sectors_exist(w: IdeWorld) -> bool {
    512 * first_sector(w) + 512 * sectors_asked(w) <= chosen(w).unwrap().data.bytes.len()
}

/// The command register was written.
pub open spec fn commanded(w: IdeWorld, command: u8) -> IdeWorld {
    w.written(7, PortValue { width: PortWidth::Byte, value: command as u32 })
}

/// The interrupt of the channel came, unless it is disabled.
pub open spec fn interrupted(w: IdeWorld, after: IdeWorld) -> bool {
    &&& after.regs.busmaster_status.interrupt_ready
    &&& after.irq == (if w.regs.device_control.interrupt_disabled {
        w.irq
    } else {
        w.line.pulsed(w.irq)
    })
}

/// The registers that name the sectors are as they were.
pub open spec fn same_address(w: IdeWorld, after: IdeWorld) -> bool {
    &&& after.regs.block_addr0 == w.regs.block_addr0
    &&& after.regs.block_addr1 == w.regs.block_addr1
    &&& after.regs.block_addr2 == w.regs.block_addr2
    &&& after.regs.drive_and_head == w.regs.drive_and_head
    &&& after.regs.sector_count == w.regs.sector_count
}

proof fn lemma_command(w: IdeWorld)
    requires
        chosen(w).is_some(),
    ensures
        ({
            let s = w.with_regs(w.regs.command_started());
            &&& w.drive() == chosen(w)
            &&& s.drive() == chosen(w)
            &&& s.cd() == chosen(w).unwrap().data.is_cd
            &&& s.regs.sector_total() == sectors_asked(w)
            &&& addresses_hard_disk(w) ==> {
                &&& s.command_start() == 512 * first_sector(w)
                &&& s.command_len() == 512 * sectors_asked(w)
                &&& s.command_in_range() == sectors_exist(w)
                &&& first_sector(w) >= 0
            }
        }),
{
    reveal(ChannelRegs::command_started);
    let s = w.with_regs(w.regs.command_started());
    assert(s.drive() == chosen(w));
    if addresses_hard_disk(w) {
        let g = chosen(w).unwrap().geometry;
        let r = w.regs;
        let high: int = r.drive_and_head.value as int % 16;
        let cylinder: int = r.block_addr1 + 0x100 * r.block_addr2;
        assert(s.regs.block_addr().sector_index(g) == first_sector(w));
        let (h, t): (int, int) = (g.head_count as int, g.sectors_per_track as int);
        assert((cylinder * h + high) * t >= 0) by (nonlinear_arith)
            requires
                cylinder >= 0,
                h >= 0,
                high >= 0,
                t >= 0,
        ;
    }
}

/// Which commands do what.
proof fn lemma_dispatch(w: IdeWorld, command: u8)
    requires
        chosen(w).is_some(),
    ensures
        ({
            let s = w.with_regs(w.regs.command_started());
            let after = commanded(w, command);
            &&& command == 0x20 || command == 0xC4 ==> after == s.sectors_read(true)
            &&& command == 0x40 ==> after == s.sectors_read(false)
            &&& command == 0x30 || command == 0xC5 ==> after == s.with_regs(
                s.regs.awaiting_sectors(),
            )
            &&& command == 0x25 || command == 0xC8 || command == 0xC9 ==> after == s.dma_requested(
                false,
            )
            &&& command == 0x35 || command == 0xCA || command == 0xCB ==> after == s.dma_requested(
                true,
            )
        }),
{
    reveal(IdeWorld::command_done);
    let val = PortValue { width: PortWidth::Byte, value: command as u32 };
    assert(val.low8() == command);
    assert(w.drive() == chosen(w));
    assert(commanded(w, command) == w.command_done(command));
}

/// A read command puts exactly the sectors that it asks for into the buffer, from the start of the
/// first to the end of the last one. Disks and memory stay as they are, data can be read, and the
/// interrupt comes.
pub proof fn read_commands_fetch_all_sectors(w: IdeWorld, command: u8)
    requires
        command == 0x20 || command == 0xC4,
        addresses_hard_disk(w),
        sectors_exist(w),
    ensures
        ({
            let after = commanded(w, command);
            let disk = chosen(w).unwrap().data.bytes;
            &&& after.buffer.len() == 512 * sectors_asked(w)
            &&& forall|i: int|
                0 <= i < after.buffer.len() ==> #[trigger] after.buffer[i] == disk[512
                    * first_sector(w) + i]
            &&& after.first == w.first && after.second == w.second && after.mem == w.mem
            &&& after.dma == w.dma
            &&& same_address(w, after)
            &&& after.regs.status.ready_to_transmit && !after.regs.status.err
            &&& after.regs.status.drive_seek_complete
            &&& after.regs.error == Error::none_spec()
            &&& interrupted(w, after)
        }),
{
    lemma_command(w);
    lemma_dispatch(w, command);
    reveal(IdeWorld::raised);
    reveal(ChannelRegs::command_started);
    reveal(ChannelRegs::sectors_read);
    reveal(ChannelRegs::interrupting);
}

/// A verify command reads nothing into the buffer.
pub proof fn verify_commands_fetch_nothing(w: IdeWorld)
    requires
        addresses_hard_disk(w),
        sectors_exist(w),
    ensures
        ({
            let after = commanded(w, 0x40);
            &&& after.buffer == w.buffer
            &&& after.first == w.first && after.second == w.second && after.mem == w.mem
            &&& !after.regs.status.err
            &&& interrupted(w, after)
        }),
{
    lemma_command(w);
    lemma_dispatch(w, 0x40);
    reveal(IdeWorld::raised);
    reveal(ChannelRegs::command_started);
    reveal(ChannelRegs::sectors_read);
    reveal(ChannelRegs::interrupting);
}

/// A command on sectors that do not all exist moves nothing and reports that the address was not
/// found.
pub proof fn sectors_out_of_range_are_refused(w: IdeWorld, command: u8)
    requires
        command == 0x20 || command == 0xC4 || command == 0x40 || command == 0x25 || command == 0xC8
            || command == 0xC9 || command == 0x35 || command == 0xCA || command == 0xCB,
        addresses_hard_disk(w),
        !sectors_exist(w),
    ensures
        ({
            let after = commanded(w, command);
            &&& after.buffer == w.buffer && after.dma == w.dma
            &&& after.first == w.first && after.second == w.second && after.mem == w.mem
            &&& after.regs.status.err
            &&& after.regs.error == (Error { address_mark_not_found: true, ..Error::none_spec() })
        }),
{
    lemma_command(w);
    lemma_dispatch(w, command);
    reveal(IdeWorld::raised);
    reveal(ChannelRegs::command_started);
    reveal(ChannelRegs::out_of_range);
    reveal(ChannelRegs::interrupting);
}

/// A write command waits for as many sectors as it announces, and changes nothing else.
pub proof fn write_commands_await_all_sectors(w: IdeWorld, command: u8)
    requires
        command == 0x30 || command == 0xC5,
        chosen(w).is_some(),
    ensures
        ({
            let after = commanded(w, command);
            &&& after.regs.num_pending_sector_writes == sectors_asked(w)
            &&& after.buffer == w.buffer && after.dma == w.dma && after.irq == w.irq
            &&& after.first == w.first && after.second == w.second && after.mem == w.mem
            &&& same_address(w, after)
            &&& after.regs.status.ready_to_transmit && !after.regs.status.err
        }),
{
    lemma_command(w);
    lemma_dispatch(w, command);
    reveal(ChannelRegs::command_started);
    reveal(ChannelRegs::awaiting_sectors);
}

/// The disk in use after a sector was written: its bytes hold the sector, and all others are as
/// they were.
pub open spec fn holds_sector(before: DriveModel, after: DriveModel, sector: int, data: Seq<u8>) -> bool {
    &&& after.data.bytes.len() == before.data.bytes.len()
    &&& after.data.is_cd == before.data.is_cd && after.geometry == before.geometry
    &&& after.head == before.head && after.write_in_progress == before.write_in_progress
    &&& forall|i: int|
        0 <= i < before.data.bytes.len() ==> #[trigger] after.data.bytes[i] == (if 512 * sector <= i
            < 512 * sector + 512 {
            data[i - 512 * sector]
        } else {
            before.data.bytes[i]
        })
}

/// While sectors are awaited, bytes that are written to the data register are collected. The 512th
/// completes a sector, which is written to the disk at the address; the linear address moves on to
/// the next sector, and one sector fewer is awaited. The other drive stays as it is.
pub proof fn written_sectors_are_on_the_disk(w: IdeWorld, val: PortValue)
    requires
        w.regs.num_pending_sector_writes > 0,
        addresses_hard_disk(w),
        w.data_ok(val),
    ensures
        ({
            let after = w.written(0, val);
            let collected = w.buffer + val.bytes();
            &&& after.mem == w.mem && after.dma == w.dma
            &&& collected.len() != 512 ==> after == w.with_buffer(collected)
            &&& collected.len() == 512 ==> {
                &&& after.buffer.len() == 0
                &&& after.regs.num_pending_sector_writes == w.regs.num_pending_sector_writes - 1
                &&& after.regs.status.ready_to_transmit == (w.regs.num_pending_sector_writes > 1)
                &&& !after.regs.status.err
                &&& chosen(after).is_some()
                &&& holds_sector(
                    chosen(w).unwrap(),
                    chosen(after).unwrap(),
                    first_sector(w),
                    collected,
                )
                &&& if w.regs.drive_and_head.value / 0x10 % 2 == 1 {
                    after.first == w.first
                } else {
                    after.second == w.second
                }
                &&& w.regs.drive_and_head.value / 0x40 % 2 == 1 ==> first_sector(after)
                    == first_sector(w) + 1
                &&& interrupted(w, after)
            }
        }),
{
    let collected = w.buffer + val.bytes();
    reveal(IdeWorld::data_written);
    reveal(IdeWorld::data_ok);
    if collected.len() == 512 {
        lemma_command(w);
        reveal(ChannelRegs::command_started);
        reveal(IdeWorld::sector_written);
        reveal(IdeWorld::raised);
        reveal(ChannelRegs::sector_moved);
        reveal(ChannelRegs::sector_counted);
        reveal(ChannelRegs::interrupting);
        let v = w.with_buffer(collected);
        assert(v.drive() == chosen(w));
        let d = chosen(w).unwrap();
        let addr = w.regs.block_addr();
        assert(addr.byte_offset(d.geometry) == 512 * first_sector(w));
        let next = addr.next(d.geometry);
        crate::hw::ide::regs::lemma_head_bits(
            w.regs.drive_and_head.value as int,
            match next {
                BlockAddr::Lba(n) => n as int / 0x100_0000,
                BlockAddr::Chs { head, .. } => head as int,
            },
        );
        match next {
            BlockAddr::Lba(n) => {
                let a: int = n as int / 0x100;
                let b: int = n as int / 0x1_0000;
                assert(b == a / 0x100);
                assert(n as int / 0x100_0000 == b / 0x100);
            },
            _ => {},
        }
    }
}

/// A DMA command makes the sectors that it asks for wait for the bus master, in the direction of
/// the command.
pub proof fn dma_commands_name_all_sectors(w: IdeWorld, command: u8)
    requires
        command == 0x25 || command == 0xC8 || command == 0xC9 || command == 0x35 || command == 0xCA
            || command == 0xCB,
        addresses_hard_disk(w),
        sectors_exist(w),
        chosen(w).unwrap().data.bytes.len() <= u64::MAX,
    ensures
        ({
            let after = commanded(w, command);
            let start = (512 * first_sector(w)) as u64;
            let len = (512 * sectors_asked(w)) as u64;
            &&& after.dma == (if command == 0x25 || command == 0xC8 || command == 0xC9 {
                Some(PendingDma::Read { start, len })
            } else {
                Some(PendingDma::Write { start, len })
            })
            &&& after.first == w.first && after.second == w.second && after.mem == w.mem
            &&& after.buffer == w.buffer && after.irq == w.irq
            &&& !after.regs.status.err
            &&& same_address(w, after)
        }),
{
    lemma_command(w);
    lemma_dispatch(w, command);
    reveal(ChannelRegs::command_started);
}

/// Starting the bus master, by bit 0 of its command register, moves the bytes of a waiting read
/// from the disk to where the entry of the table in memory points: four bytes of address, two bytes
/// of length, and bit 7 of the last byte for the last entry. A length of 0 stands for 65536.
pub proof fn bus_master_reads_the_disk_into_memory(w: IdeWorld, start: u64, len: u64, i: int)
    requires
        chosen(w).is_some(),
        w.dma == Some(PendingDma::Read { start, len }),
        start + len <= chosen(w).unwrap().data.bytes.len(),
        w.regs.prd_addr + 8 <= w.mem.len(),
        w.mem[w.regs.prd_addr + 7] >= 0x80,
        0 < len,
        ({
            let table = w.regs.prd_addr as int;
            let size = w.mem[table + 4] + 0x100 * w.mem[table + 5];
            let addr = w.mem[table] + 0x100 * w.mem[table + 1] + 0x1_0000 * w.mem[table + 2]
                + 0x100_0000 * w.mem[table + 3];
            len <= (if size == 0 {
                0x1_0000
            } else {
                size
            }) && addr + len <= w.mem.len()
        }),
        0 <= i < w.mem.len(),
    ensures
        ({
            let after = w.busmaster_written(0, PortValue { width: PortWidth::Byte, value: 1 });
            let table = w.regs.prd_addr as int;
            let addr = w.mem[table] + 0x100 * w.mem[table + 1] + 0x1_0000 * w.mem[table + 2]
                + 0x100_0000 * w.mem[table + 3];
            &&& after.mem.len() == w.mem.len()
            &&& after.mem[i] == (if addr <= i < addr + len {
                chosen(w).unwrap().data.bytes[start + (i - addr)]
            } else {
                w.mem[i]
            })
            &&& after.dma.is_none()
            &&& after.first == w.first && after.second == w.second && after.buffer == w.buffer
            &&& !after.regs.status.err && !after.regs.status.ready_to_transmit
            &&& interrupted(w, after)
        }),
{
    reveal(IdeWorld::dma_done);
    reveal(IdeWorld::raised);
    reveal(ChannelRegs::transferred);
    reveal(ChannelRegs::interrupting);
    let table = w.regs.prd_addr as int;
    let s = w.mem.subrange(table, table + 8);
    let bytes = chosen(w).unwrap().data.bytes.subrange(start as int, start + len);
    assert(s[0] == w.mem[table] && s[1] == w.mem[table + 1] && s[2] == w.mem[table + 2] && s[3]
        == w.mem[table + 3] && s[7] == w.mem[table + 7]);
    assert(s.skip(4)[0] == w.mem[table + 4] && s.skip(4)[1] == w.mem[table + 5]);
    let prd = prd_at(w.mem, table);
    let n: int = crate::hw::ide::model::smaller(prd.computed_size_spec(), bytes.len() as int);
    assert(n == len);
    assert(bytes.take(n) =~= bytes);
    assert(prd.eot);
    assert(scattered(w.mem, table, bytes) == overwrite(w.mem, prd.addr as int, bytes));
    let v = w.with_dma_status(1);
    assert(v.drive() == chosen(w));
}

/// An entry of the table that is not the last one takes as many bytes as it has room for; the
/// following entry, eight bytes behind, takes the rest.
pub proof fn table_entries_are_used_in_order(mem: Seq<u8>, table: int, bytes: Seq<u8>)
    requires
        0 <= table,
        table + 8 <= mem.len(),
        mem[table + 7] < 0x80,
        0 < bytes.len(),
    ensures
        ({
            let size = mem[table + 4] + 0x100 * mem[table + 5];
            let room = if size == 0 {
                0x1_0000
            } else {
                size
            };
            let n = if room < bytes.len() {
                room
            } else {
                bytes.len() as int
            };
            let addr = mem[table] + 0x100 * mem[table + 1] + 0x1_0000 * mem[table + 2] + 0x100_0000
                * mem[table + 3];
            scattered(mem, table, bytes) == scattered(
                overwrite(mem, addr, bytes.take(n)),
                table + 8,
                bytes.skip(n),
            )
        }),
{
    let s = mem.subrange(table, table + 8);
    assert(s[0] == mem[table] && s[1] == mem[table + 1] && s[2] == mem[table + 2] && s[3]
        == mem[table + 3] && s[7] == mem[table + 7]);
    assert(s.skip(4)[0] == mem[table + 4] && s.skip(4)[1] == mem[table + 5]);
}

/// Starting the bus master takes the bytes of a waiting write from memory to the disk.
pub proof fn bus_master_writes_memory_to_the_disk(w: IdeWorld, start: u64, len: u64)
    requires
        chosen(w).is_some(),
        w.dma == Some(PendingDma::Write { start, len }),
        w.regs.prd_addr + 8 <= w.mem.len(),
        w.mem[w.regs.prd_addr + 7] >= 0x80,
        0 < len,
        start + len <= chosen(w).unwrap().data.bytes.len(),
        ({
            let table = w.regs.prd_addr as int;
            let size = w.mem[table + 4] + 0x100 * w.mem[table + 5];
            let addr = w.mem[table] + 0x100 * w.mem[table + 1] + 0x1_0000 * w.mem[table + 2]
                + 0x100_0000 * w.mem[table + 3];
            len == (if size == 0 {
                0x1_0000
            } else {
                size
            }) && addr + len <= w.mem.len()
        }),
    ensures
        ({
            let after = w.busmaster_written(0, PortValue { width: PortWidth::Byte, value: 1 });
            let table = w.regs.prd_addr as int;
            let addr = w.mem[table] + 0x100 * w.mem[table + 1] + 0x1_0000 * w.mem[table + 2]
                + 0x100_0000 * w.mem[table + 3];
            let before = chosen(w).unwrap().data.bytes;
            &&& chosen(after).is_some()
            &&& chosen(after).unwrap().data.bytes.len() == before.len()
            &&& forall|i: int|
                0 <= i < before.len() ==> #[trigger] chosen(after).unwrap().data.bytes[i] == (
                if start <= i < start + len {
                    w.mem[addr + (i - start)]
                } else {
                    before[i]
                })
            &&& after.mem == w.mem && after.dma.is_none() && after.buffer == w.buffer
            &&& if w.regs.drive_and_head.value / 0x10 % 2 == 1 {
                after.first == w.first
            } else {
                after.second == w.second
            }
            &&& interrupted(w, after)
        }),
{
    reveal(IdeWorld::dma_done);
    reveal(IdeWorld::raised);
    reveal(ChannelRegs::transferred);
    reveal(ChannelRegs::interrupting);
    let table = w.regs.prd_addr as int;
    let s = w.mem.subrange(table, table + 8);
    assert(s[0] == w.mem[table] && s[1] == w.mem[table + 1] && s[2] == w.mem[table + 2] && s[3]
        == w.mem[table + 3] && s[7] == w.mem[table + 7]);
    assert(s.skip(4)[0] == w.mem[table + 4] && s.skip(4)[1] == w.mem[table + 5]);
    let v = w.with_dma_status(1);
    assert(v.drive() == chosen(w));
}

/// The bus master leaves a transfer alone while bit 0 of its command register is not written.
pub proof fn bus_master_waits_for_its_start(w: IdeWorld, val: u8)
    requires
        val % 2 == 0,
    ensures
        ({
            let after = w.busmaster_written(0, PortValue { width: PortWidth::Byte, value: val as u32 });
            &&& after.mem == w.mem && after.first == w.first && after.second == w.second
            &&& after.dma == w.dma && after.buffer == w.buffer && after.irq == w.irq
        }),
{
    reveal(IdeWorld::dma_done);
}

/// The data register hands out the bytes of the buffer from its front, the first one the lowest
/// one, and all ones behind its end. Bytes that were read are gone, the others stay in order.
pub proof fn data_register_hands_out_the_buffer(w: IdeWorld)
    ensures
        w.buffer.len() >= 4 ==> {
            &&& buffer_value(w.buffer, 1) == w.buffer[0]
            &&& buffer_value(w.buffer, 2) == w.buffer[0] + 0x100 * w.buffer[1]
            &&& buffer_value(w.buffer, 4) == w.buffer[0] + 0x100 * w.buffer[1] + 0x1_0000
                * w.buffer[2] + 0x100_0000 * w.buffer[3]
        },
        w.buffer.len() == 0 ==> {
            &&& buffer_value(w.buffer, 1) == 0xff
            &&& buffer_value(w.buffer, 2) == 0xffff
            &&& buffer_value(w.buffer, 4) == 0xffff_ffff
        },
        forall|size: int|
            0 <= size <= w.buffer.len() ==> (#[trigger] w.data_read(size)).buffer == w.buffer.skip(
                size,
            ),
        forall|size: int|
            0 <= size ==> {
                let after = #[trigger] w.data_read(size);
                &&& after.first == w.first && after.second == w.second && after.mem == w.mem
                &&& after.dma == w.dma
                &&& after.regs.status.ready_to_transmit == (size < w.buffer.len()) || w.regs.reading_atapi_packet
            },
{
    reveal(IdeWorld::data_read);
    reveal(IdeWorld::raised);
    reveal(ChannelRegs::popped);
    reveal(ChannelRegs::interrupting);
    reveal(ChannelRegs::answer_read);
    reveal(ChannelRegs::block_read);
    assert forall|size: int| 0 <= size <= w.buffer.len() implies (#[trigger] w.data_read(
        size,
    )).buffer == w.buffer.skip(size) by {
        if size == w.buffer.len() {
            assert(w.buffer.skip(size) =~= Seq::empty());
        }
    }
}

/// The packet that asks a CD drive for `count` blocks from block `lba` on: both numbers stand with
/// their highest byte first.
pub open spec fn read_packet(lba: u32, count: u16, lun: u8, reserved: u8, control: Seq<u8>) -> Seq<u8> {
    seq![
        0x28u8,
        lun,
        (lba / 0x100_0000) as u8,
        (lba / 0x1_0000 % 0x100) as u8,
        (lba / 0x100 % 0x100) as u8,
        (lba % 0x100) as u8,
        reserved,
        (count / 0x100) as u8,
        (count % 0x100) as u8,
    ] + control
}

/// A read packet is answered with the blocks that it asks for, of 2048 bytes each, in the buffer.
pub proof fn read_packets_are_answered_with_blocks(
    w: IdeWorld,
    lba: u32,
    count: u16,
    lun: u8,
    reserved: u8,
    control: Seq<u8>,
)
    requires
        control.len() == 3,
        chosen(w).is_some(),
        w.buffer.len() == 0,
        !w.regs.packet_responses_via_dma,
        2048 * lba + 2048 * count <= chosen(w).unwrap().data.bytes.len(),
    ensures
        packet_of(read_packet(lba, count, lun, reserved, control)) == Ok::<
            AtapiPacket,
            crate::hw::ide::atapi::AtapiError,
        >(AtapiPacket::Read { lba, transfer_length: count as u32 }),
        ({
            let after = w.packet_done(
                AtapiPacket::Read { lba, transfer_length: count as u32 },
            );
            let disk = chosen(w).unwrap().data.bytes;
            &&& after.buffer.len() == 2048 * count
            &&& forall|i: int|
                0 <= i < after.buffer.len() ==> #[trigger] after.buffer[i] == disk[2048 * lba + i]
            &&& after.first == w.first && after.second == w.second && after.mem == w.mem
            &&& after.regs.reading_atapi_packet && after.regs.status.ready_to_transmit
            &&& !after.regs.status.err && !after.regs.status.busy
            &&& interrupted(w, after)
        }),
{
    let p = read_packet(lba, count, lun, reserved, control);
    let a: int = lba as int / 0x100;
    let b: int = lba as int / 0x1_0000;
    assert(b == a / 0x100);
    assert(lba as int / 0x100_0000 == b / 0x100);
    assert(p[0] == 0x28 && p[2] == (lba / 0x100_0000) as u8 && p[3] == (lba / 0x1_0000 % 0x100) as u8
        && p[4] == (lba / 0x100 % 0x100) as u8 && p[5] == (lba % 0x100) as u8 && p[7] == (count
        / 0x100) as u8 && p[8] == (count % 0x100) as u8);
    reveal(IdeWorld::packet_done);
    reveal(IdeWorld::answered);
    reveal(IdeWorld::raised);
    reveal(ChannelRegs::answering);
    reveal(ChannelRegs::answered_in_buffer);
    reveal(ChannelRegs::interrupting);
    assert(w.drive() == chosen(w));
}

/// The capacity of a CD is the number of its last block of 2048 bytes, and 2048, both with their
/// highest byte first.
pub proof fn capacity_names_the_last_block(len: int)
    requires
        2048 <= len <= 0x800_0000_0000,
    ensures
        ({
            let c = capacity_data(len);
            let last = c[0] * 0x100_0000 + c[1] * 0x1_0000 + c[2] * 0x100 + c[3];
            &&& c.len() == 8
            &&& (last + 1) * 2048 <= len < (last + 2) * 2048
            &&& c[4] * 0x100_0000 + c[5] * 0x1_0000 + c[6] * 0x100 + c[7] == 2048
        }),
{
    let last: int = len / 2048 - 1;
    let a: int = last / 0x100;
    let b: int = last / 0x1_0000;
    assert(b == a / 0x100);
    assert(last / 0x100_0000 == b / 0x100);
}

/// The bits of the status register.
pub proof fn status_bits_have_their_places(s: Status)
    ensures
        ({
            let v = s.value_spec();
            &&& 0 <= v < 0x100
            &&& v % 2 == 1 <==> s.err
            &&& v / 2 % 2 == 1 <==> s.idx
            &&& v / 4 % 2 == 1 <==> s.corr
            &&& v / 8 % 2 == 1 <==> s.ready_to_transmit
            &&& v / 0x10 % 2 == 1 <==> s.drive_seek_complete
            &&& v / 0x20 % 2 == 1 <==> s.drive_write_fault
            &&& v / 0x40 % 2 == 1 <==> s.drive_ready
            &&& v / 0x80 % 2 == 1 <==> s.busy
        }),
{
}

/// Each register takes the byte that is written to it, and no other register does.
pub proof fn registers_take_their_bytes(w: IdeWorld, value: u8)
    ensures
        ({
            let val = PortValue { width: PortWidth::Byte, value: value as u32 };
            let r = w.regs;
            &&& w.written(1, val) == w.with_regs(ChannelRegs { features: value, ..r })
            &&& w.written(2, val) == w.with_regs(ChannelRegs { sector_count: value, ..r })
            &&& w.written(3, val) == w.with_regs(ChannelRegs { block_addr0: value, ..r })
            &&& w.written(4, val) == w.with_regs(ChannelRegs { block_addr1: value, ..r })
            &&& w.written(5, val) == w.with_regs(ChannelRegs { block_addr2: value, ..r })
            &&& w.written(6, val).regs.drive_and_head.value == value
            &&& w.written(6, val).buffer == w.buffer
            &&& w.written(6, val).first == w.first && w.written(6, val).second == w.second
        }),
{
    reveal(ChannelRegs::selected);
}

/// What the registers of a channel read: the error, the sector count, the three parts of the address,
/// the drive and head, and the status, in this order behind the data register.
pub proof fn registers_read_their_bytes(c: Channel)
    ensures
        ({
            let r = c.inner.regs;
            let read = |n: u8| c.read_result(n, PortWidth::Byte);
            &&& read(2) == Ok::<u32, PortError>(r.sector_count as u32)
            &&& read(3) == Ok::<u32, PortError>(r.block_addr0 as u32)
            &&& read(4) == Ok::<u32, PortError>(r.block_addr1 as u32)
            &&& read(5) == Ok::<u32, PortError>(r.block_addr2 as u32)
            &&& read(6) == Ok::<u32, PortError>(r.drive_and_head.value as u32)
            &&& read(7) == Ok::<u32, PortError>(r.status.value_spec() as u32)
            &&& read(1) == Ok::<u32, PortError>(r.error.value_spec() as u32)
            &&& c.read_result(2, PortWidth::Word) == Err::<u32, PortError>(
                PortError::UnsupportedWidth,
            )
        }),
        c.inner.sector_buffer@.len() >= 2 ==> c.read_result(0, PortWidth::Word) == Ok::<
            u32,
            PortError,
        >((c.inner.sector_buffer@[0] + 0x100 * c.inner.sector_buffer@[1]) as u32),
{
}

/// A hard disk identifies itself with its geometry and with the number of its sectors, and tells how
/// many cylinders fit.
pub proof fn disks_tell_their_size(d: DriveModel)
    requires
        !d.data.is_cd,
        d.geometry.sector_size == 512,
        d.geometry.head_count == 16,
        d.geometry.sectors_per_track == 63,
        d.data.bytes.len() < 0x1_0000 * 16 * 63 * 512,
    ensures
        ({
            let id = d.identity();
            let len = d.data.bytes.len() as int;
            &&& id.head_count == 16 && id.sectors_per_track == 63
            &&& id.total_lba_sectors * 512 <= len < (id.total_lba_sectors + 1) * 512
            &&& id.cylinder_count * (16 * 63) <= id.total_lba_sectors < (id.cylinder_count + 1) * (16
                * 63)
        }),
{
    let id = d.identity();
    let len: int = d.data.bytes.len() as int;
    let sectors: int = len / 512;
    assert(d.geometry.head_count * d.geometry.sectors_per_track == 1008) by (nonlinear_arith)
        requires
            d.geometry.head_count == 16,
            d.geometry.sectors_per_track == 63,
    ;
    assert(d.sector_total() == sectors);
    assert(d.cylinder_total() == sectors / 1008);
    assert(0 <= sectors < 0x1_0000 * 16 * 63);
    assert(0 <= sectors / 1008 < 0x1_0000);
    assert(id.total_lba_sectors == sectors);
    assert(id.cylinder_count == sectors / 1008);
}

} // verus!
