//! USB data formats: standard descriptors, Bulk-Only Transport wrappers, the GPT's
//! header and entries, and the CRC-32 that guards them.
use vstd::prelude::*;
use crate::bytes::{get_le16, get_le32, get_le64, le16, le32, le64, set_le32, with_le32};
use crate::mesa_fs::{copy_range, zeros};

verus! {

/// A Device descriptor.
#[derive(Debug, Clone, Copy, PartialEq, Eq, Structural)]
pub struct DeviceDescriptor {
    pub length: u8,
    pub descriptor_type: u8,
    pub usb_version: u16,
    pub device_class: u8,
    pub device_subclass: u8,
    pub device_protocol: u8,
    pub max_packet_size0: u8,
    pub vendor_id: u16,
    pub product_id: u16,
    pub device_version: u16,
    pub manufacturer_idx: u8,
    pub product_idx: u8,
    pub serial_idx: u8,
    pub num_configurations: u8,
}

/// A Configuration descriptor.
#[derive(Debug, Clone, Copy, PartialEq, Eq, Structural)]
pub struct ConfigDescriptor {
    pub length: u8,
    pub descriptor_type: u8,
    pub total_length: u16,
    pub num_interfaces: u8,
    pub config_value: u8,
    pub config_idx: u8,
    pub attributes: u8,
    pub max_power: u8,
}

/// An Interface descriptor.
#[derive(Debug, Clone, Copy, PartialEq, Eq, Structural)]
pub struct InterfaceDescriptor {
    pub length: u8,
    pub descriptor_type: u8,
    pub interface_number: u8,
    pub alternate_setting: u8,
    pub num_endpoints: u8,
    pub interface_class: u8,
    pub interface_subclass: u8,
    pub interface_protocol: u8,
    pub interface_idx: u8,
}

/// An Endpoint descriptor.
#[derive(Debug, Clone, Copy, PartialEq, Eq, Structural)]
pub struct EndpointDescriptor {
    pub length: u8,
    pub descriptor_type: u8,
    pub endpoint_address: u8,
    pub attributes: u8,
    pub max_packet_size: u16,
    pub interval: u8,
}

impl DeviceDescriptor {
    /// The descriptor laid out in the first 18 bytes.
    pub fn from_bytes(b: &[u8]) -> (res: Self)
        requires
            b@.len() >= 18,
        ensures
            res.length == b@[0] && res.descriptor_type == b@[1] && res.usb_version == le16(b@, 2),
            res.device_class == b@[4] && res.device_subclass == b@[5] && res.device_protocol == b@[6],
            res.max_packet_size0 == b@[7] && res.vendor_id == le16(b@, 8) && res.product_id == le16(b@, 10),
            res.device_version == le16(b@, 12) && res.manufacturer_idx == b@[14] && res.product_idx == b@[15],
            res.serial_idx == b@[16] && res.num_configurations == b@[17],
    {
        DeviceDescriptor {
            length: b[0],
            descriptor_type: b[1],
            usb_version: get_le16(b, 2),
            device_class: b[4],
            device_subclass: b[5],
            device_protocol: b[6],
            max_packet_size0: b[7],
            vendor_id: get_le16(b, 8),
            product_id: get_le16(b, 10),
            device_version: get_le16(b, 12),
            manufacturer_idx: b[14],
            product_idx: b[15],
            serial_idx: b[16],
            num_configurations: b[17],
        }
    }
}

impl ConfigDescriptor {
    /// The descriptor laid out in the first 9 bytes.
    pub fn from_bytes(b: &[u8]) -> (res: Self)
        requires
            b@.len() >= 9,
        ensures
            res.length == b@[0] && res.descriptor_type == b@[1] && res.total_length == le16(b@, 2),
            res.num_interfaces == b@[4] && res.config_value == b@[5] && res.config_idx == b@[6],
            res.attributes == b@[7] && res.max_power == b@[8],
    {
        ConfigDescriptor {
            length: b[0],
            descriptor_type: b[1],
            total_length: get_le16(b, 2),
            num_interfaces: b[4],
            config_value: b[5],
            config_idx: b[6],
            attributes: b[7],
            max_power: b[8],
        }
    }
}

impl InterfaceDescriptor {
    /// The descriptor laid out in the first 9 bytes.
    pub fn from_bytes(b: &[u8]) -> (res: Self)
        requires
            b@.len() >= 9,
        ensures
            res.length == b@[0] && res.descriptor_type == b@[1] && res.interface_number == b@[2],
            res.alternate_setting == b@[3] && res.num_endpoints == b@[4] && res.interface_class == b@[5],
            res.interface_subclass == b@[6] && res.interface_protocol == b@[7] && res.interface_idx == b@[8],
    {
        InterfaceDescriptor {
            length: b[0],
            descriptor_type: b[1],
            interface_number: b[2],
            alternate_setting: b[3],
            num_endpoints: b[4],
            interface_class: b[5],
            interface_subclass: b[6],
            interface_protocol: b[7],
            interface_idx: b[8],
        }
    }
}

impl EndpointDescriptor {
    /// The descriptor laid out in the first 7 bytes.
    pub fn from_bytes(b: &[u8]) -> (res: Self)
        requires
            b@.len() >= 7,
        ensures
            res.length == b@[0] && res.descriptor_type == b@[1] && res.endpoint_address == b@[2],
            res.attributes == b@[3] && res.max_packet_size == le16(b@, 4) && res.interval == b@[6],
    {
        EndpointDescriptor {
            length: b[0],
            descriptor_type: b[1],
            endpoint_address: b[2],
            attributes: b[3],
            max_packet_size: get_le16(b, 4),
            interval: b[6],
        }
    }
}

/// Walks a buffer of descriptors, each starting with its length and type.
pub struct DescriptorIter<'a> {
    pub data: &'a [u8],
    pub offset: usize,
}

/// The descriptor at `off`, if a whole one is there: its type, bytes, and the offset
/// after it. A length of zero, or one running past the end, ends the walk.
pub open spec fn descriptor_at(d: Seq<u8>, off: nat) -> Option<(u8, Seq<u8>, nat)> {
    if off + 2 > d.len() {
        None
    } else {
        let len = d[off as int] as nat;
        if len == 0 || off + len > d.len() {
            None
        } else {
            Some((d[off as int + 1], d.subrange(off as int, (off + len) as int), off + len))
        }
    }
}

/// The descriptors from `off` on, in order.
pub open spec fn descriptors_from(d: Seq<u8>, off: nat) -> Seq<(u8, Seq<u8>)>
    decreases d.len() - off,
{
    match descriptor_at(d, off) {
        Some((t, s, next)) => if next > off && next <= d.len() { seq![(t, s)] + descriptors_from(d, next) } else { Seq::empty() },
        None => Seq::empty(),
    }
}

impl<'a> DescriptorIter<'a> {
    pub fn new(data: &'a [u8]) -> (res: Self)
        ensures
            res.data@ == data@ && res.offset == 0,
    {
        DescriptorIter { data, offset: 0 }
    }

    /// The next descriptor: its type and bytes.
    pub fn next(&mut self) -> (res: Option<(u8, Vec<u8>)>)
        ensures
            final(self).data@ == old(self).data@,
            match descriptor_at(old(self).data@, old(self).offset as nat) {
                Some((t, s, next)) => res matches Some(r) && r.0 == t && r.1@ == s && final(self).offset == next,
                None => res is None && final(self).offset == old(self).offset,
            },
    {
        let n = self.data.len();
        if n < 2 || self.offset > n - 2 {
            return None;
        }
        let len = self.data[self.offset] as usize;
        let dtype = self.data[self.offset + 1];
        if len == 0 || len > n - self.offset {
            return None;
        }
        let slice = copy_range(self.data, self.offset, self.offset + len);
        self.offset = self.offset + len;
        Some((dtype, slice))
    }
}

/// An endpoint found in a configuration.
#[derive(Debug, Clone, Copy, PartialEq, Eq, Structural)]
pub struct ParsedEndpoint {
    pub address: u8,
    pub attributes: u8,
    pub max_packet_size: u16,
}

/// Interface and endpoint descriptors are long enough to hold the fields read from them.
pub open spec fn descriptors_readable(ds: Seq<(u8, Seq<u8>)>) -> bool {
    forall|k: int| 0 <= k < ds.len() ==> ((#[trigger] ds[k]).0 == 4 || ds[k].0 == 5) ==> ds[k].1.len() >= 6
}

/// The endpoints listed among the first `n` descriptors.
pub open spec fn endpoints_in(ds: Seq<(u8, Seq<u8>)>, n: nat) -> Seq<ParsedEndpoint>
    decreases n,
{
    if n == 0 || n > ds.len() {
        Seq::empty()
    } else {
        let prev = endpoints_in(ds, (n - 1) as nat);
        let (t, s) = ds[n - 1];
        if t == 5 {
            prev.push(ParsedEndpoint { address: s[2], attributes: s[3], max_packet_size: le16(s, 4) as u16 })
        } else {
            prev
        }
    }
}

/// The endpoints of a configuration descriptor set, in order.
pub fn parse_config_descriptor(data: &[u8]) -> (res: Vec<ParsedEndpoint>)
    requires
        descriptors_readable(descriptors_from(data@, 0)),
    ensures
        res@ == endpoints_in(descriptors_from(data@, 0), descriptors_from(data@, 0).len()),
{
    let mut iter = DescriptorIter::new(data);
    let mut endpoints: Vec<ParsedEndpoint> = Vec::new();
    let ghost all = descriptors_from(data@, 0);
    let ghost mut k: nat = 0;
    assert(all.subrange(0, all.len() as int) =~= all);
    loop
        invariant
            iter.data@ == data@,
            all == descriptors_from(data@, 0),
            descriptors_readable(all),
            k <= all.len(),
            descriptors_from(data@, iter.offset as nat) == all.subrange(k as int, all.len() as int),
            endpoints@ == endpoints_in(all, k),
        ensures
            k == all.len(),
            endpoints@ == endpoints_in(all, k),
        decreases data@.len() - iter.offset,
    {
        let ghost off = iter.offset;
        match iter.next() {
            None => {
                assert(descriptors_from(data@, off as nat).len() == 0);
                break;
            },
            Some((dtype, slice)) => {
                proof {
                    let rest = descriptors_from(data@, iter.offset as nat);
                    assert(descriptors_from(data@, off as nat) == seq![(dtype, slice@)] + rest);
                    assert(all.subrange(k as int, all.len() as int)[0] == all[k as int]);
                    assert(all[k as int] == (dtype, slice@));
                    let a = all.subrange(k as int, all.len() as int);
                    let h = seq![(dtype, slice@)];
                    assert(a == h + rest);
                    assert(rest.len() == a.len() - 1);
                    assert forall|i: int| 0 <= i < rest.len() implies rest[i] == all[k as int + 1 + i] by {
                        assert((h + rest)[i + 1] == rest[i]);
                        assert(a[i + 1] == all[k as int + 1 + i]);
                    }
                    assert(rest =~= all.subrange(k as int + 1, all.len() as int));
                }
                if dtype == 5 {
                    assert(all[k as int].1.len() >= 6);
                    let ep = ParsedEndpoint { address: slice[2], attributes: slice[3], max_packet_size: get_le16(slice.as_slice(), 4) };
                    endpoints.push(ep);
                }
                proof { k = k + 1; }
            },
        }
    }
    endpoints
}

/// What an xHCI completion code means: its name in the xHCI specification, "Unknown"
/// for 0, 30 and codes above 36.
pub open spec fn spec_completion_code(cc: u8) -> Seq<char> {
    match cc {
        1 => "Success"@,
        2 => "Data Buffer Error"@,
        3 => "Babble Detected"@,
        4 => "USB Transaction Error"@,
        5 => "TRB Error"@,
        6 => "Stall Error"@,
        7 => "Resource Error"@,
        8 => "Bandwidth Error"@,
        9 => "No Slots Available"@,
        10 => "Invalid Stream Type"@,
        11 => "Slot Not Enabled"@,
        12 => "Endpoint Not Enabled"@,
        13 => "Short Packet"@,
        14 => "Ring Underrun"@,
        15 => "Ring Overrun"@,
        16 => "VF Event Ring Full"@,
        17 => "Parameter Error"@,
        18 => "Bandwidth Overrun"@,
        19 => "Context State Error"@,
        20 => "No Ping Response"@,
        21 => "Event Ring Full"@,
        22 => "Incompatible Device"@,
        23 => "Missed Service"@,
        24 => "Command Ring Stopped"@,
        25 => "Command Aborted"@,
        26 => "Stopped"@,
        27 => "Stopped - Length Invalid"@,
        28 => "Stopped - Short Packet"@,
        29 => "Max Exit Latency Too Large"@,
        31 => "Isoch Buffer Overrun"@,
        32 => "Event Lost"@,
        33 => "Undefined Error"@,
        34 => "Invalid Stream ID"@,
        35 => "Secondary Bandwidth Error"@,
        36 => "Split Transaction Error"@,
        _ => "Unknown"@,
    }
}

/// The name of an xHCI completion code.
pub fn completion_code_to_string(cc: u8) -> (res: &'static str)
    ensures
        res@ == spec_completion_code(cc),
{
    match cc {
        1 => "Success",
        2 => "Data Buffer Error",
        3 => "Babble Detected",
        4 => "USB Transaction Error",
        5 => "TRB Error",
        6 => "Stall Error",
        7 => "Resource Error",
        8 => "Bandwidth Error",
        9 => "No Slots Available",
        10 => "Invalid Stream Type",
        11 => "Slot Not Enabled",
        12 => "Endpoint Not Enabled",
        13 => "Short Packet",
        14 => "Ring Underrun",
        15 => "Ring Overrun",
        16 => "VF Event Ring Full",
        17 => "Parameter Error",
        18 => "Bandwidth Overrun",
        19 => "Context State Error",
        20 => "No Ping Response",
        21 => "Event Ring Full",
        22 => "Incompatible Device",
        23 => "Missed Service",
        24 => "Command Ring Stopped",
        25 => "Command Aborted",
        26 => "Stopped",
        27 => "Stopped - Length Invalid",
        28 => "Stopped - Short Packet",
        29 => "Max Exit Latency Too Large",
        31 => "Isoch Buffer Overrun",
        32 => "Event Lost",
        33 => "Undefined Error",
        34 => "Invalid Stream ID",
        35 => "Secondary Bandwidth Error",
        36 => "Split Transaction Error",
        _ => "Unknown",
    }
}


// ---------------------------------------------------------------------------
// Bulk-Only Transport.

/// `USBC`, the signature of a Command Block Wrapper.
pub const CBW_SIGNATURE: u32 = 0x43425355;
/// `USBS`, the signature of a Command Status Wrapper.
pub const CSW_SIGNATURE: u32 = 0x53425355;

/// A Command Block Wrapper (31 bytes on the wire).
pub struct CommandBlockWrapper {
    pub d_cbw_signature: u32,
    pub d_cbw_tag: u32,
    pub d_cbw_data_transfer_length: u32,
    pub bm_cbw_flags: u8,
    pub b_cbw_lun: u8,
    pub b_cbw_cb_length: u8,
    pub cbw_cb: [u8; 16],
}

/// A Command Status Wrapper (13 bytes on the wire).
#[derive(Debug, Clone, Copy, PartialEq, Eq, Structural)]
pub struct CommandStatusWrapper {
    pub d_csw_signature: u32,
    pub d_csw_tag: u32,
    pub d_csw_data_residue: u32,
    pub b_csw_status: u8,
}

/// The command block of a SCSI READ (10) or WRITE (10): opcode, the block address and
/// the block count big-endian, zeros elsewhere.
pub open spec fn rw10_cdb(opcode: u8, lba: u32, count: u16) -> Seq<u8> {
    seq![opcode, 0, (lba / 0x100_0000) as u8, (lba / 0x1_0000 % 0x100) as u8, (lba / 0x100 % 0x100) as u8,
        (lba % 0x100) as u8, 0, (count / 0x100) as u8, (count % 0x100) as u8, 0, 0, 0, 0, 0, 0, 0]
}

fn make_cdb(opcode: u8, lba: u32, count: u16) -> (res: [u8; 16])
    ensures
        res@ == rw10_cdb(opcode, lba, count),
{
    let res = [opcode, 0, (lba / 0x100_0000) as u8, (lba / 0x1_0000 % 0x100) as u8, (lba / 0x100 % 0x100) as u8,
        (lba % 0x100) as u8, 0, (count / 0x100) as u8, (count % 0x100) as u8, 0, 0, 0, 0, 0, 0, 0];
    assert(res@ =~= rw10_cdb(opcode, lba, count));
    res
}

impl CommandBlockWrapper {
    /// A READ (10) of `count` 512-byte blocks from `lba`, data flowing to the host.
    pub fn read10(tag: u32, lba: u32, count: u16) -> (res: Self)
        ensures
            res.d_cbw_signature == CBW_SIGNATURE && res.d_cbw_tag == tag,
            res.d_cbw_data_transfer_length == count as nat * 512,
            res.bm_cbw_flags == 0x80 && res.b_cbw_lun == 0 && res.b_cbw_cb_length == 10,
            res.cbw_cb@ == rw10_cdb(0x28, lba, count),
    {
        CommandBlockWrapper {
            d_cbw_signature: CBW_SIGNATURE,
            d_cbw_tag: tag,
            d_cbw_data_transfer_length: count as u32 * 512,
            bm_cbw_flags: 0x80,
            b_cbw_lun: 0,
            b_cbw_cb_length: 10,
            cbw_cb: make_cdb(0x28, lba, count),
        }
    }

    /// A WRITE (10) of `count` 512-byte blocks at `lba`, data flowing to the device.
    pub fn write10(tag: u32, lba: u32, count: u16) -> (res: Self)
        ensures
            res.d_cbw_signature == CBW_SIGNATURE && res.d_cbw_tag == tag,
            res.d_cbw_data_transfer_length == count as nat * 512,
            res.bm_cbw_flags == 0x00 && res.b_cbw_lun == 0 && res.b_cbw_cb_length == 10,
            res.cbw_cb@ == rw10_cdb(0x2A, lba, count),
    {
        CommandBlockWrapper {
            d_cbw_signature: CBW_SIGNATURE,
            d_cbw_tag: tag,
            d_cbw_data_transfer_length: count as u32 * 512,
            bm_cbw_flags: 0x00,
            b_cbw_lun: 0,
            b_cbw_cb_length: 10,
            cbw_cb: make_cdb(0x2A, lba, count),
        }
    }

    /// The 31 bytes sent to the device (fields packed, little-endian).
    pub fn to_bytes(&self) -> (res: Vec<u8>)
        ensures
            res@.len() == 31,
            le32(res@, 0) == self.d_cbw_signature,
            le32(res@, 4) == self.d_cbw_tag,
            le32(res@, 8) == self.d_cbw_data_transfer_length,
            res@[12] == self.bm_cbw_flags && res@[13] == self.b_cbw_lun && res@[14] == self.b_cbw_cb_length,
            res@.subrange(15, 31) == self.cbw_cb@,
    {
        let mut v = zeros(31);
        let ghost v0 = v@;
        set_le32(&mut v, 0, self.d_cbw_signature);
        proof { crate::bytes::lemma_le32_roundtrip(v0, 0, self.d_cbw_signature); }
        let ghost v1 = v@;
        set_le32(&mut v, 4, self.d_cbw_tag);
        proof { crate::bytes::lemma_le32_roundtrip(v1, 4, self.d_cbw_tag); }
        let ghost v2 = v@;
        set_le32(&mut v, 8, self.d_cbw_data_transfer_length);
        proof { crate::bytes::lemma_le32_roundtrip(v2, 8, self.d_cbw_data_transfer_length); }
        let ghost v3 = v@;
        proof {
            assert(le32(v3, 0) == le32(v1, 0)) by {
                assert(v3[0] == v1[0] && v3[1] == v1[1] && v3[2] == v1[2] && v3[3] == v1[3]);
            }
            assert(le32(v3, 4) == le32(v2, 4)) by {
                assert(v3[4] == v2[4] && v3[5] == v2[5] && v3[6] == v2[6] && v3[7] == v2[7]);
            }
        }
        v.set(12, self.bm_cbw_flags);
        v.set(13, self.b_cbw_lun);
        v.set(14, self.b_cbw_cb_length);
        let mut k: usize = 0;
        while k < 16
            invariant
                v@.len() == 31,
                k <= 16,
                forall|m: int| 0 <= m < 12 ==> v@[m] == v3[m],
                v@[12] == self.bm_cbw_flags && v@[13] == self.b_cbw_lun && v@[14] == self.b_cbw_cb_length,
                forall|m: int| 0 <= m < k ==> v@[15 + m] == self.cbw_cb@[m],
            decreases 16 - k,
        {
            v.set(15 + k, self.cbw_cb[k]);
            k = k + 1;
        }
        proof {
            assert(le32(v@, 0) == le32(v3, 0)) by {
                assert(v@[0] == v3[0] && v@[1] == v3[1] && v@[2] == v3[2] && v@[3] == v3[3]);
            }
            assert(le32(v@, 4) == le32(v3, 4)) by {
                assert(v@[4] == v3[4] && v@[5] == v3[5] && v@[6] == v3[6] && v@[7] == v3[7]);
            }
            assert(le32(v@, 8) == le32(v3, 8)) by {
                assert(v@[8] == v3[8] && v@[9] == v3[9] && v@[10] == v3[10] && v@[11] == v3[11]);
            }
            assert(v@.subrange(15, 31) =~= self.cbw_cb@);
        }
        v
    }
}

impl CommandStatusWrapper {
    /// The status read back from the device (13 bytes, little-endian fields).
    pub fn from_bytes(b: &[u8]) -> (res: Self)
        requires
            b@.len() >= 13,
        ensures
            res.d_csw_signature == le32(b@, 0) && res.d_csw_tag == le32(b@, 4),
            res.d_csw_data_residue == le32(b@, 8) && res.b_csw_status == b@[12],
    {
        CommandStatusWrapper {
            d_csw_signature: get_le32(b, 0),
            d_csw_tag: get_le32(b, 4),
            d_csw_data_residue: get_le32(b, 8),
            b_csw_status: b[12],
        }
    }

    /// The command succeeded: the signature is right, the tag is the command's, and the
    /// status is zero.
    pub fn passed(&self, tag: u32) -> (res: bool)
        ensures
            res == (self.d_csw_signature == CSW_SIGNATURE && self.b_csw_status == 0 && self.d_csw_tag == tag),
    {
        self.d_csw_signature == CSW_SIGNATURE && self.b_csw_status == 0 && self.d_csw_tag == tag
    }
}

// ---------------------------------------------------------------------------
// CRC-32 (IEEE 802.3, reflected, polynomial 0xEDB88320).

/// `k` rounds of the bitwise CRC step.
pub open spec fn crc_rounds(c: u32, k: nat) -> u32
    decreases k,
{
    if k == 0 {
        c
    } else {
        let c1 = crc_rounds(c, (k - 1) as nat);
        if c1 & 1 != 0 { (c1 >> 1u32) ^ 0xEDB88320u32 } else { c1 >> 1u32 }
    }
}

/// The running CRC register after the first `n` bytes.
pub open spec fn crc_reg(d: Seq<u8>, n: nat) -> u32
    decreases n,
{
    if n == 0 || n > d.len() {
        0xFFFF_FFFF
    } else {
        crc_rounds(crc_reg(d, (n - 1) as nat) ^ (d[n - 1] as u32), 8)
    }
}

/// The CRC-32 of `d`.
pub open spec fn spec_crc32(d: Seq<u8>) -> u32 {
    !crc_reg(d, d.len())
}

/// The CRC-32 used by GPT headers and entry arrays.
pub fn crc32(data: &[u8]) -> (res: u32)
    ensures
        res == spec_crc32(data@),
{
    let mut crc: u32 = 0xFFFF_FFFF;
    let mut i: usize = 0;
    while i < data.len()
        invariant
            i <= data@.len(),
            crc == crc_reg(data@, i as nat),
        decreases data@.len() - i,
    {
        crc = crc ^ (data[i] as u32);
        let ghost start = crc;
        let mut j: u32 = 0;
        while j < 8
            invariant
                j <= 8,
                crc == crc_rounds(start, j as nat),
            decreases 8 - j,
        {
            if crc & 1 != 0 {
                crc = (crc >> 1u32) ^ 0xEDB88320u32;
            } else {
                crc = crc >> 1u32;
            }
            j = j + 1;
        }
        i = i + 1;
    }
    !crc
}

// ---------------------------------------------------------------------------
// GPT.

/// The GPT header (LBA 1).
pub struct GptHeader {
    pub signature: [u8; 8],
    pub revision: u32,
    pub header_size: u32,
    pub header_crc32: u32,
    pub reserved: u32,
    pub my_lba: u64,
    pub alternate_lba: u64,
    pub first_usable_lba: u64,
    pub last_usable_lba: u64,
    pub disk_guid: [u8; 16],
    pub partition_entry_lba: u64,
    pub num_partition_entries: u32,
    pub size_partition_entry: u32,
    pub partition_array_crc32: u32,
}

/// A GPT partition entry.
pub struct GptEntry {
    pub partition_type_guid: [u8; 16],
    pub unique_partition_guid: [u8; 16],
    pub starting_lba: u64,
    pub ending_lba: u64,
    pub attributes: u64,
    pub partition_name: [u16; 36],
}

fn bytes16(b: &[u8], off: usize) -> (res: [u8; 16])
    requires
        off + 16 <= b@.len(),
    ensures
        res@ == b@.subrange(off as int, off + 16),
{
    let res = [b[off], b[off + 1], b[off + 2], b[off + 3], b[off + 4], b[off + 5], b[off + 6], b[off + 7], b[off + 8],
        b[off + 9], b[off + 10], b[off + 11], b[off + 12], b[off + 13], b[off + 14], b[off + 15]];
    assert(res@ =~= b@.subrange(off as int, off + 16));
    res
}

impl GptHeader {
    /// The header laid out in the first 92 bytes of the sector.
    pub fn from_bytes(b: &[u8]) -> (res: Self)
        requires
            b@.len() >= 92,
        ensures
            res.signature@ == b@.subrange(0, 8),
            res.revision == le32(b@, 8) && res.header_size == le32(b@, 12) && res.header_crc32 == le32(b@, 16),
            res.reserved == le32(b@, 20) && res.my_lba == le64(b@, 24) && res.alternate_lba == le64(b@, 32),
            res.first_usable_lba == le64(b@, 40) && res.last_usable_lba == le64(b@, 48),
            res.disk_guid@ == b@.subrange(56, 72),
            res.partition_entry_lba == le64(b@, 72) && res.num_partition_entries == le32(b@, 80),
            res.size_partition_entry == le32(b@, 84) && res.partition_array_crc32 == le32(b@, 88),
    {
        let sig = [b[0], b[1], b[2], b[3], b[4], b[5], b[6], b[7]];
        assert(sig@ =~= b@.subrange(0, 8));
        GptHeader {
            signature: sig,
            revision: get_le32(b, 8),
            header_size: get_le32(b, 12),
            header_crc32: get_le32(b, 16),
            reserved: get_le32(b, 20),
            my_lba: get_le64(b, 24),
            alternate_lba: get_le64(b, 32),
            first_usable_lba: get_le64(b, 40),
            last_usable_lba: get_le64(b, 48),
            disk_guid: bytes16(b, 56),
            partition_entry_lba: get_le64(b, 72),
            num_partition_entries: get_le32(b, 80),
            size_partition_entry: get_le32(b, 84),
            partition_array_crc32: get_le32(b, 88),
        }
    }
}

impl GptEntry {
    /// The entry laid out in the 128 bytes at `off`.
    pub fn from_bytes(b: &[u8], off: usize) -> (res: Self)
        requires
            off + 128 <= b@.len(),
        ensures
            res.partition_type_guid@ == b@.subrange(off as int, off + 16),
            res.unique_partition_guid@ == b@.subrange(off + 16, off + 32),
            res.starting_lba == le64(b@, off + 32) && res.ending_lba == le64(b@, off + 40),
            res.attributes == le64(b@, off + 48),
            forall|k: int| 0 <= k < 36 ==> res.partition_name@[k] == le16(b@, off + 56 + 2 * k),
    {
        let _n = b.len();
        let mut name: [u16; 36] = [0; 36];
        let mut k: usize = 0;
        while k < 36
            invariant
                off + 128 <= b@.len(),
                b@.len() <= usize::MAX,
                k <= 36,
                name@.len() == 36,
                forall|m: int| 0 <= m < k ==> name@[m] == le16(b@, off + 56 + 2 * m),
            decreases 36 - k,
        {
            name[k] = get_le16(b, off + 56 + 2 * k);
            k = k + 1;
        }
        GptEntry {
            partition_type_guid: bytes16(b, off),
            unique_partition_guid: bytes16(b, off + 16),
            starting_lba: get_le64(b, off + 32),
            ending_lba: get_le64(b, off + 40),
            attributes: get_le64(b, off + 48),
            partition_name: name,
        }
    }
}

// ---------------------------------------------------------------------------
// Enumeration state.

/// How far the enumeration of a device got.
#[derive(Debug, Clone, Copy, PartialEq, Eq, Structural)]
pub enum UsbPhase {
    Detected,
    SlotEnabled,
    AddressAssigned,
    DeviceDescriptorRead,
    ConfigDescriptorRead,
    EndpointsConfigured,
    SetConfigurationDone,
    Failed,
}

/// What is known of an enumerated device.
#[derive(Clone, Copy)]
pub struct UsbDeviceState {
    pub active: bool,
    pub slot_id: u8,
    pub port: u8,
    pub speed: u8,
    pub vendor_id: u16,
    pub product_id: u16,
    pub class: u8,
    pub num_interfaces: u8,
    pub num_endpoints: u8,
    pub config_val: u8,
    pub phase: UsbPhase,
    pub transfers_ok: u32,
    pub transfers_err: u32,
    pub bulk_out_dci: u8,
    pub bulk_in_dci: u8,
    pub bulk_out_ring_phys: u64,
    pub bulk_out_ring_virt: u64,
    pub bulk_in_ring_phys: u64,
    pub bulk_in_ring_virt: u64,
    pub num_partitions: u8,
    pub is_gpt: bool,
    pub part_type: [u8; 8],
    pub part_lba_start: [u64; 8],
    pub part_lba_end: [u64; 8],
    pub part_size_mb: [u32; 8],
    pub free_start_lba: u64,
    pub free_sectors: u64,
}

impl UsbDeviceState {
    /// A slot with no device.
    pub fn empty() -> (res: Self)
        ensures
            !res.active && res.slot_id == 0 && res.phase == UsbPhase::Detected && res.num_partitions == 0 && !res.is_gpt,
            res.transfers_ok == 0 && res.transfers_err == 0,
    {
        UsbDeviceState {
            active: false,
            slot_id: 0,
            port: 0,
            speed: 0,
            vendor_id: 0,
            product_id: 0,
            class: 0,
            num_interfaces: 0,
            num_endpoints: 0,
            config_val: 0,
            phase: UsbPhase::Detected,
            transfers_ok: 0,
            transfers_err: 0,
            bulk_out_dci: 0,
            bulk_in_dci: 0,
            bulk_out_ring_phys: 0,
            bulk_out_ring_virt: 0,
            bulk_in_ring_phys: 0,
            bulk_in_ring_virt: 0,
            num_partitions: 0,
            is_gpt: false,
            part_type: [0; 8],
            part_lba_start: [0; 8],
            part_lba_end: [0; 8],
            part_size_mb: [0; 8],
            free_start_lba: 0,
            free_sectors: 0,
        }
    }
}

/// The mass-storage device in use, as kept between transfers.
#[derive(Clone, Copy)]
pub struct UsbStorageState {
    pub ready: bool,
    pub slot_id: u8,
    pub out_dci: u8,
    pub in_dci: u8,
    pub out_ring_phys: u64,
    pub out_ring_virt: u64,
    pub out_ring_enqueue: usize,
    pub out_ring_cycle: bool,
    pub in_ring_phys: u64,
    pub in_ring_virt: u64,
    pub in_ring_enqueue: usize,
    pub in_ring_cycle: bool,
    pub free_start_lba: u64,
    pub free_sectors: u64,
    pub capacity_sectors: u64,
    pub block_size: u32,
    pub bar0: u64,
    pub dboff: u32,
    pub evt_ring_phys: u64,
    pub evt_ring_virt: u64,
    pub evt_ring_dequeue: usize,
    pub evt_ring_cycle: bool,
    pub caplength: u8,
}

impl UsbStorageState {
    /// No device: rings at their start with cycle 1, 512-byte blocks.
    pub fn empty() -> (res: Self)
        ensures
            !res.ready && res.capacity_sectors == 0 && res.block_size == 512,
            res.out_ring_enqueue == 0 && res.out_ring_cycle && res.in_ring_enqueue == 0 && res.in_ring_cycle,
            res.evt_ring_dequeue == 0 && res.evt_ring_cycle,
    {
        UsbStorageState {
            ready: false,
            slot_id: 0,
            out_dci: 0,
            in_dci: 0,
            out_ring_phys: 0,
            out_ring_virt: 0,
            out_ring_enqueue: 0,
            out_ring_cycle: true,
            in_ring_phys: 0,
            in_ring_virt: 0,
            in_ring_enqueue: 0,
            in_ring_cycle: true,
            free_start_lba: 0,
            free_sectors: 0,
            capacity_sectors: 0,
            block_size: 512,
            bar0: 0,
            dboff: 0,
            evt_ring_phys: 0,
            evt_ring_virt: 0,
            evt_ring_dequeue: 0,
            evt_ring_cycle: true,
            caplength: 0,
        }
    }
}

} // verus!
