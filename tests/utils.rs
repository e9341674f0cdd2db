use open_rdma_driver::descriptor::{split_write, PacketSlice};
use open_rdma_driver::packet::ToHostWorkRbDescOpcode;
use open_rdma_driver::types::Pmtu;
use open_rdma_driver::utils::{
    align_up, calculate_packet_cnt, get_first_packet_max_length, u8_slice_to_u64, HugePage,
};

#[test]
fn test_calculate_packet_cnt() {
    let raddr = 0;
    let total_len = 4096;
    let packet_cnt = calculate_packet_cnt(Pmtu::Mtu1024, raddr, total_len);
    assert_eq!(packet_cnt, 4);

    for raddr in 1..1023 {
        let packet_cnt = calculate_packet_cnt(Pmtu::Mtu1024, raddr, total_len);
        assert_eq!(packet_cnt, 5);
    }
}

#[test]
fn align_up_test() {
    let a = align_up::<2097152>(1024);
    let b = align_up::<2097152>(1024 * 1024 * 2 + 1);

    assert_eq!(a, 1024 * 1024 * 2);
    assert_eq!(b, 1024 * 1024 * 4);
}

#[test]
fn first_packet_stops_at_mtu_boundary() {
    assert_eq!(get_first_packet_max_length(254, 256), 2);
    assert_eq!(get_first_packet_max_length(256, 256), 256);
    assert_eq!(get_first_packet_max_length(0, 4096), 4096);
}

#[test]
fn packet_count_edge_cases() {
    assert_eq!(calculate_packet_cnt(Pmtu::Mtu256, 0, 0), 1);
    assert_eq!(calculate_packet_cnt(Pmtu::Mtu256, 255, 1), 1);
    assert_eq!(calculate_packet_cnt(Pmtu::Mtu256, 255, 2), 2);
    assert_eq!(calculate_packet_cnt(Pmtu::Mtu4096, 100, 12288), 4);
    assert_eq!(calculate_packet_cnt(Pmtu::Mtu512, 0, u32::MAX), 8388608);
}

#[test]
fn u8_slice_is_big_endian() {
    assert_eq!(u8_slice_to_u64(&[]), 0);
    assert_eq!(u8_slice_to_u64(&[0x12, 0x34]), 0x1234);
    assert_eq!(
        u8_slice_to_u64(&[0x12, 0x34, 0x56, 0x78, 0x9a, 0xbc, 0xde, 0xf0]),
        0x1234_5678_9abc_def0
    );
}

#[test]
fn huge_page_mapping_size_rounds_up() {
    assert_eq!(HugePage::mapping_size(1), Some(2 * 1024 * 1024));
    assert_eq!(HugePage::mapping_size(4 * 1024 * 1024), Some(4 * 1024 * 1024));
    assert_eq!(HugePage::mapping_size(usize::MAX), None);
    let page = HugePage::from_mapping(0x4000_0000, 2 * 1024 * 1024);
    assert_eq!(page.as_ptr(), 0x4000_0000);
    assert_eq!(page.size(), 2 * 1024 * 1024);
}

#[test]
fn split_write_assigns_consecutive_psns() {
    let slices: Vec<PacketSlice> = split_write(100, 3000, Pmtu::Mtu1024, 0xFF_FFFE, false);
    assert_eq!(slices.len(), 4);
    let psns: Vec<u32> = slices.iter().map(|s| s.psn).collect();
    assert_eq!(psns, vec![0xFF_FFFE, 0xFF_FFFF, 0, 1]);
    let lens: Vec<u32> = slices.iter().map(|s| s.len).collect();
    assert_eq!(lens, vec![924, 1024, 1024, 28]);
    assert_eq!(slices[0].raddr, 100);
    assert_eq!(slices[1].raddr, 1024);
    assert_eq!(slices[3].raddr, 3072);
    assert_eq!(slices[0].opcode, ToHostWorkRbDescOpcode::RdmaWriteFirst);
    assert_eq!(slices[1].opcode, ToHostWorkRbDescOpcode::RdmaWriteMiddle);
    assert_eq!(slices[3].opcode, ToHostWorkRbDescOpcode::RdmaWriteLast);
}

#[test]
fn split_write_single_packet_with_immediate() {
    let slices = split_write(0, 512, Pmtu::Mtu1024, 7, true);
    assert_eq!(slices.len(), 1);
    assert_eq!(slices[0].opcode, ToHostWorkRbDescOpcode::RdmaWriteOnlyWithImmediate);
    assert_eq!(slices[0].len, 512);
    assert_eq!(slices[0].psn, 7);
    let slices = split_write(0, 2048, Pmtu::Mtu1024, 7, true);
    assert_eq!(slices[1].opcode, ToHostWorkRbDescOpcode::RdmaWriteLastWithImmediate);
}
