use open_rdma_driver::ctrl::{
    ControlPollerContext, CtrlOpCtxMap, SetResultOutcome, ToHostCtrlRbDesc,
    ToHostCtrlRbDescCommon, ToHostCtrlRbDescQpManagement, ToHostCtrlRbDescUpdateMrTable,
};
use open_rdma_driver::frame::{ipv4_checksum, process_received_frame, write_frame, RecvError};
use open_rdma_driver::icrc::{compute_icrc, crc32, is_icrc_valid};
use open_rdma_driver::message::{
    Metadata, PayloadInfo, RdmaGeneralMeta, RdmaMessage, RdmaMessageMetaCommon, RethHeader,
};
use open_rdma_driver::packet::{PacketError, ToHostWorkRbDescOpcode, ToHostWorkRbDescTransType};

fn write_only(payload: &[u8]) -> RdmaMessage {
    RdmaMessage {
        meta_data: Metadata::General(RdmaGeneralMeta {
            common_meta: RdmaMessageMetaCommon {
                tran_type: ToHostWorkRbDescTransType::Rc,
                opcode: ToHostWorkRbDescOpcode::RdmaWriteOnly,
                solicited: false,
                pkey: 0xffff,
                dqpn: 2,
                ack_req: true,
                psn: 10,
            },
            reth: RethHeader { va: 0x1000, rkey: 0x0100_0002, len: payload.len() as u32 },
            imm: None,
            secondary_reth: None,
        }),
        payload: PayloadInfo::new_with_data(payload),
    }
}

#[test]
fn crc32_check_value() {
    assert_eq!(crc32(b"123456789"), 0xCBF4_3926);
    assert_eq!(crc32(b""), 0);
}

#[test]
fn ipv4_checksum_example() {
    let h = [
        0x45, 0x00, 0x00, 0x73, 0x00, 0x00, 0x40, 0x00, 0x40, 0x11, 0x00, 0x00, 0xc0, 0xa8, 0x00,
        0x01, 0xc0, 0xa8, 0x00, 0xc7,
    ];
    assert_eq!(ipv4_checksum(&h), 0xb861);
}

#[test]
fn frame_round_trip() {
    let msg = write_only(&[1, 2, 3, 4, 5, 6, 7]);
    let frame = write_frame([10, 0, 0, 1], 4791, [10, 0, 0, 2], 4791, 0x1234, &msg).unwrap();
    assert_eq!(frame.len(), 20 + 8 + 28 + 8 + 4);
    assert_eq!(frame[0], 0x45);
    assert_eq!(u16::from_be_bytes([frame[2], frame[3]]) as usize, frame.len());
    assert_eq!(u16::from_be_bytes([frame[4], frame[5]]), 0x1234);
    assert_eq!(&frame[12..16], &[10, 0, 0, 1]);
    assert_eq!(&frame[16..20], &[10, 0, 0, 2]);
    assert_eq!(u16::from_be_bytes([frame[24], frame[25]]) as usize, frame.len() - 20);
    let mut hdr = frame[..20].to_vec();
    hdr[10] = 0;
    hdr[11] = 0;
    assert_eq!(ipv4_checksum(&hdr), u16::from_be_bytes([frame[10], frame[11]]));
    assert!(is_icrc_valid(&frame));
    let n = frame.len();
    assert_eq!(
        u32::from_le_bytes([frame[n - 4], frame[n - 3], frame[n - 2], frame[n - 1]]),
        compute_icrc(&frame)
    );
    let back = process_received_frame(&frame).unwrap();
    assert_eq!(back.meta_data, msg.meta_data);
    assert_eq!(back.payload.as_slice(), &[1, 2, 3, 4, 5, 6, 7]);
}

#[test]
fn icrc_ignores_variant_fields() {
    let msg = write_only(&[0xaa; 16]);
    let mut frame = write_frame([1, 2, 3, 4], 1, [5, 6, 7, 8], 4791, 1, &msg).unwrap();
    frame[1] = 0x2e;
    frame[8] = 3;
    frame[10] = 0x12;
    frame[26] = 0x34;
    frame[32] = 0x56;
    assert!(is_icrc_valid(&frame));
    frame[40] ^= 1;
    assert!(!is_icrc_valid(&frame));
    assert_eq!(process_received_frame(&frame).unwrap_err(), RecvError::BadIcrc);
}

#[test]
fn receive_refuses_short_and_bad_frames() {
    assert_eq!(process_received_frame(&[0u8; 43]).unwrap_err(), RecvError::TooShort);
    let msg = write_only(&[]);
    let mut frame = write_frame([1, 2, 3, 4], 1, [5, 6, 7, 8], 4791, 1, &msg).unwrap();
    frame[28] = 0x00;
    let n = frame.len();
    let icrc = compute_icrc(&frame).to_le_bytes();
    frame[n - 4..].copy_from_slice(&icrc);
    assert_eq!(
        process_received_frame(&frame).unwrap_err(),
        RecvError::Packet(PacketError::InvalidOpcode)
    );
}

#[test]
fn frame_too_long() {
    let msg = write_only(&vec![0u8; 70000]);
    assert_eq!(
        write_frame([1, 2, 3, 4], 1, [5, 6, 7, 8], 4791, 1, &msg).unwrap_err(),
        PacketError::FrameTooLong
    );
}

#[test]
fn control_responses_are_matched_by_op_id() {
    let mut ctx = ControlPollerContext { ctrl_op_ctx_map: CtrlOpCtxMap::new() };
    ctx.ctrl_op_ctx_map.insert_ctx(1);
    ctx.ctrl_op_ctx_map.insert_ctx(2);
    let resp = |op_id, is_success| ToHostCtrlRbDescCommon { op_id, is_success };
    assert_eq!(
        ctx.handle_ctrl_desc(&ToHostCtrlRbDesc::QpManagement(ToHostCtrlRbDescQpManagement {
            common: resp(2, false)
        })),
        SetResultOutcome::Delivered
    );
    assert_eq!(
        ctx.handle_ctrl_desc_update_mr_table(&ToHostCtrlRbDescUpdateMrTable {
            common: resp(1, true)
        }),
        SetResultOutcome::Delivered
    );
    assert_eq!(
        ctx.handle_ctrl_desc_update_mr_table(&ToHostCtrlRbDescUpdateMrTable {
            common: resp(1, false)
        }),
        SetResultOutcome::AlreadySet
    );
    assert_eq!(
        ctx.handle_ctrl_desc_update_mr_table(&ToHostCtrlRbDescUpdateMrTable {
            common: resp(9, true)
        }),
        SetResultOutcome::NoContext
    );
    assert_eq!(ctx.ctrl_op_ctx_map.get_result(1), Some(Some(true)));
    assert_eq!(ctx.ctrl_op_ctx_map.remove_ctx(2), Some(Some(false)));
    assert_eq!(ctx.ctrl_op_ctx_map.get_result(2), None);
}
