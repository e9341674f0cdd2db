use open_rdma_driver::codec::PacketProcessor;
use open_rdma_driver::message::{
    AethHeader, Metadata, PayloadInfo, RdmaGeneralMeta, RdmaMessage, RdmaMessageMetaCommon,
    RethHeader,
};
use open_rdma_driver::packet::{
    PacketError, ToHostWorkRbDescAethCode, ToHostWorkRbDescOpcode, ToHostWorkRbDescTransType,
    AETH, BTH, IMM_SIZE, RETH,
};
use open_rdma_driver::types::QpType;

const BTH_SIZE: usize = 12;
const RETH_SIZE: usize = 16;
const AETH_SIZE: usize = 4;

fn base_bth(opcode: ToHostWorkRbDescOpcode, pkey: u16) -> BTH {
    let mut bth = BTH::from_bytes(&[0u8; BTH_SIZE]);
    bth.set_opcode_and_type(opcode, ToHostWorkRbDescTransType::Rc);
    bth.set_destination_qpn(1);
    bth.set_psn(1);
    bth.set_ack_req(false);
    bth.set_flags_solicited(true);
    bth.set_pkey(pkey);
    bth
}

fn reth_bytes(va: u64, rkey: u32, dlen: u32) -> Vec<u8> {
    let mut reth = RETH::from_bytes(&[0u8; RETH_SIZE]);
    reth.set_va(va);
    reth.set_rkey(rkey);
    reth.set_dlen(dlen);
    let mut out = Vec::new();
    reth.write_to(&mut out);
    out
}

#[test]
fn test_header_bth_reth() {
    let mut buf = Vec::new();
    base_bth(ToHostWorkRbDescOpcode::RdmaWriteFirst, 0x1234).write_to(&mut buf);
    buf.extend(reth_bytes(1, 0x12345678, 1));
    buf.extend(vec![0u8; 512]);

    let message = PacketProcessor::to_rdma_message(&buf).unwrap();
    let meta = &message.meta_data;
    match meta {
        Metadata::General(header) => {
            assert_eq!(header.common_meta.tran_type, ToHostWorkRbDescTransType::Rc);
            assert_eq!(header.common_meta.opcode, ToHostWorkRbDescOpcode::RdmaWriteFirst);
            assert!(header.common_meta.solicited);
            assert_eq!(header.common_meta.dqpn, 1);
            assert!(!header.common_meta.ack_req);
            assert_eq!(header.common_meta.psn, 1);
            assert_eq!(header.common_meta.pkey, 0x1234);
            assert_eq!(header.reth.va, 1);
            assert_eq!(header.reth.rkey, 0x12345678);
            assert_eq!(header.reth.len, 1);
            assert_eq!(message.payload.get_length(), 512);
        }
        _ => panic!("wrong meta data"),
    }
    let mut new_buf = vec![0u8; BTH_SIZE + RETH_SIZE + 512];
    let size = PacketProcessor::set_from_rdma_message(&mut new_buf, &message).unwrap();
    assert!(size == BTH_SIZE + RETH_SIZE);
    assert!(buf[..size] == new_buf[..size]);
}

#[test]
fn test_header_bth_reth_imm() {
    let mut buf = Vec::new();
    base_bth(ToHostWorkRbDescOpcode::RdmaWriteLastWithImmediate, 0x1234).write_to(&mut buf);
    buf.extend(reth_bytes(0x1234567812345678, 0x12345678, 0x12345678));
    buf.extend([1u8; IMM_SIZE]);
    buf.extend(vec![0u8; 512]);
    let message = PacketProcessor::to_rdma_message(&buf).unwrap();
    let meta = &message.meta_data;
    match meta {
        Metadata::General(header) => {
            assert_eq!(header.common_meta.tran_type, ToHostWorkRbDescTransType::Rc);
            assert_eq!(
                header.common_meta.opcode,
                ToHostWorkRbDescOpcode::RdmaWriteLastWithImmediate
            );
            assert!(header.common_meta.solicited);
            assert_eq!(header.common_meta.dqpn, 1);
            assert!(!header.common_meta.ack_req);
            assert_eq!(header.common_meta.psn, 1);
            assert_eq!(header.common_meta.pkey, 0x1234);
            assert_eq!(header.reth.va, 0x1234567812345678);
            assert_eq!(header.reth.rkey, 0x12345678);
            assert_eq!(header.reth.len, 0x12345678);
            assert_eq!(message.payload.get_length(), 512);
            assert_eq!(header.imm.unwrap(), u32::from_le_bytes([1u8; IMM_SIZE]));
        }
        _ => panic!("wrong meta data"),
    }
    let mut new_buf = vec![0u8; BTH_SIZE + RETH_SIZE + IMM_SIZE + 512];
    let size = PacketProcessor::set_from_rdma_message(&mut new_buf, &message).unwrap();
    assert!(size == BTH_SIZE + RETH_SIZE + IMM_SIZE);
    assert!(buf[..size] == new_buf[..size]);
}

#[test]
fn test_header_bth_reth_reth() {
    let mut buf = Vec::new();
    base_bth(ToHostWorkRbDescOpcode::RdmaReadRequest, 0x1234).write_to(&mut buf);
    buf.extend(reth_bytes(0x1234567812345678, 0x12345678_u32, 0x12345678));
    buf.extend(reth_bytes(0x1234567812345678, 0x12345678_u32, 0x12345678));
    let message = PacketProcessor::to_rdma_message(&buf).unwrap();
    let meta = &message.meta_data;
    match meta {
        Metadata::General(header) => {
            assert_eq!(header.common_meta.tran_type, ToHostWorkRbDescTransType::Rc);
            assert_eq!(header.common_meta.opcode, ToHostWorkRbDescOpcode::RdmaReadRequest);
            assert!(header.common_meta.solicited);
            assert_eq!(header.common_meta.dqpn, 1);
            assert!(!header.common_meta.ack_req);
            assert_eq!(header.common_meta.psn, 1);
            assert_eq!(header.common_meta.pkey, 0x1234);
            assert_eq!(header.reth.va, 0x1234567812345678);
            assert_eq!(header.reth.rkey, 0x12345678);
            assert_eq!(header.reth.len, 0x12345678);
            assert_eq!(message.payload.get_length(), 0);
            let secondary_reth = header.secondary_reth.as_ref().unwrap();
            assert_eq!(secondary_reth.va, 0x1234567812345678);
            assert_eq!(secondary_reth.rkey, 0x12345678);
            assert_eq!(secondary_reth.len, 0x12345678);
        }
        _ => panic!("wrong meta data"),
    }
    let mut new_buf = vec![0u8; BTH_SIZE + RETH_SIZE + RETH_SIZE + 512];
    let size = PacketProcessor::set_from_rdma_message(&mut new_buf, &message).unwrap();
    assert!(size == BTH_SIZE + RETH_SIZE + RETH_SIZE);
    assert!(buf[..size] == new_buf[..size]);
}

#[test]
fn test_header_bth_aeth() {
    let mut buf = Vec::new();
    base_bth(ToHostWorkRbDescOpcode::Acknowledge, 1).write_to(&mut buf);
    let mut aeth = AETH::from_bytes(&[0u8; AETH_SIZE]);
    aeth.set_aeth_code_and_value(2, 5);
    aeth.set_msn(0x123456);
    aeth.write_to(&mut buf);
    let message = PacketProcessor::to_rdma_message(&buf).unwrap();
    let meta = &message.meta_data;
    match meta {
        Metadata::Acknowledge(header) => {
            assert_eq!(header.common_meta.tran_type, ToHostWorkRbDescTransType::Rc);
            assert_eq!(header.common_meta.opcode, ToHostWorkRbDescOpcode::Acknowledge);
            assert!(header.common_meta.solicited);
            assert_eq!(header.common_meta.dqpn, 1);
            assert!(!header.common_meta.ack_req);
            assert_eq!(header.common_meta.psn, 1);
            assert_eq!(header.msn, 0x123456);
            assert_eq!(header.aeth_code.clone() as u8, 2);
            assert_eq!(header.aeth_value, 5);
        }
        _ => panic!("wrong meta data"),
    }
    let mut new_buf = vec![0u8; BTH_SIZE + AETH_SIZE];
    let size = PacketProcessor::set_from_rdma_message(&mut new_buf, &message).unwrap();
    assert!(size == BTH_SIZE + AETH_SIZE);
    assert!(buf[..size] == new_buf[..size]);
}

#[test]
fn test_payload_copy_to() {
    // test one source
    {
        let mut payload = PayloadInfo::new();
        let src_buf = [1u8; 512];
        let mut dest_buf = vec![0u8; 512];
        payload.add(&src_buf);
        payload.copy_to(&mut dest_buf);
        assert_eq!(src_buf[..], dest_buf[..]);
    }

    // test multiple source
    {
        let mut payload = PayloadInfo::new();
        let src_buf1 = [1u8; 128];
        let src_buf2 = [2u8; 128];
        let src_buf3 = [3u8; 128];
        let src_buf4 = [4u8; 128];
        let mut dest_buf = vec![0u8; 512];
        payload.add(&src_buf1);
        payload.add(&src_buf2);
        payload.add(&src_buf3);
        payload.add(&src_buf4);

        payload.copy_to(&mut dest_buf);
        assert_eq!(src_buf1, dest_buf[..128]);
        assert_eq!(src_buf2, dest_buf[128..256]);
        assert_eq!(src_buf3, dest_buf[256..384]);
        assert_eq!(src_buf4, dest_buf[384..512]);
    }
}

fn write_first_message(payload: PayloadInfo) -> RdmaMessage {
    RdmaMessage {
        meta_data: Metadata::General(RdmaGeneralMeta {
            common_meta: RdmaMessageMetaCommon {
                tran_type: ToHostWorkRbDescTransType::Rc,
                opcode: ToHostWorkRbDescOpcode::RdmaWriteFirst,
                solicited: false,
                pkey: 0,
                dqpn: 3,
                ack_req: false,
                psn: 0x123456,
            },
            reth: RethHeader {
                va: 0x1234567812345678,
                rkey: 0x12345678,
                len: 0x12345678,
            },
            imm: None,
            secondary_reth: None,
        }),
        payload,
    }
}

#[test]
fn test_pkt_processor_to_buf() {
    let mut payload = PayloadInfo::new();
    const DATA_SIZE: usize = 512;
    let data_buf = [1u8; DATA_SIZE];
    payload.add(&data_buf);
    let msg = write_first_message(payload);
    let mut buf = vec![0u8; 4096];
    let size = PacketProcessor::set_from_rdma_message(&mut buf, &msg).unwrap();
    assert!(size == BTH_SIZE + RETH_SIZE);
    // read bth
    let bth = BTH::from_bytes(&buf);
    assert_eq!(bth.get_opcode(), ToHostWorkRbDescOpcode::RdmaWriteFirst.to_u8());
    assert_eq!(bth.get_destination_qpn(), 3);
    assert_eq!(bth.get_psn(), 0x123456);
    assert!(!bth.get_ack_req());
    assert_eq!(bth.get_pkey(), 0);
    // read reth
    let reth = RETH::from_bytes(&buf[BTH_SIZE..]);
    assert_eq!(reth.get_va(), 0x1234567812345678);
    assert_eq!(reth.get_rkey(), 0x12345678);
    assert_eq!(reth.get_dlen(), 0x12345678);
}

#[test]
fn packet_bytes_round_trip_with_padding() {
    let payload = PayloadInfo::new_with_data(&[9u8, 8, 7, 6, 5]);
    let msg = write_first_message(payload);
    let bytes = PacketProcessor::to_packet_bytes(&msg).unwrap();
    assert_eq!(bytes.len(), 28 + 5 + 3);
    let bth = BTH::from_bytes(&bytes);
    assert_eq!(bth.get_pad_cnt(), 3);
    let back = PacketProcessor::to_rdma_message(&bytes).unwrap();
    assert_eq!(back.meta_data, msg.meta_data);
    assert_eq!(back.payload.as_slice(), &[9u8, 8, 7, 6, 5]);
}

#[test]
fn ack_round_trip_keeps_code_value_and_msn() {
    let meta = Metadata::Acknowledge(AethHeader {
        common_meta: RdmaMessageMetaCommon {
            tran_type: ToHostWorkRbDescTransType::Rc,
            opcode: ToHostWorkRbDescOpcode::Acknowledge,
            solicited: false,
            pkey: 0xffff,
            dqpn: 0xABCDEF,
            ack_req: true,
            psn: 0xFFFFFF,
        },
        aeth_code: ToHostWorkRbDescAethCode::Nak,
        aeth_value: 31,
        msn: 0x000001,
    });
    let msg = RdmaMessage { meta_data: meta, payload: PayloadInfo::new() };
    let bytes = PacketProcessor::to_packet_bytes(&msg).unwrap();
    assert_eq!(bytes.len(), 16);
    assert_eq!(bytes[4], 0);
    let back = PacketProcessor::to_rdma_message(&bytes).unwrap();
    assert_eq!(back.meta_data, meta);
}

#[test]
fn bth_setters_pack_fields() {
    let mut bth = BTH::new();
    bth.set_opcode_and_type(ToHostWorkRbDescOpcode::Acknowledge, ToHostWorkRbDescTransType::Xrc);
    bth.set_pad_cnt(3);
    bth.set_flags_solicited(true);
    bth.set_destination_qpn(0x1FF_FFFF);
    bth.set_psn(0x1_000_002);
    bth.set_ack_req(true);
    let mut bytes = Vec::new();
    bth.write_to(&mut bytes);
    assert_eq!(bytes, vec![0xB1, 0xE0, 0, 0, 0, 0xFF, 0xFF, 0xFF, 0x80, 0, 0, 2]);
    assert_eq!(bth.get_transaction_type(), 5);
    assert_eq!(bth.get_pad_cnt(), 3);
    assert_eq!(bth.get_packet_real_length(10), 7);
    bth.fill_ecn_and_resv6();
    assert_eq!(bth.destination_qpn[0], 0xff);
    assert_eq!(bth.get_destination_qpn(), 0xFF_FFFF);
}

#[test]
fn aeth_code_is_taken_modulo_four() {
    let mut aeth = AETH::new();
    aeth.set_aeth_code_and_value(6, 1);
    assert_eq!(aeth.get_aeth_code(), 2);
    assert_eq!(aeth.get_aeth_value(), 1);
    assert_eq!(ToHostWorkRbDescAethCode::from_u8(4), Err(PacketError::FailedToConvertAethCode));
    assert_eq!(ToHostWorkRbDescAethCode::from_u8(1), Ok(ToHostWorkRbDescAethCode::Rnr));
}

#[test]
fn codec_errors() {
    // opcode 0 is not handled
    let buf = vec![0u8; 40];
    assert_eq!(PacketProcessor::to_rdma_message(&buf).unwrap_err(), PacketError::InvalidOpcode);
    // transaction type 7 does not exist
    let mut buf = vec![0u8; 40];
    buf[0] = (7 << 5) | 0x0a;
    assert_eq!(
        PacketProcessor::to_rdma_message(&buf).unwrap_err(),
        PacketError::FailedToConvertTransType
    );
    // too short for any header
    assert_eq!(
        PacketProcessor::to_rdma_message(&[0x0a; 5]).unwrap_err(),
        PacketError::BufferTooShort
    );
    // a read request needs two extended headers
    let mut buf = vec![0u8; 30];
    buf[0] = 0x0c;
    assert_eq!(PacketProcessor::to_rdma_message(&buf).unwrap_err(), PacketError::BufferTooShort);
    // an acknowledge opcode with general metadata
    let mut msg = write_first_message(PayloadInfo::new());
    if let Metadata::General(g) = &mut msg.meta_data {
        g.common_meta.opcode = ToHostWorkRbDescOpcode::Acknowledge;
    }
    assert_eq!(
        PacketProcessor::to_packet_bytes(&msg).unwrap_err(),
        PacketError::InvalidMetadataType
    );
    // a write with immediate but no immediate value
    let mut msg = write_first_message(PayloadInfo::new());
    if let Metadata::General(g) = &mut msg.meta_data {
        g.common_meta.opcode = ToHostWorkRbDescOpcode::RdmaWriteOnlyWithImmediate;
    }
    assert_eq!(
        PacketProcessor::to_packet_bytes(&msg).unwrap_err(),
        PacketError::InvalidMetadataType
    );
    // buffer too small for the headers
    let msg = write_first_message(PayloadInfo::new());
    let mut small = vec![0u8; 10];
    assert_eq!(
        PacketProcessor::set_from_rdma_message(&mut small, &msg).unwrap_err(),
        PacketError::BufferTooShort
    );
    assert_eq!(small, vec![0u8; 10]);
}

#[test]
fn qp_type_maps_to_transport() {
    assert_eq!(ToHostWorkRbDescTransType::from(QpType::RawPacket), ToHostWorkRbDescTransType::Rc);
    assert_eq!(ToHostWorkRbDescTransType::from(QpType::Uc), ToHostWorkRbDescTransType::Uc);
    assert_eq!(ToHostWorkRbDescTransType::from(QpType::Ud), ToHostWorkRbDescTransType::Ud);
    assert_eq!(ToHostWorkRbDescTransType::from(QpType::XrcRecv), ToHostWorkRbDescTransType::Xrc);
}
