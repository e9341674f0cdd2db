use open_rdma_driver::error::{AddressKind, CtrlOpKind, Error, Resource};
use open_rdma_driver::mr::{get_key_index, make_key, page_count, Device, Key, MrSlot};
use open_rdma_driver::pgt::{MrPgt, MrPgtFreeBlk};
use open_rdma_driver::MR_PGT_SIZE;

const PG: u32 = 2 * 1024 * 1024;
const PGT_PA: u64 = 0x1000_0000;

fn pas_for(len: u32) -> Vec<u64> {
    (0..page_count(len, PG) as u64).map(|i| 0x4000_0000 + i * PG as u64).collect()
}

#[test]
fn key_holds_slot_index_and_tag() {
    let key = make_key(5, 0xABCD_EF12);
    assert_eq!(key.get(), (5 << 24) | 0x00AB_CDEF);
    assert_eq!(get_key_index(key), 5);
    assert_eq!(get_key_index(Key::new(0xFF00_0000)), 0xFF);
}

#[test]
fn pgt_alloc_is_first_fit() {
    let mut pgt = MrPgt::new();
    assert_eq!(pgt.allocate(10), Ok(0));
    assert_eq!(pgt.allocate(5), Ok(10));
    pgt.dealloc(0, 10);
    assert_eq!(pgt.allocate(4), Ok(0));
    assert_eq!(pgt.allocate(7), Ok(15));
    assert_eq!(pgt.allocate(MR_PGT_SIZE), Err(Error::ResourceNoAvailable(Resource::MrPageTable)));
}

#[test]
fn pgt_coalesces_back_to_one_block() {
    let mut pgt = MrPgt::new();
    let a = pgt.allocate(3).unwrap();
    let b = pgt.allocate(4).unwrap();
    let c = pgt.allocate(5).unwrap();
    pgt.dealloc(b, 4);
    assert_eq!(pgt.free_blocks().len(), 2);
    pgt.dealloc(a, 3);
    pgt.dealloc(c, 5);
    assert_eq!(pgt.free_blocks(), &vec![MrPgtFreeBlk { idx: 0, len: MR_PGT_SIZE }]);
    let all = pgt.allocate(MR_PGT_SIZE).unwrap();
    assert_eq!(all, 0);
    assert!(pgt.free_blocks().is_empty());
    pgt.dealloc(0, MR_PGT_SIZE);
    assert_eq!(pgt.free_blocks(), &vec![MrPgtFreeBlk { idx: 0, len: MR_PGT_SIZE }]);
}

#[test]
fn pgt_entries_are_written() {
    let mut pgt = MrPgt::new();
    pgt.set_entry(7, 0xdead_0000);
    assert_eq!(pgt.get_entry(7), 0xdead_0000);
    assert_eq!(pgt.get_entry(8), 0);
}

#[test]
fn register_and_deregister() {
    let mut dev = Device::new(PGT_PA);
    let pd = dev.alloc_pd();
    let len = 3 * PG;
    let (pending, desc) = dev.reg_mr(pd, 0x20_0000, len, PG, 7, &pas_for(len)).unwrap();
    assert_eq!(desc.pgt_idx, 0);
    assert_eq!(desc.pgte_cnt, 3);
    assert_eq!(desc.start_addr, PGT_PA);
    assert_eq!(pending.mr_idx, 0);
    let mr_desc = dev.reg_mr_page_table_done(pending, Some(true)).unwrap();
    assert_eq!(mr_desc.op_id, desc.op_id + 1);
    assert_eq!(mr_desc.len, len);
    assert_eq!(mr_desc.pd_hdl, pd.handle);
    assert_eq!(mr_desc.acc_flags, 7);
    let mr = dev.reg_mr_finish(pending, Some(true)).unwrap();
    assert_eq!(mr.get_key().get(), mr_desc.key);
    assert_eq!(get_key_index(mr.get_key()), 0);

    let clear = dev.dereg_mr(mr).unwrap();
    assert_eq!(clear.key, mr.get_key().get());
    assert_eq!(clear.len, 0);
    assert_eq!(dev.dereg_mr_finish(mr, Some(true)), Ok(()));
    assert_eq!(dev.dereg_mr(mr), Err(Error::InvalidMr(0)));
}

#[test]
fn keys_of_two_registrations_name_different_slots() {
    let mut dev = Device::new(PGT_PA);
    let pd = dev.alloc_pd();
    let (first, _) = dev.reg_mr(pd, 0, PG, PG, 0, &pas_for(PG)).unwrap();
    let (second, second_desc) = dev.reg_mr(pd, 0, PG, PG, 0, &pas_for(PG)).unwrap();
    assert_ne!(first.mr_idx, second.mr_idx);
    assert_eq!(second_desc.pgt_idx, 1);
    let first_mr = dev.reg_mr_finish(first, Some(true)).unwrap();
    let second_mr = dev.reg_mr_finish(second, Some(true)).unwrap();
    assert_ne!(get_key_index(first_mr.get_key()), get_key_index(second_mr.get_key()));
}

#[test]
fn reg_mr_errors() {
    let mut dev = Device::new(PGT_PA);
    let pd = dev.alloc_pd();
    let bad_pd = open_rdma_driver::mr::Pd { handle: 99 };
    assert_eq!(dev.reg_mr(bad_pd, 0, PG, PG, 0, &pas_for(PG)).unwrap_err(), Error::InvalidPd(99));
    assert_eq!(
        dev.reg_mr(pd, 0, 4096, 4096, 0, &vec![0]).unwrap_err(),
        Error::InvalidPageSize(4096)
    );
    assert_eq!(
        dev.reg_mr(pd, 0x1000, PG, PG, 0, &pas_for(PG)).unwrap_err(),
        Error::AddressNotAlign(AddressKind::Va, 0x1000)
    );
    assert_eq!(
        dev.reg_mr(pd, 0, PG, PG, 0, &vec![0x4000_1000]).unwrap_err(),
        Error::AddressNotAlign(AddressKind::Pa, 0x4000_1000)
    );
    assert_eq!(
        dev.reg_mr(pd, u64::MAX - (PG as u64 - 1), 2 * PG, PG, 0, &pas_for(2 * PG)).unwrap_err(),
        Error::NotSupport
    );
    // failures leave the table as it was
    assert!((0..64).all(|i| dev.mr_slot(i) == MrSlot::Free));
}

#[test]
fn device_failures_roll_back() {
    let mut dev = Device::new(PGT_PA);
    let pd = dev.alloc_pd();
    let (p, _) = dev.reg_mr(pd, 0, PG, PG, 0, &pas_for(PG)).unwrap();
    assert_eq!(
        dev.reg_mr_page_table_done(p, Some(false)).unwrap_err(),
        Error::DeviceReturnFailed(CtrlOpKind::UpdatePageTable)
    );
    assert_eq!(dev.reg_mr_finish(p, Some(true)).unwrap_err(), Error::InvalidMr(0));
    let (p, d) = dev.reg_mr(pd, 0, PG, PG, 0, &pas_for(PG)).unwrap();
    assert_eq!(d.pgt_idx, 0);
    assert_eq!(dev.reg_mr_finish(p, None).unwrap_err(), Error::SetCtxResultFailed);
    let (p, _) = dev.reg_mr(pd, 0, PG, PG, 0, &pas_for(PG)).unwrap();
    assert_eq!(
        dev.reg_mr_finish(p, Some(false)).unwrap_err(),
        Error::DeviceReturnFailed(CtrlOpKind::RegisterMrTable)
    );
    let (p, _) = dev.reg_mr(pd, 0, PG, PG, 0, &pas_for(PG)).unwrap();
    let mr = dev.reg_mr_finish(p, Some(true)).unwrap();
    dev.dereg_mr(mr).unwrap();
    assert_eq!(
        dev.dereg_mr_finish(mr, Some(false)),
        Err(Error::DeviceReturnFailed(CtrlOpKind::DeregisterMrTable))
    );
    assert_eq!(dev.dereg_mr_finish(mr, None), Err(Error::SetCtxResultFailed));
}

#[test]
fn table_runs_out_of_slots() {
    let mut dev = Device::new(PGT_PA);
    let pd = dev.alloc_pd();
    for _ in 0..64 {
        let (p, _) = dev.reg_mr(pd, 0, PG, PG, 0, &pas_for(PG)).unwrap();
        dev.reg_mr_finish(p, Some(true)).unwrap();
    }
    assert_eq!(
        dev.reg_mr(pd, 0, PG, PG, 0, &pas_for(PG)).unwrap_err(),
        Error::ResourceNoAvailable(Resource::Mr)
    );
}
