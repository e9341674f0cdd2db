//! Control-ring responses and the operation contexts that wait for them.
//! Responses are matched to their operation by id, not by arrival order.
use vstd::prelude::*;

use std::collections::HashMap;

verus! {

/// Fields that every control response carries.
#[derive(Debug, Clone, Copy, PartialEq, Eq, Structural)]
pub struct ToHostCtrlRbDescCommon {
    pub op_id: u32,
    pub is_success: bool,
}

#[derive(Debug, Clone, Copy, PartialEq, Eq, Structural)]
pub struct ToHostCtrlRbDescUpdateMrTable {
    pub common: ToHostCtrlRbDescCommon,
}

#[derive(Debug, Clone, Copy, PartialEq, Eq, Structural)]
pub struct ToHostCtrlRbDescUpdatePageTable {
    pub common: ToHostCtrlRbDescCommon,
}

#[derive(Debug, Clone, Copy, PartialEq, Eq, Structural)]
pub struct ToHostCtrlRbDescQpManagement {
    pub common: ToHostCtrlRbDescCommon,
}

#[derive(Debug, Clone, Copy, PartialEq, Eq, Structural)]
pub struct ToHostCtrlRbDescSetNetworkParam {
    pub common: ToHostCtrlRbDescCommon,
}

#[derive(Debug, Clone, Copy, PartialEq, Eq, Structural)]
pub struct ToHostCtrlRbDescSetRawPacketReceiveMeta {
    pub common: ToHostCtrlRbDescCommon,
}

/// A response on the to-host control ring.
#[derive(Debug, Clone, Copy, PartialEq, Eq, Structural)]
pub enum ToHostCtrlRbDesc {
    UpdateMrTable(ToHostCtrlRbDescUpdateMrTable),
    UpdatePageTable(ToHostCtrlRbDescUpdatePageTable),
    QpManagement(ToHostCtrlRbDescQpManagement),
    SetNetworkParam(ToHostCtrlRbDescSetNetworkParam),
    SetRawPacketReceiveMeta(ToHostCtrlRbDescSetRawPacketReceiveMeta),
}

/// The common fields of a response.
pub open spec fn ctrl_desc_common(d: ToHostCtrlRbDesc) -> ToHostCtrlRbDescCommon {
    match d {
        ToHostCtrlRbDesc::UpdateMrTable(x) => x.common,
        ToHostCtrlRbDesc::UpdatePageTable(x) => x.common,
        ToHostCtrlRbDesc::QpManagement(x) => x.common,
        ToHostCtrlRbDesc::SetNetworkParam(x) => x.common,
        ToHostCtrlRbDesc::SetRawPacketReceiveMeta(x) => x.common,
    }
}

/// What became of a response.
#[derive(Debug, Clone, Copy, PartialEq, Eq, Structural)]
pub enum SetResultOutcome {
    /// The waiting context got the result.
    Delivered,
    /// The context had a result already; the response is dropped.
    AlreadySet,
    /// No context waits for this id; the response is dropped.
    NoContext,
}

/// The contexts after a response with `op_id` and `ok`, and what became of it.
pub open spec fn set_result_spec(m: Map<u32, Option<bool>>, op_id: u32, ok: bool) -> (
    Map<u32, Option<bool>>,
    SetResultOutcome,
) {
    if !m.contains_key(op_id) {
        (m, SetResultOutcome::NoContext)
    } else if m[op_id] is Some {
        (m, SetResultOutcome::AlreadySet)
    } else {
        (m.insert(op_id, Some(ok)), SetResultOutcome::Delivered)
    }
}

/// The pending control operations, by id: `None` until the device answers.
#[derive(Debug)]
pub struct CtrlOpCtxMap {
    map: HashMap<u32, Option<bool>>,
}

impl View for CtrlOpCtxMap {
    type V = Map<u32, Option<bool>>;

    closed spec fn view(&self) -> Map<u32, Option<bool>> {
        self.map@
    }
}

impl CtrlOpCtxMap {
    /// No pending operation.
    pub fn new() -> (r: CtrlOpCtxMap)
        ensures
            r@ == Map::<u32, Option<bool>>::empty(),
    {
        CtrlOpCtxMap { map: HashMap::new() }
    }

    /// Installs a context for `op_id` that waits for its result.
    pub fn insert_ctx(&mut self, op_id: u32)
        ensures
            final(self)@ == old(self)@.insert(op_id, None),
    {
        self.map.insert(op_id, None);
    }

    /// The context of `op_id`, if one is installed.
    pub fn get_result(&self, op_id: u32) -> (r: Option<Option<bool>>)
        ensures
            self@.contains_key(op_id) ==> r == Some(self@[op_id]),
            !self@.contains_key(op_id) ==> r is None,
    {
        match self.map.get(&op_id) {
            Some(v) => Some(*v),
            None => None,
        }
    }

    /// Removes the context of `op_id` and returns it.
    pub fn remove_ctx(&mut self, op_id: u32) -> (r: Option<Option<bool>>)
        ensures
            final(self)@ == old(self)@.remove(op_id),
            old(self)@.contains_key(op_id) ==> r == Some(old(self)@[op_id]),
            !old(self)@.contains_key(op_id) ==> r is None,
    {
        self.map.remove(&op_id)
    }

    /// Publishes the result of `op_id` to its context, if it waits for one.
    pub fn set_result(&mut self, op_id: u32, ok: bool) -> (r: SetResultOutcome)
        ensures
            (final(self)@, r) == set_result_spec(old(self)@, op_id, ok),
    {
        match self.get_result(op_id) {
            None => SetResultOutcome::NoContext,
            Some(Some(_)) => SetResultOutcome::AlreadySet,
            Some(None) => {
                self.map.insert(op_id, Some(ok));
                SetResultOutcome::Delivered
            },
        }
    }
}

/// What the control poller works on: the contexts of pending operations.
#[derive(Debug)]
pub struct ControlPollerContext {
    pub ctrl_op_ctx_map: CtrlOpCtxMap,
}

impl ControlPollerContext {
    /// Hands one response to its context.
    pub fn handle_ctrl_desc(&mut self, desc: &ToHostCtrlRbDesc) -> (r: SetResultOutcome)
        ensures
            (final(self).ctrl_op_ctx_map@, r) == set_result_spec(
                old(self).ctrl_op_ctx_map@,
                ctrl_desc_common(*desc).op_id,
                ctrl_desc_common(*desc).is_success,
            ),
    {
        match desc {
            ToHostCtrlRbDesc::UpdateMrTable(d) => self.handle_ctrl_desc_update_mr_table(d),
            ToHostCtrlRbDesc::UpdatePageTable(d) => self.handle_ctrl_desc_update_page_table(d),
            ToHostCtrlRbDesc::QpManagement(d) => self.handle_ctrl_desc_qp_management(d),
            ToHostCtrlRbDesc::SetNetworkParam(d) => self.handle_ctrl_desc_network_management(d),
            ToHostCtrlRbDesc::SetRawPacketReceiveMeta(d) => self.handle_ctrl_desc_raw_packet_receive_meta(d),
        }
    }

    pub fn handle_ctrl_desc_update_mr_table(&mut self, desc: &ToHostCtrlRbDescUpdateMrTable) -> (r:
        SetResultOutcome)
        ensures
            (final(self).ctrl_op_ctx_map@, r) == set_result_spec(
                old(self).ctrl_op_ctx_map@,
                desc.common.op_id,
                desc.common.is_success,
            ),
    {
        self.ctrl_op_ctx_map.set_result(desc.common.op_id, desc.common.is_success)
    }

    pub fn handle_ctrl_desc_update_page_table(&mut self, desc: &ToHostCtrlRbDescUpdatePageTable) -> (r:
        SetResultOutcome)
        ensures
            (final(self).ctrl_op_ctx_map@, r) == set_result_spec(
                old(self).ctrl_op_ctx_map@,
                desc.common.op_id,
                desc.common.is_success,
            ),
    {
        self.ctrl_op_ctx_map.set_result(desc.common.op_id, desc.common.is_success)
    }

    pub fn handle_ctrl_desc_qp_management(&mut self, desc: &ToHostCtrlRbDescQpManagement) -> (r:
        SetResultOutcome)
        ensures
            (final(self).ctrl_op_ctx_map@, r) == set_result_spec(
                old(self).ctrl_op_ctx_map@,
                desc.common.op_id,
                desc.common.is_success,
            ),
    {
        self.ctrl_op_ctx_map.set_result(desc.common.op_id, desc.common.is_success)
    }

    pub fn handle_ctrl_desc_network_management(&mut self, desc: &ToHostCtrlRbDescSetNetworkParam) -> (r:
        SetResultOutcome)
        ensures
            (final(self).ctrl_op_ctx_map@, r) == set_result_spec(
                old(self).ctrl_op_ctx_map@,
                desc.common.op_id,
                desc.common.is_success,
            ),
    {
        self.ctrl_op_ctx_map.set_result(desc.common.op_id, desc.common.is_success)
    }

    pub fn handle_ctrl_desc_raw_packet_receive_meta(
        &mut self,
        desc: &ToHostCtrlRbDescSetRawPacketReceiveMeta,
    ) -> (r: SetResultOutcome)
        ensures
            (final(self).ctrl_op_ctx_map@, r) == set_result_spec(
                old(self).ctrl_op_ctx_map@,
                desc.common.op_id,
                desc.common.is_success,
            ),
    {
        self.ctrl_op_ctx_map.set_result(desc.common.op_id, desc.common.is_success)
    }
}

} // verus!
