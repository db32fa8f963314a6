//! The status record of an asynchronous index task.

use crate::error::{invalid_type_error, invalid_type_msg, DecodeError};
use crate::index::{dec_req_bool, dec_req_str, get_req_bool, get_req_str};
use crate::json::{lookup, obj_model, JsonModel, JsonValue};
use vstd::prelude::*;

verus! {

/// The reported state of an asynchronous task.
#[derive(Debug, Clone)]
pub struct TaskStatus {
    pub status: String,
    pub pending_task: bool,
}

/// Strict decoding of a task status body.
pub fn decode_task_status(v: &JsonValue) -> (r: Result<TaskStatus, DecodeError>)
    ensures
        (v@ !is Obj) ==> (r matches Result::Err(e) && e@ == invalid_type_msg(
            v@,
            "struct TaskStatus"@,
        )),
        v@ matches JsonModel::Obj(fields) ==> {
            let d_status = dec_req_str(lookup(fields, "status"@), "status"@);
            let d_pending = dec_req_bool(lookup(fields, "pendingTask"@), "pendingTask"@);
            &&& (r is Ok <==> d_status is Ok && d_pending is Ok)
            &&& (r matches Result::Ok(x) ==> d_status == Result::Ok::<Seq<char>, Seq<char>>(
                x.status@,
            ) && d_pending == Result::Ok::<bool, Seq<char>>(x.pending_task))
            &&& (r matches Result::Err(e) ==> e@ == (if d_status is Err {
                d_status->Err_0
            } else {
                d_pending->Err_0
            }))
        },
{
    let fields = match v {
        JsonValue::Obj(fields) => fields,
        other => {
            return Result::Err(invalid_type_error(other, "struct TaskStatus"));
        },
    };
    let f_status = match get_req_str(fields, "status") {
        Result::Ok(s) => s,
        Result::Err(e) => {
            return Result::Err(e);
        },
    };
    let f_pending = match get_req_bool(fields, "pendingTask") {
        Result::Ok(b) => b,
        Result::Err(e) => {
            return Result::Err(e);
        },
    };
    Result::Ok(TaskStatus { status: f_status, pending_task: f_pending })
}

} // verus!
