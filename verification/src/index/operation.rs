//! Records for index-level operations: the acknowledgement of a copy
//! or move request, and the outcome of the operation itself.

use crate::error::{invalid_type_error, invalid_type_msg, DecodeError};
use crate::index::{dec_req_str, dec_req_time, dec_req_u64, get_req_str, get_req_time, get_req_u64};
use crate::index::settings::{dec_opt_strlist, get_opt_strlist, ovw_strlist};
use crate::json::{lookup, obj_model, JsonModel, JsonValue};
use crate::time::Timestamp;
use vstd::prelude::*;

verus! {

/// Acknowledgement of an index-level operation: what was done and
/// toward which index, with the optional scope it was limited to.
#[derive(Debug, Clone)]
pub struct IndexOperationResponse {
    pub operation: String,
    pub destination: String,
    pub scope: Option<Vec<String>>,
}

/// Outcome of an index-level operation.
#[derive(Debug, Clone)]
pub struct IndexOperationResult {
    pub deleted_at: Timestamp,
    pub task_id: u64,
}

/// Strict decoding of an operation acknowledgement body.
pub fn decode_index_operation_response(v: &JsonValue) -> (r: Result<
    IndexOperationResponse,
    DecodeError,
>)
    ensures
        (v@ !is Obj) ==> (r matches Result::Err(e) && e@ == invalid_type_msg(
            v@,
            "struct IndexOperationResponse"@,
        )),
        v@ matches JsonModel::Obj(fields) ==> {
            let d_operation = dec_req_str(lookup(fields, "operation"@), "operation"@);
            let d_destination = dec_req_str(lookup(fields, "destination"@), "destination"@);
            let d_scope = dec_opt_strlist(lookup(fields, "scope"@));
            &&& (r is Ok <==> d_operation is Ok && d_destination is Ok && d_scope is Ok)
            &&& (r matches Result::Ok(x) ==> d_operation == Result::Ok::<Seq<char>, Seq<char>>(
                x.operation@,
            ) && d_destination == Result::Ok::<Seq<char>, Seq<char>>(x.destination@) && d_scope
                == Result::Ok::<Option<Seq<Seq<char>>>, Seq<char>>(ovw_strlist(x.scope)))
            &&& (r matches Result::Err(e) ==> e@ == (if d_operation is Err {
                d_operation->Err_0
            } else if d_destination is Err {
                d_destination->Err_0
            } else {
                d_scope->Err_0
            }))
        },
{
    let fields = match v {
        JsonValue::Obj(fields) => fields,
        other => {
            return Result::Err(invalid_type_error(other, "struct IndexOperationResponse"));
        },
    };
    let f_operation = match get_req_str(fields, "operation") {
        Result::Ok(s) => s,
        Result::Err(e) => {
            return Result::Err(e);
        },
    };
    let f_destination = match get_req_str(fields, "destination") {
        Result::Ok(s) => s,
        Result::Err(e) => {
            return Result::Err(e);
        },
    };
    let f_scope = match get_opt_strlist(fields, "scope") {
        Result::Ok(v) => v,
        Result::Err(e) => {
            return Result::Err(e);
        },
    };
    Result::Ok(
        IndexOperationResponse {
            operation: f_operation,
            destination: f_destination,
            scope: f_scope,
        },
    )
}

/// Strict decoding of an operation outcome body.
pub fn decode_index_operation_result(v: &JsonValue) -> (r: Result<
    IndexOperationResult,
    DecodeError,
>)
    ensures
        (v@ !is Obj) ==> (r matches Result::Err(e) && e@ == invalid_type_msg(
            v@,
            "struct IndexOperationResult"@,
        )),
        v@ matches JsonModel::Obj(fields) ==> {
            let d_deleted = dec_req_time(lookup(fields, "deletedAt"@), "deletedAt"@);
            let d_task = dec_req_u64(lookup(fields, "taskID"@), "taskID"@);
            &&& (r is Ok <==> d_deleted is Ok && d_task is Ok)
            &&& (r matches Result::Ok(x) ==> d_deleted == Result::Ok::<i64, Seq<char>>(
                x.deleted_at.epoch_millis,
            ) && d_task == Result::Ok::<u64, Seq<char>>(x.task_id))
            &&& (r matches Result::Err(e) ==> e@ == (if d_deleted is Err {
                d_deleted->Err_0
            } else {
                d_task->Err_0
            }))
        },
{
    let fields = match v {
        JsonValue::Obj(fields) => fields,
        other => {
            return Result::Err(invalid_type_error(other, "struct IndexOperationResult"));
        },
    };
    let f_deleted = match get_req_time(fields, "deletedAt") {
        Result::Ok(t) => t,
        Result::Err(e) => {
            return Result::Err(e);
        },
    };
    let f_task = match get_req_u64(fields, "taskID") {
        Result::Ok(n) => n,
        Result::Err(e) => {
            return Result::Err(e);
        },
    };
    Result::Ok(IndexOperationResult { deleted_at: f_deleted, task_id: f_task })
}

} // verus!
