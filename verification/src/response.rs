//! Reading the timestamps out of a function's JSON response.
use vstd::prelude::*;
use crate::metric::{FieldValue, Metric, ResponseFields, field_usable};

verus! {

/// Marks responses that carry call metrics.
pub trait RespMetricExt {}

/// What the JSON text `output` holds under `key`: `None` when `output` is not
/// JSON; `Some(None)` when it has no such field (a non-object has none);
/// `Some(Some(None))` when the field is not an unsigned 64-bit integer;
/// `Some(Some(Some(n)))` when it is `n`.
pub uninterp spec fn json_u64_field(output: Seq<char>, key: Seq<char>) -> Option<Option<Option<u64>>>;

/// Parses `output` with `serde_json::from_str` into a `serde_json::Value`,
/// then reads `key` with `Value::get` and the field with `Value::as_u64`.
/// Claimed: the result is `json_u64_field` of the text and the key, a function
/// of the two alone; `None` exactly when parsing fails.
#[verifier::external_body]
fn read_json_u64_field(output: &str, key: &str) -> (r: Option<Option<Option<u64>>>)
    ensures
        r == json_u64_field(output@, key@),
{
    match serde_json::from_str::<serde_json::Value>(output) {
        Ok(v) => Some(v.get(key).map(serde_json::Value::as_u64)),
        Err(_) => None,
    }
}

/// A read field as a timestamp field.
pub open spec fn field_of(raw: Option<Option<u64>>) -> FieldValue {
    match raw {
        None => FieldValue::Absent,
        Some(Some(n)) => FieldValue::Number(n),
        Some(None) => FieldValue::Invalid,
    }
}

/// A read field as a timestamp field.
pub fn to_field(raw: Option<Option<u64>>) -> (r: FieldValue)
    ensures
        r == field_of(raw),
{
    match raw {
        None => FieldValue::Absent,
        Some(Some(n)) => FieldValue::Number(n),
        Some(None) => FieldValue::Invalid,
    }
}

/// The timestamp fields of the JSON text `output`, `None` when it is not JSON.
pub open spec fn response_fields(output: Seq<char>) -> Option<ResponseFields> {
    match (
        json_u64_field(output, "req_arrive_time"@),
        json_u64_field(output, "bf_exec_time"@),
        json_u64_field(output, "recover_begin_time"@),
        json_u64_field(output, "fn_start_time"@),
        json_u64_field(output, "fn_end_time"@),
    ) {
        (Some(a), Some(b), Some(c), Some(d), Some(e)) => Some(
            ResponseFields {
                req_arrive_time: field_of(a),
                bf_exec_time: field_of(b),
                recover_begin_time: field_of(c),
                fn_start_time: field_of(d),
                fn_end_time: field_of(e),
            },
        ),
        _ => None,
    }
}

/// Every timestamp field is missing or a number.
pub open spec fn fields_usable(f: ResponseFields) -> bool {
    &&& field_usable(f.req_arrive_time)
    &&& field_usable(f.bf_exec_time)
    &&& field_usable(f.recover_begin_time)
    &&& field_usable(f.fn_start_time)
    &&& field_usable(f.fn_end_time)
}

/// The timestamp fields of the JSON text `output`, `None` when it is not JSON.
pub fn read_response_fields(output: &str) -> (r: Option<ResponseFields>)
    ensures
        r == response_fields(output@),
{
    let a = match read_json_u64_field(output, "req_arrive_time") {
        Some(x) => x,
        None => return None,
    };
    let b = match read_json_u64_field(output, "bf_exec_time") {
        Some(x) => x,
        None => return None,
    };
    let c = match read_json_u64_field(output, "recover_begin_time") {
        Some(x) => x,
        None => return None,
    };
    let d = match read_json_u64_field(output, "fn_start_time") {
        Some(x) => x,
        None => return None,
    };
    let e = match read_json_u64_field(output, "fn_end_time") {
        Some(x) => x,
        None => return None,
    };
    Some(
        ResponseFields {
            req_arrive_time: to_field(a),
            bf_exec_time: to_field(b),
            recover_begin_time: to_field(c),
            fn_start_time: to_field(d),
            fn_end_time: to_field(e),
        },
    )
}

/// The metric of a call sent at `start_call_time` whose response, with the
/// timestamp fields `fields`, arrived at `receive_resp_time`: `None` when a
/// field is not an unsigned integer, otherwise the fields' numbers (0 for a
/// missing one).
pub fn metric_from_fields(start_call_time: u64, fields: &ResponseFields, receive_resp_time: u64) -> (r:
    Option<Metric>)
    ensures
        r == (if fields_usable(*fields) {
            Some(Metric::from_fields(start_call_time, *fields, receive_resp_time))
        } else {
            None::<Metric>
        }),
{
    if matches!(fields.req_arrive_time, FieldValue::Invalid) || matches!(
        fields.bf_exec_time,
        FieldValue::Invalid
    ) || matches!(fields.recover_begin_time, FieldValue::Invalid) || matches!(
        fields.fn_start_time,
        FieldValue::Invalid
    ) || matches!(fields.fn_end_time, FieldValue::Invalid) {
        None
    } else {
        Some(Metric::from_response(start_call_time, fields, receive_resp_time))
    }
}

/// The metric of a call sent at `start_call_time` whose response text
/// `output` arrived at `receive_resp_time`: `None` when the text is not JSON
/// or a timestamp field is not an unsigned integer, otherwise the fields'
/// numbers (0 for a missing one).
pub fn metric_from_output(start_call_time: u64, output: &str, receive_resp_time: u64) -> (r: Option<
    Metric,
>)
    ensures
        r == (match response_fields(output@) {
            None => None::<Metric>,
            Some(f) => if fields_usable(f) {
                Some(Metric::from_fields(start_call_time, f, receive_resp_time))
            } else {
                None::<Metric>
            },
        }),
{
    match read_response_fields(output) {
        None => None,
        Some(fields) => metric_from_fields(start_call_time, &fields, receive_resp_time),
    }
}

} // verus!
