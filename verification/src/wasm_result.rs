//! How a WebAssembly agent and its host pass a result: the agent returns
//! one `i64` that packs the result's address in memory (high 32 bits) and
//! its length (low 32 bits), or a negative error code; the host checks the
//! result lies within the module's memory before reading it, and takes
//! the text it reads as a task result, or else as the task's output.
use vstd::prelude::*;
use crate::json_value::{json_text_value, text_json_value};
use crate::task::TaskResult;
use crate::text::{push_signed_decimal, signed_decimal, string_of};

verus! {

/// The packed form of a result at address `ptr` of length `len`.
pub open spec fn packed_of(ptr: int, len: int) -> int {
    ptr * 0x1_0000_0000 + len
}

/// The packed form of a result at address `ptr` of length `len`, bit by
/// bit: the address shifted into the high 32 bits, or-ed with the length
/// widened to 64 bits.
pub open spec fn packed_bits(ptr: i32, len: i32) -> i64 {
    ((ptr as i64) << 32u64) | (len as i64)
}

/// Packs a result at address `ptr` of length `len` into one `i64`: the
/// address in the high 32 bits, the length in the low; for a non-negative
/// address and length that is `ptr * 2^32 + len`.
pub fn pack_result(ptr: i32, len: i32) -> (r: i64)
    ensures
        r == packed_bits(ptr, len),
        0 <= ptr && 0 <= len ==> r == packed_of(ptr as int, len as int),
{
    let wide_ptr: i64 = ptr as i64;
    let wide_len: i64 = len as i64;
    let r: i64 = (wide_ptr << 32u64) | wide_len;
    assert(0 <= ptr && 0 <= len ==> r == ptr * 0x1_0000_0000 + len) by (bit_vector)
        requires
            wide_ptr == ptr as i64,
            wide_len == len as i64,
            r == (wide_ptr << 32u64) | wide_len,
    ;
    r
}

/// The error of a negative packed value.
pub open spec fn error_code_text(packed: i64) -> Seq<char> {
    "WASM agent returned error code: "@ + signed_decimal(packed as int)
}

/// What the host makes of the packed value `packed` from a module whose
/// memory holds `memory_len` bytes: a negative value is an error code;
/// otherwise the address (high 32 bits) and length (low 32 bits), when the
/// result lies within the memory.
pub open spec fn located(packed: i64, memory_len: usize) -> Result<(u64, u64), Seq<char>> {
    if packed < 0 {
        Err(error_code_text(packed))
    } else {
        let ptr = (packed as int) / 0x1_0000_0000;
        let len = (packed as int) % 0x1_0000_0000;
        if ptr + len > memory_len {
            Err("WASM result pointer out of bounds"@)
        } else {
            Ok((ptr as u64, len as u64))
        }
    }
}

/// Locates the result that the packed value `packed` names in a memory of
/// `memory_len` bytes (see [`located`]).
pub fn locate_result(packed: i64, memory_len: usize) -> (r: Result<(u64, u64), String>)
    ensures
        match located(packed, memory_len) {
            Ok(v) => r == Ok::<(u64, u64), String>(v),
            Err(e) => r matches Err(m) && m@ == e,
        },
{
    if packed < 0 {
        let mut m = string_of("WASM agent returned error code: ");
        push_signed_decimal(&mut m, packed);
        return Err(m);
    }
    let p = packed as u64;
    let ptr = p / 0x1_0000_0000u64;
    let len = p % 0x1_0000_0000u64;
    if ptr + len > memory_len as u64 {
        return Err(string_of("WASM result pointer out of bounds"));
    }
    Ok((ptr, len))
}

/// A result packed by the agent is found again by the host, at the same
/// address and with the same length, when it lies within the memory.
pub proof fn lemma_pack_then_locate(ptr: i32, len: i32, memory_len: usize)
    requires
        0 <= ptr,
        0 <= len,
        ptr + len <= memory_len,
    ensures
        located(packed_of(ptr as int, len as int) as i64, memory_len) == Ok::<(u64, u64), Seq<char>>(
            (ptr as u64, len as u64),
        ),
{
    let p = packed_of(ptr as int, len as int);
    assert(0 <= p <= i64::MAX) by (nonlinear_arith)
        requires
            0 <= ptr <= i32::MAX,
            0 <= len <= i32::MAX,
            p == ptr * 0x1_0000_0000 + len,
    ;
    assert(p / 0x1_0000_0000 == ptr && p % 0x1_0000_0000 == len) by (nonlinear_arith)
        requires
            0 <= len < 0x1_0000_0000,
            0 <= ptr,
            p == ptr * 0x1_0000_0000 + len,
    ;
}

/// The outcome of a task whose WebAssembly agent answered with `text`:
/// the task result the text encodes, when it is one (`parsed`, read by the
/// caller), or else a success whose output is the text itself as a JSON
/// string, after no counted step, in the task's session (empty when none).
pub fn wasm_task_result(
    parsed: Option<TaskResult>,
    task_id: String,
    agent_id: String,
    text: &str,
    session_id: Option<String>,
) -> (r: TaskResult)
    ensures
        parsed matches Some(p) ==> r == p,
        parsed is None ==> {
            &&& r.task_id == task_id && r.agent_id == agent_id
            &&& r.output == json_text_value(text@)
            &&& r.success && r.error is None && r.error_kind is None
            &&& r.steps_used == 0
            &&& r.session_id@ == match session_id {
                Some(s) => s@,
                None => Seq::empty(),
            }
        },
{
    match parsed {
        Some(p) => p,
        None => {
            let session = match session_id {
                Some(s) => s,
                None => String::new(),
            };
            TaskResult::success(task_id, agent_id, text_json_value(string_of(text)), 0, session)
        },
    }
}

} // verus!
