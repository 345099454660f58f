//! Messages about the execution of tasks.
//!
//! On the wire a task is its number as SCALE writes a `u64`: eight bytes,
//! the least significant first.

use crate::protocol_dispatcher::WireMessage;
use vstd::prelude::*;

verus! {

/// A task to execute, known by its number.
#[derive(Clone, Copy, Debug, PartialEq, Eq, Structural)]
pub struct ExecutionTask {
    pub id: u64,
}

/// How many bytes a task takes on the wire.
pub const TASK_WIRE_LEN: usize = 8;

/// The bytes of a number of eight bytes, the least significant first.
pub open spec fn le_bytes(value: u64) -> Seq<u8> {
    let q1 = value / 256;
    let q2 = q1 / 256;
    let q3 = q2 / 256;
    let q4 = q3 / 256;
    let q5 = q4 / 256;
    let q6 = q5 / 256;
    let q7 = q6 / 256;
    seq![
        (value % 256) as u8,
        (q1 % 256) as u8,
        (q2 % 256) as u8,
        (q3 % 256) as u8,
        (q4 % 256) as u8,
        (q5 % 256) as u8,
        (q6 % 256) as u8,
        q7 as u8,
    ]
}

/// The number that the first eight bytes of `bytes` hold, the least
/// significant first.
pub open spec fn le_value(bytes: Seq<u8>) -> int {
    bytes[0] + 256 * (bytes[1] + 256 * (bytes[2] + 256 * (bytes[3] + 256 * (bytes[4] + 256 * (
        bytes[5] + 256 * (bytes[6] + 256 * bytes[7]))))))
}

/// The bytes of a task on the wire.
pub open spec fn task_encoding(task: ExecutionTask) -> Seq<u8> {
    le_bytes(task.id)
}

/// The task at the front of a payload: its number is what the first eight
/// bytes hold, the least significant first. `None` where the payload is too
/// short to hold one. What follows the task is not looked at.
pub open spec fn task_decoding(payload: Seq<u8>) -> Option<ExecutionTask> {
    if payload.len() >= TASK_WIRE_LEN {
        Some(ExecutionTask { id: le_value(payload) as u64 })
    } else {
        None
    }
}

impl ExecutionTask {
    /// Writes the task as it goes on the wire.
    pub fn encode_wire(&self) -> (payload: Vec<u8>)
        ensures
            payload@ == task_encoding(*self),
    {
        let mut payload: Vec<u8> = Vec::new();
        let mut rest: u64 = self.id;
        let mut i: usize = 0;
        while i < 7
            invariant
                i <= 7,
                payload@.len() == i,
                forall|k: int| 0 <= k < i ==> payload@[k] == le_bytes(self.id)[k],
                i == 0 ==> rest == self.id,
                i == 1 ==> rest == self.id / 256,
                i == 2 ==> rest == self.id / 256 / 256,
                i == 3 ==> rest == self.id / 256 / 256 / 256,
                i == 4 ==> rest == self.id / 256 / 256 / 256 / 256,
                i == 5 ==> rest == self.id / 256 / 256 / 256 / 256 / 256,
                i == 6 ==> rest == self.id / 256 / 256 / 256 / 256 / 256 / 256,
                i == 7 ==> rest == self.id / 256 / 256 / 256 / 256 / 256 / 256 / 256,
            decreases 7 - i,
        {
            payload.push((rest % 256) as u8);
            rest = rest / 256;
            i = i + 1;
        }
        payload.push(rest as u8);
        assert(payload@ =~= le_bytes(self.id));
        payload
    }
}

impl WireMessage for ExecutionTask {
    /// Reads the task at the front of the payload.
    fn decode_wire(payload: &[u8]) -> (message: Option<ExecutionTask>)
        ensures
            message == task_decoding(payload@),
    {
        if payload.len() >= TASK_WIRE_LEN {
            let mut id: u64 = 0;
            let mut i: usize = TASK_WIRE_LEN;
            while i > 0
                invariant
                    i <= TASK_WIRE_LEN,
                    payload@.len() >= TASK_WIRE_LEN,
                    i == 8 ==> id == 0,
                    i == 7 ==> id == payload@[7],
                    i == 6 ==> id == payload@[6] + 256 * payload@[7],
                    i == 5 ==> id == payload@[5] + 256 * (payload@[6] + 256 * payload@[7]),
                    i == 4 ==> id == payload@[4] + 256 * (payload@[5] + 256 * (payload@[6] + 256
                        * payload@[7])),
                    i == 3 ==> id == payload@[3] + 256 * (payload@[4] + 256 * (payload@[5] + 256 * (
                        payload@[6] + 256 * payload@[7]))),
                    i == 2 ==> id == payload@[2] + 256 * (payload@[3] + 256 * (payload@[4] + 256 * (
                        payload@[5] + 256 * (payload@[6] + 256 * payload@[7])))),
                    i == 1 ==> id == payload@[1] + 256 * (payload@[2] + 256 * (payload@[3] + 256 * (
                        payload@[4] + 256 * (payload@[5] + 256 * (payload@[6] + 256 * payload@[7]))))),
                    i == 0 ==> id == le_value(payload@),
                decreases i,
            {
                i = i - 1;
                id = id * 256 + payload[i] as u64;
            }
            Some(ExecutionTask { id })
        } else {
            None
        }
    }
}

/// What was written is read back: a task that is put on the wire decodes
/// to itself, whatever follows it in the payload.
pub proof fn lemma_task_round_trip(task: ExecutionTask, rest: Seq<u8>)
    ensures
        task_encoding(task).len() == TASK_WIRE_LEN,
        task_decoding(task_encoding(task)) == Some(task),
        task_decoding(task_encoding(task) + rest) == Some(task),
{
    let written = task_encoding(task);
    let longer = written + rest;
    assert(le_value(written) == task.id);
    assert forall|i: int| 0 <= i < 8 implies longer[i] == written[i] by {}
    assert(longer[0] == written[0] && longer[1] == written[1] && longer[2] == written[2]
        && longer[3] == written[3] && longer[4] == written[4] && longer[5] == written[5]
        && longer[6] == written[6] && longer[7] == written[7]);
    assert(le_value(longer) == le_value(written));
}

/// A payload that was cut short holds no task.
pub proof fn lemma_truncated_task_is_rejected(task: ExecutionTask, kept: int)
    requires
        0 <= kept < TASK_WIRE_LEN,
    ensures
        task_decoding(task_encoding(task).take(kept)) is None,
{
}

/// The payload of eight bytes with 1 at the front holds the task 1.
pub proof fn lemma_task_decoding_of_1()
    ensures
        task_decoding(seq![1u8, 0u8, 0u8, 0u8, 0u8, 0u8, 0u8, 0u8]) == Some(
            ExecutionTask { id: 1 },
        ),
{
}

/// A task that is put on the wire and handed to its decoder comes out as
/// it went in: a dispatcher of tasks never rejects it, and what it
/// publishes is the task that was sent.
pub proof fn lemma_sent_task_is_received(
    task: ExecutionTask,
    payload: &[u8],
    decoded: Option<ExecutionTask>,
)
    requires
        payload@ == task_encoding(task),
        call_ensures(<ExecutionTask as WireMessage>::decode_wire, (payload,), decoded),
    ensures
        decoded == Some(task),
{
    lemma_task_round_trip(task, Seq::<u8>::empty());
}

} // verus!
