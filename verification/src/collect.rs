//! Collecting the parameters of a device, and asking again for those that did not arrive.

use std::collections::HashSet;
use vstd::prelude::*;

use crate::frame::{Incoming, IncomingView};
use crate::ieee::Real32;
use crate::param::{MavParamType, ParamEncoding, ParamValue};
use crate::table::TextMap;

verus! {

broadcast use vstd::std_specs::hash::group_hash_axioms;

/// The type with the given code.
pub open spec fn type_with_code(code: u8) -> Option<MavParamType> {
    if code == 1 {
        Some(MavParamType::Uint8)
    } else if code == 2 {
        Some(MavParamType::Int8)
    } else if code == 3 {
        Some(MavParamType::Uint16)
    } else if code == 4 {
        Some(MavParamType::Int16)
    } else if code == 5 {
        Some(MavParamType::Uint32)
    } else if code == 6 {
        Some(MavParamType::Int32)
    } else if code == 7 {
        Some(MavParamType::Uint64)
    } else if code == 8 {
        Some(MavParamType::Int64)
    } else if code == 9 {
        Some(MavParamType::Real32)
    } else if code == 10 {
        Some(MavParamType::Real64)
    } else {
        None
    }
}

/// The type with the given code.
pub fn param_type(code: u8) -> (r: Option<MavParamType>)
    ensures
        r == type_with_code(code),
{
    match code {
        1 => Some(MavParamType::Uint8),
        2 => Some(MavParamType::Int8),
        3 => Some(MavParamType::Uint16),
        4 => Some(MavParamType::Int16),
        5 => Some(MavParamType::Uint32),
        6 => Some(MavParamType::Int32),
        7 => Some(MavParamType::Uint64),
        8 => Some(MavParamType::Int64),
        9 => Some(MavParamType::Real32),
        10 => Some(MavParamType::Real64),
        _ => None,
    }
}

/// A parameter as it was received.
#[derive(Debug)]
pub struct ReceivedParam {
    /// Its name; empty if it is no text.
    pub name: String,
    /// Its value.
    pub value: Real32,
    /// Its type.
    pub mav_type: MavParamType,
    /// How many parameters there are.
    pub count: u16,
    /// Its index among them.
    pub index: u16,
}

/// The view of a received parameter.
pub struct ReceivedView {
    /// Its name; empty if it is no text.
    pub name: Seq<char>,
    /// Its value.
    pub value: Real32,
    /// Its type.
    pub mav_type: MavParamType,
    /// How many parameters there are.
    pub count: u16,
    /// Its index among them.
    pub index: u16,
}

impl View for ReceivedParam {
    type V = ReceivedView;

    open spec fn view(&self) -> ReceivedView {
        ReceivedView {
            name: self.name@,
            value: self.value,
            mav_type: self.mav_type,
            count: self.count,
            index: self.index,
        }
    }
}

/// The parameter in a message.
pub open spec fn param_in(message: IncomingView) -> Option<ReceivedView> {
    match message {
        IncomingView::ParamValue { name, bits, type_code, count, index } => match type_with_code(
            type_code,
        ) {
            Some(mav_type) => Some(
                ReceivedView {
                    name: match name {
                        Some(n) => n,
                        None => ""@,
                    },
                    value: Real32 { bits },
                    mav_type,
                    count,
                    index,
                },
            ),
            None => None,
        },
        _ => None,
    }
}

/// The view of an optional parameter.
pub open spec fn opt_received(p: Option<ReceivedParam>) -> Option<ReceivedView> {
    match p {
        Some(x) => Some(x@),
        None => None,
    }
}

/// The parameter in a message, if it is one with a parameter.
pub fn received_param(message: Incoming) -> (r: Option<ReceivedParam>)
    ensures
        opt_received(r) == param_in(message@),
{
    match message {
        Incoming::ParamValue { name, bits, type_code, count, index } => match param_type(
            type_code,
        ) {
            Some(mav_type) => {
                let name = match name {
                    Some(n) => n,
                    None => String::from_str(""),
                };
                Some(ReceivedParam { name, value: Real32 { bits }, mav_type, count, index })
            },
            None => None,
        },
        _ => None,
    }
}

/// What has been collected.
pub struct CollectionView {
    /// The parameters by their names.
    pub params: Map<Seq<char>, ParamValue>,
    /// The indexes that arrived.
    pub received: Set<u16>,
    /// How many parameters there should be.
    pub expected: nat,
}

/// What has been collected after one more parameter; one without a name counts for nothing.
pub open spec fn with_param(c: CollectionView, p: ReceivedView) -> CollectionView {
    if p.name.len() == 0 {
        c
    } else {
        CollectionView {
            params: c.params.insert(
                p.name,
                ParamValue { value: p.value, mav_type: p.mav_type, encoding: ParamEncoding::CCast },
            ),
            received: c.received.insert(p.index),
            expected: if p.count > c.expected {
                p.count as nat
            } else {
                c.expected
            },
        }
    }
}

/// Takes in a parameter.
pub fn update_param_collection(
    param: ReceivedParam,
    params: &mut TextMap<ParamValue>,
    received_indices: &mut HashSet<u16>,
    expected_count: &mut usize,
)
    ensures
        (CollectionView {
            params: final(params)@,
            received: final(received_indices)@,
            expected: *final(expected_count) as nat,
        }) == with_param(
            CollectionView {
                params: old(params)@,
                received: old(received_indices)@,
                expected: *old(expected_count) as nat,
            },
            param@,
        ),
{
    if param.name.as_str().is_empty() {
        return ;
    }
    let count: usize = param.count as usize;
    if count > *expected_count {
        *expected_count = count;
    }
    received_indices.insert(param.index);
    params.insert(
        param.name,
        ParamValue {
            value: param.value,
            mav_type: param.mav_type,
            encoding: ParamEncoding::CCast,
        },
    );
}

/// How many parameters can be asked for by their indexes.
pub open spec fn askable(expected: nat) -> nat {
    if expected <= 0x7fff {
        expected
    } else {
        0x7fff
    }
}

/// How many parameters are asked for at once.
pub const REQUEST_BATCH: usize = 50;

/// The indexes to ask for: those that did not arrive, from the cursor on and around to it, so many
/// at most.
pub open spec fn missing_from(
    cursor: nat,
    offset: nat,
    count: nat,
    received: Set<u16>,
    budget: nat,
) -> Seq<i16>
    decreases count - offset,
{
    if offset >= count || budget == 0 {
        Seq::empty()
    } else {
        let index = (cursor + offset) % count;
        if received.contains(index as u16) {
            missing_from(cursor, offset + 1, count, received, budget)
        } else {
            seq![index as i16] + missing_from(
                cursor,
                offset + 1,
                count,
                received,
                (budget - 1) as nat,
            )
        }
    }
}

/// Where to go on asking: behind the last index of a full batch, else from the start.
pub open spec fn next_cursor(batch: Seq<i16>, count: nat) -> int {
    if batch.len() == REQUEST_BATCH {
        (batch.last() + 1) % count as int
    } else {
        0
    }
}

/// Picks the indexes to ask for again, and moves the cursor on.
pub fn request_missing_param_indexes(
    expected_count: usize,
    received_indices: &HashSet<u16>,
    cursor: &mut usize,
) -> (r: Vec<i16>)
    ensures
        r@ == missing_from(
            *old(cursor) as nat,
            0,
            askable(expected_count as nat),
            received_indices@,
            REQUEST_BATCH as nat,
        ),
        *final(cursor) == next_cursor(r@, askable(expected_count as nat)),
        r@.len() <= REQUEST_BATCH,
{
    let count: usize = if expected_count <= 0x7fff {
        expected_count
    } else {
        0x7fff
    };
    let ghost from = *cursor as nat;
    let ghost all = missing_from(from, 0, count as nat, received_indices@, REQUEST_BATCH as nat);
    let mut out: Vec<i16> = Vec::new();
    assert(all =~= out@ + all);
    for offset in 0..count
        invariant
            count <= 0x7fff,
            count == askable(expected_count as nat),
            *cursor == from,
            *old(cursor) == from,
            out@.len() < REQUEST_BATCH,
            all == missing_from(from, 0, count as nat, received_indices@, REQUEST_BATCH as nat),
            all == out@ + missing_from(
                from,
                offset as nat,
                count as nat,
                received_indices@,
                (REQUEST_BATCH - out@.len()) as nat,
            ),
    {
        proof {
            vstd::arithmetic::div_mod::lemma_add_mod_noop_right(
                offset as int,
                from as int,
                count as int,
            );
        }
        let index: usize = (*cursor % count + offset) % count;
        if !received_indices.contains(&(index as u16)) {
            let ghost before = out@;
            out.push(index as i16);
            assert(all =~= out@ + missing_from(
                from,
                (offset + 1) as nat,
                count as nat,
                received_indices@,
                (REQUEST_BATCH - out@.len()) as nat,
            ));
            if out.len() >= REQUEST_BATCH {
                assert(all =~= out@);
                *cursor = (index + 1) % count;
                return out;
            }
        }
    }
    assert(all =~= out@);
    *cursor = 0;
    out
}

proof fn lemma_missing(
    cursor: nat,
    offset: nat,
    count: nat,
    received: Set<u16>,
    budget: nat,
    k: int,
)
    requires
        count <= 0x7fff,
        0 <= k < missing_from(cursor, offset, count, received, budget).len(),
    ensures
        ({
            let x = missing_from(cursor, offset, count, received, budget)[k];
            0 <= x < count && !received.contains(x as u16)
        }),
        missing_from(cursor, offset, count, received, budget).len() <= budget,
    decreases count - offset,
{
    let index = (cursor + offset) % count;
    if received.contains(index as u16) {
        lemma_missing(cursor, offset + 1, count, received, budget, k);
    } else {
        let rest = missing_from(cursor, offset + 1, count, received, (budget - 1) as nat);
        if k > 0 {
            lemma_missing(cursor, offset + 1, count, received, (budget - 1) as nat, k - 1);
        } else if rest.len() > 0 {
            lemma_missing(cursor, offset + 1, count, received, (budget - 1) as nat, 0);
        }
    }
}

/// Only indexes that exist and did not arrive are asked for, no more than a batch of them.
pub proof fn law_requests_are_missing(
    cursor: nat,
    expected: nat,
    received: Set<u16>,
    k: int,
)
    requires
        0 <= k < missing_from(
            cursor,
            0,
            askable(expected),
            received,
            REQUEST_BATCH as nat,
        ).len(),
    ensures
        ({
            let batch = missing_from(cursor, 0, askable(expected), received, REQUEST_BATCH as nat);
            &&& 0 <= batch[k] < expected
            &&& !received.contains(batch[k] as u16)
            &&& batch.len() <= REQUEST_BATCH
        }),
{
    lemma_missing(cursor, 0, askable(expected), received, REQUEST_BATCH as nat, k);
}

proof fn lemma_all_missing(
    cursor: nat,
    offset: nat,
    count: nat,
    received: Set<u16>,
    budget: nat,
    at: nat,
)
    requires
        count <= 0x7fff,
        offset <= at < count,
        !received.contains(((cursor + at) % count) as u16),
        missing_from(cursor, offset, count, received, budget).len() < budget,
    ensures
        missing_from(cursor, offset, count, received, budget).contains(
            ((cursor + at) % count) as i16,
        ),
    decreases count - offset,
{
    let index = (cursor + offset) % count;
    let all = missing_from(cursor, offset, count, received, budget);
    let x = ((cursor + at) % count) as i16;
    if received.contains(index as u16) {
        lemma_all_missing(cursor, offset + 1, count, received, budget, at);
    } else {
        let rest = missing_from(cursor, offset + 1, count, received, (budget - 1) as nat);
        if offset == at {
            assert(all[0] == x);
        } else {
            lemma_all_missing(cursor, offset + 1, count, received, (budget - 1) as nat, at);
            let k = choose|k: int| 0 <= k < rest.len() && rest[k] == x;
            assert(all[k + 1] == x);
        }
    }
}

/// A batch that is not full asks for every index that can be asked for and did not arrive.
pub proof fn law_short_batch_is_complete(
    cursor: nat,
    expected: nat,
    received: Set<u16>,
    index: nat,
)
    requires
        index < askable(expected),
        !received.contains(index as u16),
        missing_from(cursor, 0, askable(expected), received, REQUEST_BATCH as nat).len()
            < REQUEST_BATCH,
    ensures
        missing_from(cursor, 0, askable(expected), received, REQUEST_BATCH as nat).contains(
            index as i16,
        ),
{
    let count = askable(expected) as int;
    let at = (index - cursor) % count;
    vstd::arithmetic::div_mod::lemma_mod_bound(index - cursor, count);
    vstd::arithmetic::div_mod::lemma_add_mod_noop(cursor as int, index - cursor, count);
    vstd::arithmetic::div_mod::lemma_add_mod_noop_right(cursor as int, index - cursor, count);
    vstd::arithmetic::div_mod::lemma_small_mod(index, count as nat);
    assert((cursor + at) % count == index as int);
    lemma_all_missing(
        cursor,
        0,
        askable(expected),
        received,
        REQUEST_BATCH as nat,
        at as nat,
    );
}

} // verus!
