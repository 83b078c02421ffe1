//! The mathematical model of the registry actor.
//!
//! A registry state is a `Map<Seq<char>, i32>` from airplane identifier to
//! altitude. A request is modelled without its reply channel: what the actor
//! does to the registry, and which answer it produces, depends only on the
//! operation and its arguments, never on how the answer is delivered.
//! [`step_map`] gives the state after one request, [`answer`] the reply it
//! produces, and [`run`] the state after a whole sequence of requests
//! processed in order — the serialized strategy, where the total order of
//! effects is the arrival order.

use vstd::prelude::*;

verus! {

/// A request stripped to its operation: an upsert of an altitude under an
/// identifier, a lookup of one identifier, or a snapshot of the whole map.
pub enum RequestModel {
    Add { identifier: Seq<char>, altitude: i32 },
    GetAirplane { identifier: Seq<char> },
    GetDB,
}

/// A reply stripped to its value: the looked-up airplane (absent when the
/// identifier was never written), or a snapshot of the whole map.
pub enum ResponseModel {
    Airplane(Option<(Seq<char>, i32)>),
    Database(Map<Seq<char>, i32>),
}

/// The registry state after processing one request: an upsert inserts or
/// overwrites its identifier's entry, a read leaves the state unchanged.
pub open spec fn step_map(m: Map<Seq<char>, i32>, r: RequestModel) -> Map<Seq<char>, i32> {
    match r {
        RequestModel::Add { identifier, altitude } => m.insert(identifier, altitude),
        RequestModel::GetAirplane { .. } => m,
        RequestModel::GetDB => m,
    }
}

/// The reply one request produces from a registry state: an upsert produces
/// none (fire-and-forget), a lookup reports the entry or its absence, a
/// snapshot request gets a copy of the whole map.
pub open spec fn answer(m: Map<Seq<char>, i32>, r: RequestModel) -> Option<ResponseModel> {
    match r {
        RequestModel::Add { .. } => None,
        RequestModel::GetAirplane { identifier } => Some(
            ResponseModel::Airplane(
                if m.dom().contains(identifier) {
                    Some((identifier, m[identifier]))
                } else {
                    None
                },
            ),
        ),
        RequestModel::GetDB => Some(ResponseModel::Database(m)),
    }
}

/// The registry state after processing a sequence of requests in order.
pub open spec fn run(m: Map<Seq<char>, i32>, rs: Seq<RequestModel>) -> Map<Seq<char>, i32>
    decreases rs.len(),
{
    if rs.len() == 0 {
        m
    } else {
        run(step_map(m, rs.first()), rs.drop_first())
    }
}

/// Whether a request writes the entry of identifier `k`.
pub open spec fn writes_key(r: RequestModel, k: Seq<char>) -> bool {
    match r {
        RequestModel::Add { identifier, .. } => identifier == k,
        _ => false,
    }
}

/// Whether a request only reads the registry.
pub open spec fn is_read(r: RequestModel) -> bool {
    !(r is Add)
}

} // verus!
