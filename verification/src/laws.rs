//! Laws of the registry model, proved once and for all over
//! [`crate::model`]'s `step_map`, `answer` and `run`.
//!
//! [`crate::database::Database::process_message`] guarantees that the live
//! registry follows `step_map` request by request, so everything proved
//! here of the model holds of the actor under the serialized strategy.

use vstd::prelude::*;

use crate::model::RequestModel;
use crate::model::ResponseModel;
use crate::model::answer;
use crate::model::is_read;
use crate::model::run;
use crate::model::step_map;
use crate::model::writes_key;

verus! {

/// Processing a concatenation of two request sequences is processing the
/// first, then the second from the state the first left behind. Under the
/// serialized strategy this is why the effect of every request is visible
/// to every request ordered after it: the later one is processed from a
/// state that already includes the earlier one's step.
pub proof fn lemma_run_append(
    m: Map<Seq<char>, i32>,
    rs1: Seq<RequestModel>,
    rs2: Seq<RequestModel>,
)
    ensures
        run(m, rs1 + rs2) == run(run(m, rs1), rs2),
    decreases rs1.len(),
{
    if rs1.len() == 0 {
        assert(rs1 + rs2 =~= rs2);
    } else {
        assert((rs1 + rs2).first() == rs1.first());
        assert((rs1 + rs2).drop_first() =~= rs1.drop_first() + rs2);
        lemma_run_append(step_map(m, rs1.first()), rs1.drop_first(), rs2);
    }
}

/// Under the serialized strategy, for a request submitted at position `i`
/// and any later position `j`, the state from which position `j` is
/// processed is the state after position `i` — which includes `i`'s effect
/// — advanced by exactly the requests between them.
pub proof fn lemma_earlier_effect_visible(
    m: Map<Seq<char>, i32>,
    rs: Seq<RequestModel>,
    i: int,
    j: int,
)
    requires
        0 <= i < j <= rs.len(),
    ensures
        run(m, rs.take(j)) == run(run(m, rs.take(i + 1)), rs.subrange(i + 1, j)),
{
    assert(rs.take(j) =~= rs.take(i + 1) + rs.subrange(i + 1, j));
    lemma_run_append(m, rs.take(i + 1), rs.subrange(i + 1, j));
}

/// Requests that never write identifier `k` leave `k`'s entry — present or
/// absent, and its value — exactly as it was.
pub proof fn lemma_no_write_preserves_key(
    m: Map<Seq<char>, i32>,
    rs: Seq<RequestModel>,
    k: Seq<char>,
)
    requires
        forall|i: int| 0 <= i < rs.len() ==> !writes_key(rs[i], k),
    ensures
        run(m, rs).dom().contains(k) == m.dom().contains(k),
        m.dom().contains(k) ==> run(m, rs)[k] == m[k],
    decreases rs.len(),
{
    if rs.len() > 0 {
        assert(!writes_key(rs[0], k));
        assert(forall|i: int|
            0 <= i < rs.drop_first().len() ==> !writes_key(#[trigger] rs.drop_first()[i], k));
        lemma_no_write_preserves_key(step_map(m, rs.first()), rs.drop_first(), k);
    }
}

/// An upsert of `(k, v)` followed by any requests that do not write `k`
/// leaves a lookup of `k` answering exactly `v`.
pub proof fn lemma_upsert_then_get(
    m: Map<Seq<char>, i32>,
    k: Seq<char>,
    v: i32,
    rs: Seq<RequestModel>,
)
    requires
        forall|i: int| 0 <= i < rs.len() ==> !writes_key(rs[i], k),
    ensures
        answer(
            run(step_map(m, RequestModel::Add { identifier: k, altitude: v }), rs),
            RequestModel::GetAirplane { identifier: k },
        ) == Some(ResponseModel::Airplane(Some((k, v)))),
{
    lemma_no_write_preserves_key(m.insert(k, v), rs, k);
}

/// A lookup of an identifier that no request ever wrote answers absence.
pub proof fn lemma_unwritten_key_absent(rs: Seq<RequestModel>, k: Seq<char>)
    requires
        forall|i: int| 0 <= i < rs.len() ==> !writes_key(rs[i], k),
    ensures
        answer(
            run(Map::<Seq<char>, i32>::empty(), rs),
            RequestModel::GetAirplane { identifier: k },
        ) == Some(ResponseModel::Airplane(None)),
{
    lemma_no_write_preserves_key(Map::<Seq<char>, i32>::empty(), rs, k);
}

/// Upserts of two distinct identifiers reach the same state in either
/// order, so a snapshot taken after both holds both entries regardless of
/// their issuing order.
pub proof fn lemma_upsert_order_irrelevant(
    m: Map<Seq<char>, i32>,
    k1: Seq<char>,
    v1: i32,
    k2: Seq<char>,
    v2: i32,
)
    requires
        k1 != k2,
    ensures
        step_map(
            step_map(m, RequestModel::Add { identifier: k1, altitude: v1 }),
            RequestModel::Add { identifier: k2, altitude: v2 },
        ) == step_map(
            step_map(m, RequestModel::Add { identifier: k2, altitude: v2 }),
            RequestModel::Add { identifier: k1, altitude: v1 },
        ),
{
    assert(m.insert(k1, v1).insert(k2, v2) =~= m.insert(k2, v2).insert(k1, v1));
}

/// Two upserts of the same identifier: the later one wins, whatever value
/// the earlier one wrote.
pub proof fn lemma_last_write_wins(m: Map<Seq<char>, i32>, k: Seq<char>, v1: i32, v2: i32)
    ensures
        answer(
            step_map(
                step_map(m, RequestModel::Add { identifier: k, altitude: v1 }),
                RequestModel::Add { identifier: k, altitude: v2 },
            ),
            RequestModel::GetAirplane { identifier: k },
        ) == Some(ResponseModel::Airplane(Some((k, v2)))),
{
}

/// A sequence of pure reads leaves the registry untouched, and every read
/// in it — wherever it stands in the sequence — answers from the one
/// snapshot the sequence started from.
pub proof fn lemma_reads_share_snapshot(m: Map<Seq<char>, i32>, rs: Seq<RequestModel>)
    requires
        forall|j: int| 0 <= j < rs.len() ==> is_read(rs[j]),
    ensures
        run(m, rs) == m,
        forall|j: int|
            0 <= j < rs.len() ==> answer(run(m, rs.take(j)), #[trigger] rs[j]) == answer(m, rs[j]),
    decreases rs.len(),
{
    if rs.len() > 0 {
        assert(step_map(m, rs.first()) == m);
        assert(forall|j: int|
            0 <= j < rs.drop_first().len() ==> is_read(#[trigger] rs.drop_first()[j]));
        lemma_reads_share_snapshot(m, rs.drop_first());
        assert forall|j: int| 0 <= j < rs.len() implies answer(
            run(m, rs.take(j)),
            #[trigger] rs[j],
        ) == answer(m, rs[j]) by {
            if j > 0 {
                assert(rs.take(j).first() == rs.first());
                assert(rs.take(j).drop_first() =~= rs.drop_first().take(j - 1));
                assert(rs.drop_first()[j - 1] == rs[j]);
            }
        }
    }
}

/// A read whose caller abandoned its reply channel changes nothing: the
/// state after it and any later requests is the state the later requests
/// alone would have produced, so an abandoned lookup can stall no
/// subsequent upsert.
pub proof fn lemma_abandoned_read_harmless(
    m: Map<Seq<char>, i32>,
    r: RequestModel,
    rs: Seq<RequestModel>,
)
    requires
        is_read(r),
    ensures
        run(m, seq![r] + rs) == run(m, rs),
{
    assert((seq![r] + rs).first() == r);
    assert((seq![r] + rs).drop_first() =~= rs);
    assert(step_map(m, r) == m);
}

} // verus!
