//! Work orders: the list the dashboard shows and the rule for marking one
//! complete.
use vstd::prelude::*;

use crate::auth::{completed, AppState};
use crate::text::{chars_of, same_text};

verus! {

/// A job on the yard's list.
#[derive(Clone, Copy)]
pub struct WorkOrder {
    pub id: &'static str,
    pub title: &'static str,
}

/// A work order as plain text.
pub struct WorkOrderView {
    pub id: Seq<char>,
    pub title: Seq<char>,
}

impl View for WorkOrder {
    type V = WorkOrderView;

    open spec fn view(&self) -> WorkOrderView {
        WorkOrderView { id: self.id@, title: self.title@ }
    }
}

/// A request named a work order that is not on the list.
#[derive(Debug, PartialEq, Eq, Structural)]
pub struct UnknownWorkOrder;

/// The work orders on the list, in display order.
pub open spec fn seed_work_orders() -> Seq<WorkOrderView> {
    seq![
        WorkOrderView { id: "wo-a1-antifoul"@, title: "Anti-foul A1"@ },
        WorkOrderView { id: "wo-c3-mooring"@, title: "Replace C3 mooring line"@ },
    ]
}

/// Some work order on the list has the id `id`.
pub open spec fn is_listed(id: Seq<char>) -> bool {
    exists|i: int| 0 <= i < seed_work_orders().len() && seed_work_orders()[i].id == id
}

/// The work orders on the list, in display order.
pub fn work_orders() -> (v: Vec<WorkOrder>)
    ensures
        v@.map_values(|o: WorkOrder| o@) == seed_work_orders(),
{
    let v = vec![
        WorkOrder { id: "wo-a1-antifoul", title: "Anti-foul A1" },
        WorkOrder { id: "wo-c3-mooring", title: "Replace C3 mooring line" },
    ];
    assert(v@.map_values(|o: WorkOrder| o@) =~= seed_work_orders());
    v
}

/// Whether some work order on the list has the id `id`.
pub fn work_order_exists(id: &str) -> (exists: bool)
    ensures
        exists == is_listed(id@),
{
    let orders = work_orders();
    let wanted = chars_of(id);
    let mut i: usize = 0;
    while i < orders.len()
        invariant
            i <= orders.len(),
            wanted@ == id@,
            orders@.map_values(|o: WorkOrder| o@) == seed_work_orders(),
            forall|j: int| 0 <= j < i ==> seed_work_orders()[j].id != id@,
        decreases orders.len() - i,
    {
        let candidate = chars_of(orders[i].id);
        assert(orders@[i as int]@ == seed_work_orders()[i as int]);
        if same_text(&candidate, &wanted) {
            return true;
        }
        i = i + 1;
    }
    false
}

/// The outcome of asking to mark work order `id` complete: an id that is
/// not on the list is refused, and any other id is marked complete and
/// confirmed.
pub open spec fn completion_answer(id: Seq<char>) -> Result<bool, UnknownWorkOrder> {
    if is_listed(id) {
        Ok(true)
    } else {
        Err(UnknownWorkOrder)
    }
}

/// Marks work order `id` complete for a signed-in visitor. An id that is
/// not on the list is refused and changes nothing; a listed one is recorded
/// as complete and the answer is `true` once it is.
pub fn mark_work_order_complete(state: &mut AppState, id: &str) -> (r: Result<
    bool,
    UnknownWorkOrder,
>)
    ensures
        r == completion_answer(id@),
        final(state)@ == if is_listed(id@) {
            completed(old(state)@, id@).0
        } else {
            old(state)@
        },
{
    if !work_order_exists(id) {
        return Err(UnknownWorkOrder);
    }
    state.complete_work_order(id);
    Ok(true)
}

} // verus!
