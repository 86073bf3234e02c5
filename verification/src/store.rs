//! The IR code library's records and the decisions around reading and
//! writing it: grouping buttons under their remotes, name and slot rules,
//! and what each write means for the stored rows.

use vstd::prelude::*;

use std::collections::BTreeMap;

use crate::error::IrError;
use crate::text::{concat3, owned, is_blank, trim, trim_str, with_number, signed_decimal};

verus! {

/// A learned or imported button.
pub struct IrButtonRecord {
    pub id: i64,
    pub remote_id: i64,
    pub name: String,
    pub proto: String,
    pub scancode: Option<i64>,
    pub has_raw: bool,
    pub carrier: i64,
    pub slot: Option<i64>,
}

/// A remote with its buttons.
pub struct IrRemoteRecord {
    pub id: i64,
    pub name: String,
    pub is_kvm: bool,
    pub buttons: Vec<IrButtonRecord>,
}

/// A stored remote row, before its buttons are attached.
pub struct IrRemoteRow {
    pub id: i64,
    pub name: String,
    pub is_kvm: bool,
}

impl IrButtonRecord {
    /// A copy of the record.
    pub fn duplicate(&self) -> (r: Self)
        ensures
            r == *self,
    {
        IrButtonRecord {
            id: self.id,
            remote_id: self.remote_id,
            name: self.name.clone(),
            proto: self.proto.clone(),
            scancode: self.scancode,
            has_raw: self.has_raw,
            carrier: self.carrier,
            slot: self.slot,
        }
    }
}

/// The buttons of remote `id`, in the order given.
pub open spec fn buttons_of(buttons: Seq<IrButtonRecord>, id: i64) -> Seq<IrButtonRecord>
    decreases buttons.len(),
{
    if buttons.len() == 0 {
        Seq::empty()
    } else {
        buttons_of(buttons.drop_last(), id) + if buttons.last().remote_id == id {
            seq![buttons.last()]
        } else {
            Seq::empty()
        }
    }
}

/// Whether a remote row before index `i` has the same id as row `i`.
pub open spec fn id_seen_before(rows: Seq<IrRemoteRow>, i: int) -> bool {
    exists|k: int| 0 <= k < i && rows[k].id == rows[i].id
}

/// The remotes `list_remotes` returns: every row in order with its
/// buttons in order; buttons go to the first row of their remote id, and
/// no row gets buttons that belong to no row.
pub open spec fn grouped(rows: Seq<IrRemoteRow>, buttons: Seq<IrButtonRecord>, out: Seq<IrRemoteRecord>) -> bool {
    &&& out.len() == rows.len()
    &&& forall|i: int| 0 <= i < rows.len() ==> {
        &&& (#[trigger] out[i]).id == rows[i].id
        &&& out[i].name == rows[i].name
        &&& out[i].is_kvm == rows[i].is_kvm
        &&& out[i].buttons@ == if id_seen_before(rows, i) {
            Seq::empty()
        } else {
            buttons_of(buttons, rows[i].id)
        }
    }
}

/// Attach the stored buttons to their remotes (`list_remotes`): buttons are
/// gathered per remote id in a `BTreeMap`, and each remote row takes its
/// bucket out, so a second row with the same id gets none.
pub fn group_remotes(rows: Vec<IrRemoteRow>, buttons: Vec<IrButtonRecord>) -> (r: Vec<IrRemoteRecord>)
    ensures
        grouped(rows@, buttons@, r@),
{
    let mut by_remote: BTreeMap<i64, Vec<IrButtonRecord>> = BTreeMap::new();
    let mut j: usize = 0;
    while j < buttons.len()
        invariant
            j <= buttons@.len(),
            forall|rid: i64| #[trigger] by_remote@.contains_key(rid) <==> buttons_of(buttons@.take(j as int), rid).len() > 0,
            forall|rid: i64| #[trigger] by_remote@.contains_key(rid) ==> by_remote@[rid]@ == buttons_of(buttons@.take(j as int), rid),
        decreases buttons@.len() - j,
    {
        let ghost before = by_remote@;
        let rid: i64 = buttons[j].remote_id;
        let b = buttons[j].duplicate();
        let bucket: Vec<IrButtonRecord> = match by_remote.remove(&rid) {
            Some(v) => {
                let mut v = v;
                v.push(b);
                v
            },
            None => {
                let mut v: Vec<IrButtonRecord> = Vec::new();
                v.push(b);
                v
            },
        };
        proof {
            assert(buttons@.take(j + 1).drop_last() =~= buttons@.take(j as int));
            assert(bucket@ =~= buttons_of(buttons@.take(j + 1), rid));
            assert forall|other: i64| other != rid implies buttons_of(buttons@.take(j + 1), other) =~= buttons_of(
                buttons@.take(j as int),
                other,
            ) by {}
        }
        by_remote.insert(rid, bucket);
        j = j + 1;
    }
    assert(buttons@.take(buttons@.len() as int) =~= buttons@);

    let mut out: Vec<IrRemoteRecord> = Vec::new();
    let mut i: usize = 0;
    while i < rows.len()
        invariant
            i <= rows@.len(),
            out@.len() == i,
            forall|rid: i64| #[trigger] by_remote@.contains_key(rid) ==> {
                &&& by_remote@[rid]@ == buttons_of(buttons@, rid)
                &&& !exists|t: int| 0 <= t < i && rows@[t].id == rid
            },
            forall|rid: i64| !(#[trigger] by_remote@.contains_key(rid)) ==> (buttons_of(buttons@, rid).len() == 0
                || exists|t: int| 0 <= t < i && rows@[t].id == rid),
            forall|t: int| 0 <= t < i ==> {
                &&& (#[trigger] out@[t]).id == rows@[t].id
                &&& out@[t].name == rows@[t].name
                &&& out@[t].is_kvm == rows@[t].is_kvm
                &&& out@[t].buttons@ == if id_seen_before(rows@, t) {
                    Seq::empty()
                } else {
                    buttons_of(buttons@, rows@[t].id)
                }
            },
        decreases rows@.len() - i,
    {
        let id: i64 = rows[i].id;
        let bs: Vec<IrButtonRecord> = match by_remote.remove(&id) {
            Some(v) => v,
            None => Vec::new(),
        };
        proof {
            if id_seen_before(rows@, i as int) {
                assert(exists|t: int| 0 <= t < i && rows@[t].id == id);
                assert(bs@ =~= Seq::<IrButtonRecord>::empty());
            } else {
                assert(!exists|t: int| 0 <= t < i && rows@[t].id == id);
                assert(bs@ =~= buttons_of(buttons@, id));
            }
        }
        out.push(IrRemoteRecord { id, name: rows[i].name.clone(), is_kvm: rows[i].is_kvm, buttons: bs });
        proof {
            assert forall|rid: i64| !(#[trigger] by_remote@.contains_key(rid)) implies (buttons_of(buttons@, rid).len()
                == 0 || exists|t: int| 0 <= t < i + 1 && rows@[t].id == rid) by {
                if rid == id {
                    assert(rows@[i as int].id == rid);
                }
            }
        }
        i = i + 1;
    }
    out
}

/// A remote name from the user: trimmed, and refused when blank.
pub fn remote_name_input(name: &str) -> (r: Result<String, IrError>)
    ensures
        trim(name@).len() == 0 ==> (r matches Err(IrError::BadRequest(m)) && m@ == "remote name must not be empty"@),
        trim(name@).len() > 0 ==> (r matches Ok(n) && n@ == trim(name@)),
{
    if is_blank(name) {
        return Err(IrError::BadRequest(owned("remote name must not be empty")));
    }
    Ok(owned(trim_str(name)))
}

/// The error for a remote id that matches no row.
pub fn remote_not_found(id: i64) -> (e: IrError)
    ensures
        e matches IrError::NotFound(m) && m@ == "IR remote "@ + signed_decimal(id as int) + " not found"@,
{
    IrError::NotFound(with_number("IR remote ", id, " not found"))
}

/// The error for a button id that matches no row.
pub fn button_not_found(id: i64) -> (e: IrError)
    ensures
        e matches IrError::NotFound(m) && m@ == "IR button "@ + signed_decimal(id as int) + " not found"@,
{
    IrError::NotFound(with_number("IR button ", id, " not found"))
}

/// Outcome of a write addressed to remote `id`: not found when it
/// touched no row.
pub fn remote_write_result(rows_affected: u64, id: i64) -> (r: Result<(), IrError>)
    ensures
        rows_affected == 0 ==> (r matches Err(IrError::NotFound(m)) && m@ == "IR remote "@ + signed_decimal(id as int)
            + " not found"@),
        rows_affected > 0 ==> r is Ok,
{
    if rows_affected == 0 {
        return Err(remote_not_found(id));
    }
    Ok(())
}

/// Outcome of deleting button `id`: not found when it touched no row.
pub fn button_delete_result(rows_affected: u64, id: i64) -> (r: Result<(), IrError>)
    ensures
        rows_affected == 0 ==> (r matches Err(IrError::NotFound(m)) && m@ == "IR button "@ + signed_decimal(id as int)
            + " not found"@),
        rows_affected > 0 ==> r is Ok,
{
    if rows_affected == 0 {
        return Err(button_not_found(id));
    }
    Ok(())
}

/// The error for a failed remote insert or rename: a clash with an
/// existing name is a conflict, anything else a persistence failure.
pub fn remote_write_error(unique_violation: bool, name: &str, message: String) -> (e: IrError)
    ensures
        unique_violation ==> (e matches IrError::Conflict(m) && m@ == "remote '"@ + name@ + "' already exists"@),
        !unique_violation ==> (e matches IrError::Persistence(m) && m@ == message@),
{
    if unique_violation {
        IrError::Conflict(concat3("remote '", name, "' already exists"))
    } else {
        IrError::Persistence(message)
    }
}

/// Lowest quick slot.
pub const SLOT_MIN: i64 = 1;
/// Highest quick slot.
pub const SLOT_MAX: i64 = 8;

/// What a slot update writes once allowed.
pub struct SlotPlan {
    /// Unbind this slot from the other buttons of the remote first.
    pub clear_others: Option<i64>,
    /// The button's new slot (`None` unbinds it).
    pub slot: Option<i64>,
}

/// Whether a slot update is allowed, and what it writes: `None` unbinds
/// the button; binding is for buttons of the KVM-switch remote only, the
/// slot must lie in 1..=8, and a bound slot is first taken away from the
/// remote's other buttons.
pub fn slot_plan(on_kvm_remote: bool, slot: Option<i64>) -> (r: Result<SlotPlan, IrError>)
    ensures
        match slot {
            None => r matches Ok(p) && p.clear_others is None && p.slot is None,
            Some(s) => if !on_kvm_remote {
                r matches Err(IrError::BadRequest(m)) && m@ == "only the KVM-switch remote can bind slots"@
            } else if SLOT_MIN <= s <= SLOT_MAX {
                r matches Ok(p) && p.clear_others == Some(s) && p.slot == Some(s)
            } else {
                r matches Err(IrError::BadRequest(m)) && m@ == "slot must be between 1 and 8, got "@ + signed_decimal(
                    s as int,
                )
            },
        },
{
    match slot {
        Some(s) => {
            if !on_kvm_remote {
                return Err(IrError::BadRequest(owned("only the KVM-switch remote can bind slots")));
            }
            if s < SLOT_MIN || s > SLOT_MAX {
                let m = with_number("slot must be between 1 and 8, got ", s, "");
                proof {
                    reveal_strlit("");
                }
                assert(m@ =~= "slot must be between 1 and 8, got "@ + signed_decimal(s as int));
                return Err(IrError::BadRequest(m));
            }
            Ok(SlotPlan { clear_others: Some(s), slot: Some(s) })
        },
        None => Ok(SlotPlan { clear_others: None, slot: None }),
    }
}

/// Remote ids are distinct.
pub open spec fn unique_remote_ids(rows: Seq<IrRemoteRow>) -> bool {
    forall|i: int, j: int| 0 <= i < rows.len() && 0 <= j < rows.len() && i != j ==> rows[i].id != rows[j].id
}

/// The remote rows after `set_kvm_remote(id)`: the flag is cleared on every
/// row and set on row `id`; when no row has that id the transaction is
/// rolled back and nothing changes.
pub open spec fn after_set_kvm(rows: Seq<IrRemoteRow>, id: i64) -> Seq<IrRemoteRow> {
    if exists|i: int| 0 <= i < rows.len() && rows[i].id == id {
        Seq::new(rows.len(), |i: int| IrRemoteRow { id: rows[i].id, name: rows[i].name, is_kvm: rows[i].id == id })
    } else {
        rows
    }
}

/// The `is_kvm` flag `set_kvm_remote(id)` writes to each remote row, in
/// row order; not found, with nothing to write, when no row has that id.
pub fn kvm_flags(rows: &Vec<IrRemoteRow>, id: i64) -> (r: Result<Vec<(i64, bool)>, IrError>)
    ensures
        match r {
            Ok(v) => {
                &&& exists|i: int| 0 <= i < rows@.len() && rows@[i].id == id
                &&& v@.len() == rows@.len()
                &&& forall|i: int| 0 <= i < rows@.len() ==> #[trigger] v@[i] == (rows@[i].id, after_set_kvm(rows@, id)[i].is_kvm)
            },
            Err(e) => {
                &&& !exists|i: int| 0 <= i < rows@.len() && rows@[i].id == id
                &&& e matches IrError::NotFound(m) && m@ == "IR remote "@ + signed_decimal(id as int) + " not found"@
            },
        },
{
    let mut out: Vec<(i64, bool)> = Vec::new();
    let mut found: bool = false;
    let mut i: usize = 0;
    while i < rows.len()
        invariant
            i <= rows@.len(),
            out@.len() == i,
            found == exists|k: int| 0 <= k < i && rows@[k].id == id,
            forall|k: int| 0 <= k < i ==> #[trigger] out@[k] == (rows@[k].id, rows@[k].id == id),
        decreases rows@.len() - i,
    {
        let rid: i64 = rows[i].id;
        if rid == id {
            found = true;
        }
        out.push((rid, rid == id));
        i = i + 1;
    }
    if !found {
        return Err(remote_not_found(id));
    }
    Ok(out)
}

/// After marking an existing remote as the KVM-switch remote, it is the only
/// remote so marked.
pub proof fn lemma_single_kvm_remote(rows: Seq<IrRemoteRow>, id: i64, k: int)
    requires
        unique_remote_ids(rows),
        0 <= k < rows.len(),
        rows[k].id == id,
    ensures
        after_set_kvm(rows, id)[k].is_kvm,
        forall|j: int| 0 <= j < rows.len() && #[trigger] after_set_kvm(rows, id)[j].is_kvm ==> j == k,
{
}

/// Button ids are distinct.
pub open spec fn unique_button_ids(bs: Seq<IrButtonRecord>) -> bool {
    forall|i: int, j: int| 0 <= i < bs.len() && 0 <= j < bs.len() && i != j ==> bs[i].id != bs[j].id
}

/// No two buttons of one remote hold the same quick slot.
pub open spec fn slots_unique(bs: Seq<IrButtonRecord>) -> bool {
    forall|i: int, j: int|
        0 <= i < bs.len() && 0 <= j < bs.len() && i != j && bs[i].remote_id == bs[j].remote_id && bs[i].slot is Some
            ==> bs[i].slot != bs[j].slot
}

/// The button with id `id` with its slot set to `slot`; the other buttons
/// of its remote that held `clear` lose it.
pub open spec fn slot_row_after(b: IrButtonRecord, bs: Seq<IrButtonRecord>, id: i64, plan: SlotPlan) -> IrButtonRecord {
    if b.id == id {
        IrButtonRecord { slot: plan.slot, ..b }
    } else if plan.clear_others is Some && b.slot == plan.clear_others && exists|t: int|
        0 <= t < bs.len() && bs[t].id == id && bs[t].remote_id == b.remote_id {
        IrButtonRecord { slot: None, ..b }
    } else {
        b
    }
}

/// The button rows after `update_button` applies an allowed slot plan to
/// button `id`: first the slot is taken from the remote's other buttons,
/// then given to the button.
pub open spec fn after_slot_update(bs: Seq<IrButtonRecord>, id: i64, plan: SlotPlan) -> Seq<IrButtonRecord> {
    Seq::new(bs.len(), |i: int| slot_row_after(bs[i], bs, id, plan))
}

/// What a slot update does to each button, as `slots` (the new slot of
/// each button, in order): the updated button gets the plan's slot; a
/// button of the same remote that held exactly the slot being bound loses
/// it; every other button keeps its slot.
pub open spec fn slot_update_frame(bs: Seq<IrButtonRecord>, id: i64, plan: SlotPlan, slots: Seq<Option<i64>>) -> bool {
    &&& slots.len() == bs.len()
    &&& forall|i: int| 0 <= i < bs.len() && bs[i].id == id ==> #[trigger] slots[i] == plan.slot
    &&& forall|i: int|
        0 <= i < bs.len() && bs[i].id != id && #[trigger] slots[i] != bs[i].slot ==> {
            &&& plan.clear_others is Some
            &&& bs[i].slot == plan.clear_others
            &&& slots[i] is None
            &&& exists|t: int| 0 <= t < bs.len() && bs[t].id == id && bs[t].remote_id == bs[i].remote_id
        }
    &&& forall|i: int, t: int|
        #![trigger slots[i], bs[t]]
        0 <= i < bs.len() && 0 <= t < bs.len() && bs[i].id != id && bs[t].id == id && bs[t].remote_id == bs[i].remote_id
            && plan.clear_others is Some && bs[i].slot == plan.clear_others ==> slots[i] is None
}

/// A slot update gives the button its new slot, takes the bound slot from
/// the other buttons of its remote that held it, and changes nothing else.
pub proof fn lemma_slot_update_frame(bs: Seq<IrButtonRecord>, id: i64, plan: SlotPlan)
    ensures
        slot_update_frame(bs, id, plan, Seq::new(bs.len(), |i: int| after_slot_update(bs, id, plan)[i].slot)),
{
}

fn has_button_on_remote(bs: &Vec<IrButtonRecord>, id: i64, remote_id: i64) -> (r: bool)
    ensures
        r == exists|t: int| 0 <= t < bs@.len() && bs@[t].id == id && bs@[t].remote_id == remote_id,
{
    let mut t: usize = 0;
    while t < bs.len()
        invariant
            t <= bs@.len(),
            forall|k: int| 0 <= k < t ==> !(bs@[k].id == id && bs@[k].remote_id == remote_id),
        decreases bs@.len() - t,
    {
        if bs[t].id == id && bs[t].remote_id == remote_id {
            return true;
        }
        t = t + 1;
    }
    false
}

/// The slot `update_button` leaves each given button with after applying
/// `plan` to button `id`, in order (`(button id, slot)`).
pub fn slots_after(bs: &Vec<IrButtonRecord>, id: i64, plan: &SlotPlan) -> (r: Vec<(i64, Option<i64>)>)
    ensures
        r@.len() == bs@.len(),
        forall|i: int| 0 <= i < bs@.len() ==> #[trigger] r@[i] == (bs@[i].id, after_slot_update(bs@, id, *plan)[i].slot),
        slot_update_frame(bs@, id, *plan, Seq::new(bs@.len(), |i: int| r@[i].1)),
{
    proof {
        lemma_slot_update_frame(bs@, id, *plan);
    }
    let mut out: Vec<(i64, Option<i64>)> = Vec::new();
    let mut i: usize = 0;
    while i < bs.len()
        invariant
            i <= bs@.len(),
            out@.len() == i,
            forall|k: int| 0 <= k < i ==> #[trigger] out@[k] == (bs@[k].id, after_slot_update(bs@, id, *plan)[k].slot),
        decreases bs@.len() - i,
    {
        let b = &bs[i];
        let slot: Option<i64> = if b.id == id {
            plan.slot
        } else if plan.clear_others.is_some() && b.slot == plan.clear_others && has_button_on_remote(bs, id, b.remote_id) {
            None
        } else {
            b.slot
        };
        assert(after_slot_update(bs@, id, *plan)[i as int] == slot_row_after(bs@[i as int], bs@, id, *plan));
        out.push((b.id, slot));
        i = i + 1;
    }
    out
}

/// Every slot update `slot_plan` allows keeps quick slots unique within
/// each remote.
pub proof fn lemma_slot_update_keeps_slots_unique(bs: Seq<IrButtonRecord>, id: i64, plan: SlotPlan)
    requires
        unique_button_ids(bs),
        slots_unique(bs),
        plan.slot is Some ==> plan.clear_others == plan.slot,
    ensures
        slots_unique(after_slot_update(bs, id, plan)),
{
    let after = after_slot_update(bs, id, plan);
    assert forall|i: int, j: int|
        0 <= i < after.len() && 0 <= j < after.len() && i != j && after[i].remote_id == after[j].remote_id
            && after[i].slot is Some implies after[i].slot != after[j].slot by {
        assert(after[i] == slot_row_after(bs[i], bs, id, plan));
        assert(after[j] == slot_row_after(bs[j], bs, id, plan));
        if bs[i].id == id {
            assert(bs[j].id != id);
            if after[j].slot == after[i].slot {
                assert(after[j] == bs[j]);
            }
        } else if bs[j].id == id {
            if after[i].slot == after[j].slot {
                assert(after[i] == bs[i]);
            }
        }
    }
}

} // verus!
