//! The ledger's guarantees, proved once and for all of the
//! specification functions the executable contracts are written
//! against: balances never go negative, a transfer conserves value,
//! and a run of transfers extends an account's history by exactly the
//! operations that involve it.

use vstd::prelude::*;
use crate::store::{
    Database, OperationModel, UserModel, adjust_balances, append_op, apply_transfer, find_user,
    lemma_find_from_props, lemma_find_same_numbers, transfer_fits, user_exists, with_op,
};

verus! {

/// The total balance held across all accounts of the store.
pub open spec fn total_balance(users: Seq<UserModel>) -> int
    decreases users.len(),
{
    if users.len() == 0 {
        0
    } else {
        total_balance(users.drop_last()) + users.last().balance
    }
}

/// Replacing one user changes the total by the difference of the two
/// balances.
proof fn lemma_total_balance_update(users: Seq<UserModel>, i: int, u: UserModel)
    requires
        0 <= i < users.len(),
    ensures
        total_balance(users.update(i, u)) == total_balance(users) - users[i].balance + u.balance,
    decreases users.len(),
{
    let v = users.update(i, u);
    if i == users.len() - 1 {
        assert(v.drop_last() =~= users.drop_last());
    } else {
        assert(v.drop_last() =~= users.drop_last().update(i, u));
        lemma_total_balance_update(users.drop_last(), i, u);
    }
}

/// Stores whose users hold the same balances in the same order hold
/// the same total.
proof fn lemma_total_same_balances(u1: Seq<UserModel>, u2: Seq<UserModel>)
    requires
        u1.len() == u2.len(),
        forall|k: int| 0 <= k < u1.len() ==> u1[k].balance == u2[k].balance,
    ensures
        total_balance(u1) == total_balance(u2),
    decreases u1.len(),
{
    if u1.len() > 0 {
        lemma_total_same_balances(u1.drop_last(), u2.drop_last());
    }
}

/// Every reachable balance is non-negative: balances are stored as
/// unsigned machine integers, so every account of every store models
/// a non-negative amount.
pub proof fn lemma_balances_nonnegative(db: &Database)
    ensures
        forall|k: int| 0 <= k < db@.len() ==> db@[k].balance >= 0,
{
    assert forall|k: int| 0 <= k < db@.len() implies db@[k].balance >= 0 by {
        assert(db@[k] == db.users@[k]@);
    }
}

/// What one applied transfer does to the store, entry by entry: both
/// parties' histories gain exactly the operation, the value moves from
/// sender to receiver (a self-transfer moves nothing), and every other
/// account — and every number, name and contact list — is untouched.
pub proof fn lemma_apply_transfer_frame(users: Seq<UserModel>, op: OperationModel)
    requires
        transfer_fits(users, op),
    ensures
        ({
            let i = find_user(users, op.from);
            let j = find_user(users, op.to);
            let after = apply_transfer(users, op);
            &&& after.len() == users.len()
            &&& forall|k: int|
                0 <= k < users.len() ==> after[k].number == users[k].number && after[k].name
                    == users[k].name && after[k].contacts == users[k].contacts
            &&& forall|k: int| 0 <= k < users.len() && k != i && k != j ==> after[k] == users[k]
            &&& after[i].history == users[i].history.push(op)
            &&& after[j].history == users[j].history.push(op)
            &&& (i != j ==> after[i].balance == users[i].balance - op.value && after[j].balance
                == users[j].balance + op.value)
            &&& (i == j ==> after[i].balance == users[i].balance)
        }),
{
    let i = find_user(users, op.from);
    let j = find_user(users, op.to);
    lemma_find_from_props(users, op.from, 0);
    lemma_find_from_props(users, op.to, 0);
    let adjusted = adjust_balances(users, op);
    assert(adjusted.len() == users.len());
    assert(forall|k: int| 0 <= k < users.len() ==> adjusted[k].number == users[k].number);
    lemma_find_same_numbers(users, adjusted, op.from, 0);
    lemma_find_same_numbers(users, adjusted, op.to, 0);
    let after = append_op(adjusted, op);
    if i == j {
        assert(after == adjusted.update(i, with_op(adjusted[i], op)));
    }
}

/// Conservation: a transfer that fits moves exactly its value — the
/// sender is debited by it, the receiver credited by it — and the
/// total balance across all accounts is unchanged.
pub proof fn lemma_transfer_conservation(users: Seq<UserModel>, op: OperationModel)
    requires
        transfer_fits(users, op),
    ensures
        ({
            let i = find_user(users, op.from);
            let j = find_user(users, op.to);
            let after = apply_transfer(users, op);
            &&& (i != j ==> after[i].balance == users[i].balance - op.value)
            &&& (i != j ==> after[j].balance == users[j].balance + op.value)
            &&& (i == j ==> after[i].balance == users[i].balance)
            &&& total_balance(after) == total_balance(users)
        }),
{
    let i = find_user(users, op.from);
    let j = find_user(users, op.to);
    let after = apply_transfer(users, op);
    lemma_find_from_props(users, op.from, 0);
    lemma_find_from_props(users, op.to, 0);
    lemma_apply_transfer_frame(users, op);
    if i == j {
        assert(after =~= users.update(i, after[i]));
        lemma_total_balance_update(users, i, after[i]);
    } else {
        assert(after =~= users.update(i, after[i]).update(j, after[j]));
        lemma_total_balance_update(users, i, after[i]);
        lemma_total_balance_update(users.update(i, after[i]), j, after[j]);
    }
}

/// The store after a run of transfers, applied in order.
pub open spec fn apply_transfers(users: Seq<UserModel>, ops: Seq<OperationModel>) -> Seq<UserModel>
    decreases ops.len(),
{
    if ops.len() == 0 {
        users
    } else {
        apply_transfers(apply_transfer(users, ops[0]), ops.drop_first())
    }
}

/// Whether each transfer of the run fits the store it meets.
pub open spec fn transfers_fit(users: Seq<UserModel>, ops: Seq<OperationModel>) -> bool
    decreases ops.len(),
{
    if ops.len() == 0 {
        true
    } else {
        transfer_fits(users, ops[0]) && transfers_fit(
            apply_transfer(users, ops[0]),
            ops.drop_first(),
        )
    }
}

/// The operations of the run that involve the account `id`, as sender
/// or receiver, in order.
pub open spec fn ops_involving(ops: Seq<OperationModel>, id: Seq<char>) -> Seq<OperationModel>
    decreases ops.len(),
{
    if ops.len() == 0 {
        Seq::empty()
    } else {
        let head: Seq<OperationModel> = if ops[0].from == id || ops[0].to == id {
            seq![ops[0]]
        } else {
            Seq::empty()
        };
        head + ops_involving(ops.drop_first(), id)
    }
}

/// History completeness: a run of fitting transfers extends the
/// history of the account `id` by exactly the operations of the run
/// that involve it, in order — no entry is lost, none is invented, and
/// each entry's direction is read off its own `from` field.
pub proof fn lemma_history_completeness(
    users: Seq<UserModel>,
    ops: Seq<OperationModel>,
    id: Seq<char>,
)
    requires
        user_exists(users, id),
        transfers_fit(users, ops),
    ensures
        ({
            let after = apply_transfers(users, ops);
            &&& user_exists(after, id)
            &&& find_user(after, id) == find_user(users, id)
            &&& after[find_user(after, id)].history == users[find_user(users, id)].history
                + ops_involving(ops, id)
        }),
    decreases ops.len(),
{
    let idx = find_user(users, id);
    lemma_find_from_props(users, id, 0);
    if ops.len() == 0 {
        assert(users[idx].history + ops_involving(ops, id) =~= users[idx].history);
    } else {
        let op = ops[0];
        let step = apply_transfer(users, op);
        lemma_apply_transfer_frame(users, op);
        lemma_find_same_numbers(users, step, id, 0);
        lemma_find_same_numbers(users, step, op.from, 0);
        lemma_find_same_numbers(users, step, op.to, 0);
        let i = find_user(users, op.from);
        let j = find_user(users, op.to);
        if op.from == id || op.to == id {
            assert(idx == i || idx == j);
            assert(step[idx].history == users[idx].history.push(op));
        } else {
            assert(idx != i && idx != j) by {
                lemma_find_from_props(users, op.from, 0);
                lemma_find_from_props(users, op.to, 0);
            }
            assert(step[idx].history == users[idx].history);
        }
        lemma_history_completeness(step, ops.drop_first(), id);
        let after = apply_transfers(users, ops);
        assert(after[find_user(after, id)].history == step[idx].history + ops_involving(
            ops.drop_first(),
            id,
        ));
        if op.from == id || op.to == id {
            assert(users[idx].history.push(op) + ops_involving(ops.drop_first(), id)
                =~= users[idx].history + (seq![op] + ops_involving(ops.drop_first(), id)));
        } else {
            assert(users[idx].history + ops_involving(ops.drop_first(), id) =~= users[idx].history
                + (Seq::<OperationModel>::empty() + ops_involving(ops.drop_first(), id)));
        }
    }
}

} // verus!
