//! The history view: the operations visible to one account — its own
//! history, and transfers to it recorded in the histories of accounts
//! that list it as a contact — merged into one reverse-chronological
//! feed with stable order among equal timestamps.

use vstd::prelude::*;
use crate::store::{Database, Operation, OperationModel, User, UserModel, find_user, op_models, user_exists};
use crate::text::{
    lemma_lex_lt_asym, lemma_lex_lt_connex, lemma_lex_lt_trans, lex_lt, str_eq, str_lt,
};

verus! {

/// The operations in `h` whose receiver is `id`, in order.
pub open spec fn ops_to(h: Seq<OperationModel>, id: Seq<char>) -> Seq<OperationModel>
    decreases h.len(),
{
    if h.len() == 0 {
        Seq::empty()
    } else {
        let rest = ops_to(h.drop_last(), id);
        if h.last().to == id {
            rest.push(h.last())
        } else {
            rest
        }
    }
}

/// The transfers to `id` visible through contact relationships: for
/// each other user that lists `id` as a contact, in store order, the
/// operations in that user's history whose receiver is `id`.
pub open spec fn received_ops(users: Seq<UserModel>, id: Seq<char>) -> Seq<OperationModel>
    decreases users.len(),
{
    if users.len() == 0 {
        Seq::empty()
    } else {
        let rest = received_ops(users.drop_last(), id);
        let u = users.last();
        if u.number != id && u.contacts.contains(id) {
            rest + ops_to(u.history, id)
        } else {
            rest
        }
    }
}

/// Reverse-chronological order: no entry is followed by one with a
/// strictly later timestamp.
pub open spec fn sorted_desc(s: Seq<OperationModel>) -> bool {
    forall|p: int, q: int| 0 <= p < q < s.len() ==> !lex_lt(s[p].date, s[q].date)
}

/// Stable descending insertion: `x` moves left past entries with
/// strictly earlier timestamps and stops behind every entry whose
/// timestamp is not below its own, so equal timestamps keep their
/// relative order.
pub open spec fn insert_desc(s: Seq<OperationModel>, x: OperationModel) -> Seq<OperationModel>
    decreases s.len(),
{
    if s.len() == 0 {
        seq![x]
    } else if lex_lt(s.last().date, x.date) {
        insert_desc(s.drop_last(), x).push(s.last())
    } else {
        s.push(x)
    }
}

/// Stable sort by timestamp, most recent first.
pub open spec fn sort_desc(s: Seq<OperationModel>) -> Seq<OperationModel>
    decreases s.len(),
{
    if s.len() == 0 {
        Seq::empty()
    } else {
        insert_desc(sort_desc(s.drop_last()), s.last())
    }
}

/// In a sorted sequence, stable descending insertion places `x` at any
/// position before which nothing is strictly below `x` and at which
/// the entry, if any, is.
pub proof fn lemma_insert_desc_at(s: Seq<OperationModel>, x: OperationModel, p: int)
    requires
        sorted_desc(s),
        0 <= p <= s.len(),
        forall|k: int| 0 <= k < p ==> !lex_lt(s[k].date, x.date),
        p < s.len() ==> lex_lt(s[p].date, x.date),
    ensures
        insert_desc(s, x) == s.insert(p, x),
    decreases s.len(),
{
    if s.len() == 0 {
        assert(insert_desc(s, x) =~= s.insert(p, x));
    } else if lex_lt(s.last().date, x.date) {
        assert(p < s.len());
        lemma_insert_desc_at(s.drop_last(), x, p);
        assert(insert_desc(s, x) =~= s.insert(p, x));
    } else {
        assert forall|k: int| 0 <= k < s.len() implies !lex_lt(s[k].date, x.date) by {
            if k < s.len() - 1 && lex_lt(s[k].date, x.date) {
                if lex_lt(x.date, s.last().date) {
                    lemma_lex_lt_trans(s[k].date, x.date, s.last().date);
                } else {
                    lemma_lex_lt_connex(x.date, s.last().date);
                }
            }
        }
        assert(p == s.len());
        assert(insert_desc(s, x) =~= s.insert(p, x));
    }
}

/// Stable descending insertion keeps the sequence sorted, grows it by
/// one, and adds exactly the inserted entry.
pub proof fn lemma_insert_desc_sorted(s: Seq<OperationModel>, x: OperationModel)
    requires
        sorted_desc(s),
    ensures
        sorted_desc(insert_desc(s, x)),
        insert_desc(s, x).len() == s.len() + 1,
        insert_desc(s, x).to_multiset() == s.to_multiset().insert(x),
    decreases s.len(),
{
    let p = lemma_first_below(s, x);
    lemma_insert_desc_at(s, x, p);
    let r = s.insert(p, x);
    s.insert_ensures(p, x);
    assert forall|a: int, b: int| 0 <= a < b < r.len() implies !lex_lt(r[a].date, r[b].date) by {
        if a < p && b == p {
            assert(r[a] == s[a]);
        } else if a == p && b > p {
            assert(r[b] == s[b - 1]);
            if lex_lt(x.date, s[b - 1].date) {
                if b - 1 == p {
                    lemma_lex_lt_asym(s[p].date, x.date);
                } else {
                    if lex_lt(s[b - 1].date, s[p].date) {
                        lemma_lex_lt_trans(x.date, s[b - 1].date, s[p].date);
                        lemma_lex_lt_asym(s[p].date, x.date);
                    } else {
                        lemma_lex_lt_connex(s[b - 1].date, s[p].date);
                        lemma_lex_lt_asym(s[p].date, x.date);
                    }
                }
            }
        } else if a < p && b > p {
            assert(r[a] == s[a]);
            assert(r[b] == s[b - 1]);
        } else if a > p && b > p {
            assert(r[a] == s[a - 1]);
            assert(r[b] == s[b - 1]);
        }
    }
    vstd::seq_lib::to_multiset_insert(s, p, x);
}

/// The first position in `s` whose entry is strictly below `x`;
/// `s.len()` when there is none.
proof fn lemma_first_below(s: Seq<OperationModel>, x: OperationModel) -> (p: int)
    ensures
        0 <= p <= s.len(),
        forall|k: int| 0 <= k < p ==> !lex_lt(#[trigger] s[k].date, x.date),
        p < s.len() ==> lex_lt(s[p].date, x.date),
    decreases s.len(),
{
    if s.len() == 0 || lex_lt(s[0].date, x.date) {
        0
    } else {
        let q = lemma_first_below(s.drop_first(), x);
        assert forall|k: int| 0 <= k < q + 1 implies !lex_lt(#[trigger] s[k].date, x.date) by {
            if k > 0 {
                assert(s.drop_first()[k - 1] == s[k]);
            }
        }
        if q + 1 < s.len() {
            assert(s.drop_first()[q] == s[q + 1]);
        }
        q + 1
    }
}

/// Sorting yields a reverse-chronological sequence with exactly the
/// entries of the input: same length, same multiset of operations.
pub proof fn lemma_sort_desc_ensures(s: Seq<OperationModel>)
    ensures
        sorted_desc(sort_desc(s)),
        sort_desc(s).len() == s.len(),
        sort_desc(s).to_multiset() == s.to_multiset(),
    decreases s.len(),
{
    broadcast use vstd::seq_lib::group_to_multiset_ensures;

    if s.len() > 0 {
        lemma_sort_desc_ensures(s.drop_last());
        lemma_insert_desc_sorted(sort_desc(s.drop_last()), s.last());
        assert(s.drop_last().push(s.last()) =~= s);
    }
}

/// Inserts one operation into a reverse-chronologically sorted vector,
/// exactly as the stable spec insertion does.
fn insert_sorted(ops: &mut Vec<Operation>, x: Operation)
    requires
        sorted_desc(op_models(old(ops)@)),
    ensures
        op_models(final(ops)@) == insert_desc(op_models(old(ops)@), x@),
{
    let ghost m = op_models(ops@);
    let mut p: usize = 0;
    let mut found = false;
    while p < ops.len() && !found
        invariant
            0 <= p <= ops.len(),
            m == op_models(ops@),
            forall|k: int| 0 <= k < p ==> !lex_lt(m[k].date, x@.date),
            found ==> p < ops.len() && lex_lt(m[p as int].date, x@.date),
        decreases ops.len() - p - (if found {
            1int
        } else {
            0int
        }),
    {
        if str_lt(ops[p].date.as_str(), x.date.as_str()) {
            found = true;
        } else {
            p += 1;
        }
    }
    proof {
        lemma_insert_desc_at(m, x@, p as int);
    }
    ops.insert(p, x);
    proof {
        assert(op_models(ops@) =~= m.insert(p as int, x@));
    }
}

/// Whether the contact list holds the id, as executable code.
fn contains_id(contacts: &Vec<String>, id: &str) -> (r: bool)
    ensures
        r == crate::store::str_views(contacts@).contains(id@),
{
    let ghost cm = crate::store::str_views(contacts@);
    let mut k: usize = 0;
    while k < contacts.len()
        invariant
            k <= contacts.len(),
            cm == crate::store::str_views(contacts@),
            forall|j: int| 0 <= j < k ==> cm[j] != id@,
        decreases contacts.len() - k,
    {
        if str_eq(contacts[k].as_str(), id) {
            proof {
                assert(cm[k as int] == id@);
            }
            return true;
        }
        k += 1;
    }
    false
}

impl Database {
    /// The raw material of the feed for the account with the given
    /// number: a snapshot of the account and the transfers to it found
    /// in other users' histories via contact relationships. `None` when
    /// the account does not resolve.
    pub fn get_history(&self, number: &str) -> (r: Option<(User, Vec<Operation>)>)
        ensures
            (r is Some) == user_exists(self@, number@),
            r matches Some(p) ==> p.0@ == self@[find_user(self@, number@)] && op_models(p.1@)
                == received_ops(self@, number@),
    {
        let i = match crate::store::find_index(&self.users, number) {
            Some(i) => i,
            None => {
                return None;
            },
        };
        let mut received: Vec<Operation> = Vec::new();
        let mut k: usize = 0;
        while k < self.users.len()
            invariant
                k <= self.users.len(),
                op_models(received@) == received_ops(self@.take(k as int), number@),
            decreases self.users.len() - k,
        {
            let u = &self.users[k];
            let ghost before = received@;
            if !str_eq(u.number.as_str(), number) && contains_id(&u.contacts, number) {
                let mut t: usize = 0;
                while t < u.history.len()
                    invariant
                        t <= u.history.len(),
                        u == &self.users[k as int],
                        k < self.users.len(),
                        op_models(received@) == op_models(before) + ops_to(
                            u@.history.take(t as int),
                            number@,
                        ),
                    decreases u.history.len() - t,
                {
                    let ghost mid = received@;
                    if str_eq(u.history[t].to.as_str(), number) {
                        received.push(u.history[t].clone());
                    }
                    proof {
                        assert(u@.history.take(t + 1 as int).drop_last() =~= u@.history.take(
                            t as int,
                        ));
                        assert(u@.history.take(t + 1 as int).last() == u@.history[t as int]);
                        if u@.history[t as int].to == number@ {
                            assert(op_models(received@) =~= op_models(mid).push(
                                u@.history[t as int],
                            ));
                        }
                    }
                    t += 1;
                }
                proof {
                    assert(u@.history.take(u.history@.len() as int) =~= u@.history);
                }
            }
            proof {
                assert(self@.take(k + 1 as int).drop_last() =~= self@.take(k as int));
                assert(self@.take(k + 1 as int).last() == self@[k as int]);
                if !(self@[k as int].number != number@ && self@[k as int].contacts.contains(
                    number@,
                )) {
                    assert(received@ == before);
                }
                assert(op_models(received@) == received_ops(self@.take(k + 1 as int), number@));
            }
            k += 1;
        }
        proof {
            assert(self@.take(self.users@.len() as int) =~= self@);
        }
        let snapshot = self.users[i].clone();
        Some((snapshot, received))
    }

    /// The feed for the account with the given number: a snapshot of
    /// the account, and its own history merged with the transfers
    /// visible through contacts, sorted by timestamp with the most
    /// recent first and equal timestamps in their original order.
    /// `None` when the account does not resolve.
    pub fn build_history(&self, number: &str) -> (r: Option<(User, Vec<Operation>)>)
        ensures
            (r is Some) == user_exists(self@, number@),
            r matches Some(p) ==> p.0@ == self@[find_user(self@, number@)] && op_models(p.1@)
                == sort_desc(
                self@[find_user(self@, number@)].history + received_ops(self@, number@),
            ),
    {
        let (snapshot, received) = match self.get_history(number) {
            Some(p) => p,
            None => {
                return None;
            },
        };
        let ghost own = snapshot@.history;
        let ghost rec = op_models(received@);
        let mut feed: Vec<Operation> = Vec::new();
        let mut k: usize = 0;
        while k < snapshot.history.len()
            invariant
                k <= snapshot.history.len(),
                own == snapshot@.history,
                op_models(feed@) == sort_desc(own.take(k as int)),
            decreases snapshot.history.len() - k,
        {
            proof {
                lemma_sort_desc_ensures(own.take(k as int));
                assert(own.take(k + 1 as int).drop_last() =~= own.take(k as int));
                assert(own.take(k + 1 as int).last() == own[k as int]);
            }
            insert_sorted(&mut feed, snapshot.history[k].clone());
            k += 1;
        }
        proof {
            assert(own.take(snapshot.history@.len() as int) =~= own);
            assert(own + rec.take(0) =~= own);
        }
        let mut t: usize = 0;
        while t < received.len()
            invariant
                t <= received.len(),
                own == snapshot@.history,
                rec == op_models(received@),
                op_models(feed@) == sort_desc(own + rec.take(t as int)),
            decreases received.len() - t,
        {
            proof {
                lemma_sort_desc_ensures(own + rec.take(t as int));
                assert((own + rec.take(t + 1 as int)).drop_last() =~= own + rec.take(t as int));
                assert((own + rec.take(t + 1 as int)).last() == rec[t as int]);
            }
            insert_sorted(&mut feed, received[t].clone());
            t += 1;
        }
        proof {
            assert(rec.take(received@.len() as int) =~= rec);
        }
        Some((snapshot, feed))
    }
}

/// Direction of a feed entry from the viewpoint of the account with
/// the given number: true for a sent operation, false for a received
/// one.
pub fn classify_sent(operation: &Operation, number: &str) -> (r: bool)
    ensures
        r == (operation@.from == number@),
{
    str_eq(operation.from.as_str(), number)
}

} // verus!
