//! The ledger's data entities and the store that owns them.
//!
//! An `Operation` is the immutable record of one completed transfer, a
//! `User` is an account with a balance, a contact list and an append-only
//! history, and a `Database` owns the collection of accounts. Every value
//! is modelled by a ghost counterpart over `Seq` and `int`, and every
//! mutation is specified as a function of that model.

use vstd::prelude::*;

verus! {

/// Ghost model of an `Operation`: the character sequences of its fields
/// and its amount as a mathematical integer.
pub ghost struct OperationModel {
    pub from: Seq<char>,
    pub to: Seq<char>,
    pub value: int,
    pub date: Seq<char>,
}

/// Ghost model of a `User`.
pub ghost struct UserModel {
    pub number: Seq<char>,
    pub name: Seq<char>,
    pub balance: int,
    pub contacts: Seq<Seq<char>>,
    pub history: Seq<OperationModel>,
}

/// The record of one completed transfer: sender, receiver, amount and
/// the timestamp assigned when the transfer was executed.
#[derive(Debug)]
pub struct Operation {
    pub from: String,
    pub to: String,
    pub value: u32,
    pub date: String,
}

/// An account: its unique identifier, display name, balance, contact
/// list and append-only history of operations.
#[derive(Debug)]
pub struct User {
    pub number: String,
    pub name: String,
    pub balance: u32,
    pub contacts: Vec<String>,
    pub history: Vec<Operation>,
}

/// The store owning all accounts. Callers that share a `Database` must
/// serialize access to it (one exclusive guard around the whole store);
/// under that guard every mutation here is observed all-or-nothing.
pub struct Database {
    pub users: Vec<User>,
}

impl View for Operation {
    type V = OperationModel;

    open spec fn view(&self) -> OperationModel {
        OperationModel {
            from: self.from@,
            to: self.to@,
            value: self.value as int,
            date: self.date@,
        }
    }
}

/// The models of a sequence of operations.
pub open spec fn op_models(s: Seq<Operation>) -> Seq<OperationModel> {
    s.map_values(|o: Operation| o@)
}

/// The character sequences of a sequence of strings.
pub open spec fn str_views(s: Seq<String>) -> Seq<Seq<char>> {
    s.map_values(|t: String| t@)
}

impl View for User {
    type V = UserModel;

    open spec fn view(&self) -> UserModel {
        UserModel {
            number: self.number@,
            name: self.name@,
            balance: self.balance as int,
            contacts: str_views(self.contacts@),
            history: op_models(self.history@),
        }
    }
}

/// The models of a sequence of users.
pub open spec fn user_models(s: Seq<User>) -> Seq<UserModel> {
    s.map_values(|u: User| u@)
}

impl View for Database {
    type V = Seq<UserModel>;

    open spec fn view(&self) -> Seq<UserModel> {
        user_models(self.users@)
    }
}

impl Clone for Operation {
    /// An operation is cloned field by field; the clone equals the
    /// original.
    fn clone(&self) -> (r: Self)
        ensures
            r == *self,
    {
        Operation {
            from: self.from.clone(),
            to: self.to.clone(),
            value: self.value,
            date: self.date.clone(),
        }
    }
}

impl Clone for User {
    /// A cloned account denotes the same model as the original.
    fn clone(&self) -> (r: Self)
        ensures
            r@ == self@,
    {
        let r = User {
            number: self.number.clone(),
            name: self.name.clone(),
            balance: self.balance,
            contacts: self.contacts.clone(),
            history: self.history.clone(),
        };
        proof {
            assert(r.contacts@ =~= self.contacts@);
            assert(r.history@ =~= self.history@);
        }
        r
    }
}

/// The index of the first user whose number is `id`, scanning from
/// position `i`; `-1` if there is none.
pub open spec fn find_from(users: Seq<UserModel>, id: Seq<char>, i: int) -> int
    decreases users.len() - i,
{
    if i < 0 || i >= users.len() {
        -1
    } else if users[i].number == id {
        i
    } else {
        find_from(users, id, i + 1)
    }
}

/// The index of the first user whose number is `id`, or `-1`.
pub open spec fn find_user(users: Seq<UserModel>, id: Seq<char>) -> int {
    find_from(users, id, 0)
}

/// Whether some user carries the number `id`.
pub open spec fn user_exists(users: Seq<UserModel>, id: Seq<char>) -> bool {
    find_user(users, id) >= 0
}

/// What `find_from` returns: a valid index of a user with the sought
/// number, before which no user carries it, or `-1` when none does.
pub proof fn lemma_find_from_props(users: Seq<UserModel>, id: Seq<char>, i: int)
    requires
        0 <= i <= users.len(),
    ensures
        find_from(users, id, i) == -1 ==> forall|j: int|
            i <= j < users.len() ==> users[j].number != id,
        find_from(users, id, i) >= 0 ==> {
            let r = find_from(users, id, i);
            &&& i <= r < users.len()
            &&& users[r].number == id
            &&& forall|j: int| i <= j < r ==> users[j].number != id
        },
    decreases users.len() - i,
{
    if i < users.len() && users[i].number != id {
        lemma_find_from_props(users, id, i + 1);
    }
}

/// Two stores whose users carry the same numbers in the same order
/// agree on every lookup.
pub proof fn lemma_find_same_numbers(
    u1: Seq<UserModel>,
    u2: Seq<UserModel>,
    id: Seq<char>,
    i: int,
)
    requires
        u1.len() == u2.len(),
        forall|k: int| 0 <= k < u1.len() ==> u1[k].number == u2[k].number,
    ensures
        find_from(u1, id, i) == find_from(u2, id, i),
    decreases u1.len() - i,
{
    if 0 <= i && i < u1.len() && u1[i].number != id {
        lemma_find_same_numbers(u1, u2, id, i + 1);
    }
}

/// First index of a user with the given number, as executable code.
pub(crate) fn find_index(users: &Vec<User>, number: &str) -> (r: Option<usize>)
    ensures
        match r {
            Some(i) => i < users.len() && find_user(user_models(users@), number@) == i as int,
            None => find_user(user_models(users@), number@) == -1,
        },
{
    let mut i: usize = 0;
    while i < users.len()
        invariant
            i <= users.len(),
            find_from(user_models(users@), number@, 0) == find_from(
                user_models(users@),
                number@,
                i as int,
            ),
        decreases users.len() - i,
    {
        if crate::text::str_eq(users[i].number.as_str(), number) {
            return Some(i);
        }
        i += 1;
    }
    None
}

/// The user `u` with one more operation in its history.
pub open spec fn with_op(u: UserModel, op: OperationModel) -> UserModel {
    UserModel { history: u.history.push(op), ..u }
}

/// The store after recording `op` in the histories of its sender and
/// its receiver: the operation is appended to the first user matching
/// `op.from` and to the first user matching `op.to`; a self-transfer is
/// recorded exactly once, and a side that does not resolve is skipped.
pub open spec fn append_op(users: Seq<UserModel>, op: OperationModel) -> Seq<UserModel> {
    let i = find_user(users, op.from);
    let j = find_user(users, op.to);
    let recorded_from = if i >= 0 {
        users.update(i, with_op(users[i], op))
    } else {
        users
    };
    if j >= 0 && j != i {
        recorded_from.update(j, with_op(recorded_from[j], op))
    } else {
        recorded_from
    }
}

/// The store after moving `op.value` between the balances of sender and
/// receiver. A self-transfer leaves every balance unchanged.
pub open spec fn adjust_balances(users: Seq<UserModel>, op: OperationModel) -> Seq<UserModel> {
    let i = find_user(users, op.from);
    let j = find_user(users, op.to);
    if i == j {
        users
    } else {
        users.update(i, UserModel { balance: users[i].balance - op.value, ..users[i] }).update(
            j,
            UserModel { balance: users[j].balance + op.value, ..users[j] },
        )
    }
}

/// The store after the whole transfer `op`: balances moved and the
/// operation recorded on both sides, as one step.
pub open spec fn apply_transfer(users: Seq<UserModel>, op: OperationModel) -> Seq<UserModel> {
    append_op(adjust_balances(users, op), op)
}

/// Whether `op` can be applied: both parties resolve, the sender covers
/// the amount, and the receiver's balance stays within `u32`.
pub open spec fn transfer_fits(users: Seq<UserModel>, op: OperationModel) -> bool {
    let i = find_user(users, op.from);
    let j = find_user(users, op.to);
    &&& i >= 0
    &&& j >= 0
    &&& users[i].balance >= op.value
    &&& (i != j ==> users[j].balance + op.value <= u32::MAX)
}

impl Database {
    /// Appends a new account; used during seeding.
    pub fn add_user(&mut self, user: User)
        ensures
            final(self)@ == old(self)@.push(user@),
    {
        self.users.push(user);
        proof {
            assert(self@ =~= old(self)@.push(user@));
        }
    }

    /// Looks an account up by number: the first user carrying it, or
    /// `None` when no user does.
    pub fn get_user(&self, number: &str) -> (r: Option<&User>)
        ensures
            match r {
                Some(u) => user_exists(self@, number@) && u@ == self@[find_user(self@, number@)],
                None => !user_exists(self@, number@),
            },
    {
        match find_index(&self.users, number) {
            Some(i) => Some(&self.users[i]),
            None => None,
        }
    }

    /// Records a completed operation in the histories of its sender and
    /// receiver (each the first user with that number; once for a
    /// self-transfer; a side that does not resolve is skipped).
    pub fn add_operation(&mut self, operation: Operation)
        ensures
            final(self)@ == append_op(old(self)@, operation@),
    {
        let ghost m0 = self@;
        let i_opt = find_index(&self.users, operation.from.as_str());
        let j_opt = find_index(&self.users, operation.to.as_str());
        if let Some(i) = i_opt {
            let mut u = self.users.remove(i);
            u.history.push(operation.clone());
            self.users.insert(i, u);
            proof {
                assert(op_models(u.history@) =~= m0[i as int].history.push(operation@));
                assert(u@ == with_op(m0[i as int], operation@));
                assert(self@ =~= m0.update(i as int, with_op(m0[i as int], operation@)));
            }
        }
        let ghost m1 = self@;
        let record_to = match (i_opt, j_opt) {
            (Some(i), Some(j)) => i != j,
            (None, Some(_)) => true,
            _ => false,
        };
        if record_to {
            if let Some(j) = j_opt {
                let mut u = self.users.remove(j);
                u.history.push(operation.clone());
                self.users.insert(j, u);
                proof {
                    assert(op_models(u.history@) =~= m1[j as int].history.push(operation@));
                    assert(u@ == with_op(m1[j as int], operation@));
                    assert(self@ =~= m1.update(j as int, with_op(m1[j as int], operation@)));
                }
            }
        }
        proof {
            assert(self@ =~= append_op(m0, operation@));
        }
    }

    /// Applies a transfer that fits: debits the sender, credits the
    /// receiver and records the operation on both sides, leaving the
    /// store exactly at `apply_transfer` of its old state. The caller
    /// sees no intermediate state: under the store's exclusive guard
    /// the mutation is all-or-nothing.
    pub fn make_operation(&mut self, operation: Operation)
        requires
            transfer_fits(old(self)@, operation@),
        ensures
            final(self)@ == apply_transfer(old(self)@, operation@),
    {
        let ghost m0 = self@;
        let i = match find_index(&self.users, operation.from.as_str()) {
            Some(i) => i,
            None => {
                proof {
                    assert(false);
                }
                return ;
            },
        };
        let j = match find_index(&self.users, operation.to.as_str()) {
            Some(j) => j,
            None => {
                proof {
                    assert(false);
                }
                return ;
            },
        };
        if i != j {
            let mut u = self.users.remove(i);
            u.balance = u.balance - operation.value;
            self.users.insert(i, u);
            let mut w = self.users.remove(j);
            w.balance = w.balance + operation.value;
            self.users.insert(j, w);
            proof {
                assert(self@ =~= adjust_balances(m0, operation@));
            }
        }
        proof {
            assert(self@ == adjust_balances(m0, operation@));
            lemma_find_same_numbers(m0, self@, operation@.from, 0);
            lemma_find_same_numbers(m0, self@, operation@.to, 0);
        }
        self.add_operation(operation);
    }
}

} // verus!
