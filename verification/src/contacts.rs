//! The contact resolver: turns an account's contact list into resolved
//! `(name, number)` pairs, silently dropping entries that do not
//! resolve — a deliberate best-effort policy, not an error.

use vstd::prelude::*;
use crate::store::{Database, UserModel, find_user, user_exists};

verus! {

/// The views of a sequence of `(name, number)` pairs.
pub open spec fn pair_views(s: Seq<(String, String)>) -> Seq<(Seq<char>, Seq<char>)> {
    s.map_values(|p: (String, String)| (p.0@, p.1@))
}

/// The resolved contact list: for each id in `contacts`, in order and
/// with duplicates preserved, the `(name, number)` of the first user
/// carrying that id; ids no user carries are dropped.
pub open spec fn resolve_contacts(users: Seq<UserModel>, contacts: Seq<Seq<char>>) -> Seq<
    (Seq<char>, Seq<char>),
>
    decreases contacts.len(),
{
    if contacts.len() == 0 {
        Seq::empty()
    } else {
        let rest = resolve_contacts(users, contacts.drop_last());
        let i = find_user(users, contacts.last());
        if i >= 0 {
            rest.push((users[i].name, users[i].number))
        } else {
            rest
        }
    }
}

impl Database {
    /// Resolves the contact list of the account with the given number:
    /// `None` when the account itself does not resolve, otherwise the
    /// resolved `(name, number)` pairs of its contacts.
    pub fn get_contacts(&self, number: &str) -> (r: Option<Vec<(String, String)>>)
        ensures
            (r is Some) == user_exists(self@, number@),
            r matches Some(v) ==> pair_views(v@) == resolve_contacts(
                self@,
                self@[find_user(self@, number@)].contacts,
            ),
    {
        let i = match crate::store::find_index(&self.users, number) {
            Some(i) => i,
            None => {
                return None;
            },
        };
        let user = &self.users[i];
        let ghost cm = self@[i as int].contacts;
        let mut out: Vec<(String, String)> = Vec::new();
        let mut k: usize = 0;
        while k < user.contacts.len()
            invariant
                k <= user.contacts.len(),
                i < self.users.len(),
                user == &self.users[i as int],
                cm == self@[i as int].contacts,
                cm == crate::store::str_views(user.contacts@),
                pair_views(out@) == resolve_contacts(self@, cm.take(k as int)),
            decreases user.contacts.len() - k,
        {
            let c = &user.contacts[k];
            let ghost prev = out@;
            match crate::store::find_index(&self.users, c.as_str()) {
                Some(t) => {
                    let target = &self.users[t];
                    out.push((target.name.clone(), target.number.clone()));
                },
                None => {},
            }
            proof {
                assert(cm.take(k + 1 as int).drop_last() =~= cm.take(k as int));
                assert(cm.take(k + 1 as int).last() == cm[k as int]);
                if find_user(self@, cm[k as int]) >= 0 {
                    assert(pair_views(out@) =~= pair_views(prev).push(
                        (
                            self@[find_user(self@, cm[k as int])].name,
                            self@[find_user(self@, cm[k as int])].number,
                        ),
                    ));
                }
                assert(pair_views(out@) == resolve_contacts(self@, cm.take(k + 1 as int)));
            }
            k += 1;
        }
        proof {
            assert(cm.take(user.contacts@.len() as int) =~= cm);
        }
        Some(out)
    }
}

} // verus!
