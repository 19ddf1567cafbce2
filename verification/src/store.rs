//! The in-memory relational store: one table per entity, each kept in the
//! `(updated_at, id)` store order with unique nonzero keys, so that cursor
//! pagination is well defined on every scope.

use vstd::prelude::*;

use crate::models::{ApiKey, Contact, Deal, DealContact, Org, Task, TaskDeal, TaskUser, User};
use crate::pagination::{ids_nonzero, ids_unique, rows_sorted, StoredRow};

verus! {

/// The well-formedness every paginated table keeps: rows in store order,
/// ids unique and nonzero.
pub open spec fn table_wf<R: StoredRow>(s: Seq<R>) -> bool {
    rows_sorted(s) && ids_unique(s) && ids_nonzero(s)
}

/// Whether two join rows name the same (deal, contact) pair.
pub open spec fn same_deal_pair(a: DealContact, b: DealContact) -> bool {
    a.deal_id.value == b.deal_id.value && a.contact_id.value == b.contact_id.value
}

/// Whether no two join rows name the same (deal, contact) pair.
pub open spec fn deal_pairs_unique(s: Seq<DealContact>) -> bool {
    forall|i: int, j: int| 0 <= i < j < s.len() ==> !same_deal_pair(#[trigger] s[i], #[trigger] s[j])
}

/// The store: one table per entity and join type.
pub struct Store {
    pub users: Vec<User>,
    pub orgs: Vec<Org>,
    pub contacts: Vec<Contact>,
    pub deals: Vec<Deal>,
    pub deal_contacts: Vec<DealContact>,
    pub tasks: Vec<Task>,
    pub task_deals: Vec<TaskDeal>,
    pub task_users: Vec<TaskUser>,
    pub api_keys: Vec<ApiKey>,
}

impl Store {
    /// The store invariant: every paginated table is in store order with
    /// unique nonzero keys, every row is well formed, and the deal-contact
    /// join holds each pair at most once.
    pub open spec fn wf(self) -> bool {
        &&& table_wf(self.users@)
        &&& table_wf(self.contacts@)
        &&& table_wf(self.deals@)
        &&& table_wf(self.tasks@)
        &&& forall|i: int| 0 <= i < self.users@.len() ==> (#[trigger] self.users@[i]).wf()
        &&& forall|i: int| 0 <= i < self.contacts@.len() ==> (#[trigger] self.contacts@[i]).wf()
        &&& forall|i: int| 0 <= i < self.deals@.len() ==> (#[trigger] self.deals@[i]).wf()
        &&& forall|i: int| 0 <= i < self.tasks@.len() ==> (#[trigger] self.tasks@[i]).wf()
        &&& forall|i: int| 0 <= i < self.deal_contacts@.len() ==> (#[trigger] self.deal_contacts@[i]).wf()
        &&& forall|i: int| 0 <= i < self.task_deals@.len() ==> (#[trigger] self.task_deals@[i]).wf()
        &&& forall|i: int| 0 <= i < self.task_users@.len() ==> (#[trigger] self.task_users@[i]).wf()
        &&& deal_pairs_unique(self.deal_contacts@)
    }

    /// An empty store.
    pub fn new() -> (s: Store)
        ensures
            s.wf(),
            s.users@.len() == 0,
            s.orgs@.len() == 0,
            s.contacts@.len() == 0,
            s.deals@.len() == 0,
            s.deal_contacts@.len() == 0,
            s.tasks@.len() == 0,
            s.task_deals@.len() == 0,
            s.task_users@.len() == 0,
            s.api_keys@.len() == 0,
    {
        Store {
            users: Vec::new(),
            orgs: Vec::new(),
            contacts: Vec::new(),
            deals: Vec::new(),
            deal_contacts: Vec::new(),
            tasks: Vec::new(),
            task_deals: Vec::new(),
            task_users: Vec::new(),
            api_keys: Vec::new(),
        }
    }
}

/// Whether an operation left every table but the contacts as it found it.
pub open spec fn only_contacts_changed(pre: Store, post: Store) -> bool {
    &&& post.users@ == pre.users@
    &&& post.orgs@ == pre.orgs@
    &&& post.deals@ == pre.deals@
    &&& post.deal_contacts@ == pre.deal_contacts@
    &&& post.tasks@ == pre.tasks@
    &&& post.task_deals@ == pre.task_deals@
    &&& post.task_users@ == pre.task_users@
    &&& post.api_keys@ == pre.api_keys@
}

/// Whether an operation left every table but the deals as it found it.
pub open spec fn only_deals_changed(pre: Store, post: Store) -> bool {
    &&& post.users@ == pre.users@
    &&& post.orgs@ == pre.orgs@
    &&& post.contacts@ == pre.contacts@
    &&& post.deal_contacts@ == pre.deal_contacts@
    &&& post.tasks@ == pre.tasks@
    &&& post.task_deals@ == pre.task_deals@
    &&& post.task_users@ == pre.task_users@
    &&& post.api_keys@ == pre.api_keys@
}

/// Whether an operation left every table but the deal-contact join as it
/// found it.
pub open spec fn only_deal_contacts_changed(pre: Store, post: Store) -> bool {
    &&& post.users@ == pre.users@
    &&& post.orgs@ == pre.orgs@
    &&& post.contacts@ == pre.contacts@
    &&& post.deals@ == pre.deals@
    &&& post.tasks@ == pre.tasks@
    &&& post.task_deals@ == pre.task_deals@
    &&& post.task_users@ == pre.task_users@
    &&& post.api_keys@ == pre.api_keys@
}

/// Whether an operation left every table but the users as it found it.
pub open spec fn only_users_changed(pre: Store, post: Store) -> bool {
    &&& post.orgs@ == pre.orgs@
    &&& post.contacts@ == pre.contacts@
    &&& post.deals@ == pre.deals@
    &&& post.deal_contacts@ == pre.deal_contacts@
    &&& post.tasks@ == pre.tasks@
    &&& post.task_deals@ == pre.task_deals@
    &&& post.task_users@ == pre.task_users@
    &&& post.api_keys@ == pre.api_keys@
}

} // verus!
