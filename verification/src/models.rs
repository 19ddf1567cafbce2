//! Entity rows. Every tenant-scoped entity carries a kind-tagged identifier
//! as its primary key, an organization (or parent) reference, and creation
//! and update timestamps in seconds. A factory stamps a fresh identifier and
//! the current time on each new row.

use vstd::prelude::*;

use crate::pagination::StoredRow;
use crate::prefixes::{fresh_u128, IdKind, TypedId};

verus! {

/// Relies on `chrono::Utc::now` and `chrono::DateTime::timestamp` for the
/// current time in seconds since the Unix epoch. Nothing is assumed of the
/// clock's value.
#[verifier::external_body]
pub(crate) fn now_seconds() -> i64 {
    chrono::Utc::now().timestamp()
}

/// A user's role within one organization.
#[derive(Clone, Copy, PartialEq, Eq, Structural, Debug)]
pub enum UserRole {
    Owner,
    Admin,
    User,
}

/// The role that a stored role number names; unknown numbers read as the
/// plain user role.
pub open spec fn role_of_i32(role: i32) -> UserRole {
    if role == 2 {
        UserRole::Owner
    } else if role == 1 {
        UserRole::Admin
    } else {
        UserRole::User
    }
}

/// The number that a role is stored as.
pub open spec fn i32_of_role(role: UserRole) -> i32 {
    match role {
        UserRole::Owner => 2,
        UserRole::Admin => 1,
        UserRole::User => 0,
    }
}

impl From<i32> for UserRole {
    fn from(role: i32) -> (r: Self) {
        match role {
            2 => UserRole::Owner,
            1 => UserRole::Admin,
            _ => UserRole::User,
        }
    }
}

impl vstd::std_specs::convert::FromSpecImpl<i32> for UserRole {
    open spec fn obeys_from_spec() -> bool {
        true
    }

    open spec fn from_spec(role: i32) -> Self {
        role_of_i32(role)
    }
}

impl From<UserRole> for i32 {
    fn from(role: UserRole) -> (r: Self) {
        match role {
            UserRole::Owner => 2,
            UserRole::Admin => 1,
            UserRole::User => 0,
        }
    }
}

impl vstd::std_specs::convert::FromSpecImpl<UserRole> for i32 {
    open spec fn obeys_from_spec() -> bool {
        true
    }

    open spec fn from_spec(role: UserRole) -> Self {
        i32_of_role(role)
    }
}

#[derive(Debug, PartialEq)]
pub struct User {
    pub id: TypedId,
    pub email: String,
    pub created_at: i64,
    pub updated_at: i64,
    pub name: Option<String>,
}

impl User {
    /// A stored user row is keyed by a nonzero user identifier.
    pub open spec fn wf(self) -> bool {
        self.id.kind == IdKind::User && self.id.value != 0
    }

    pub fn from_details(email: String, name: Option<String>) -> (u: User)
        ensures
            u.wf(),
            u.email == email,
            u.name == name,
            u.created_at == u.updated_at,
    {
        let now = now_seconds();
        User { id: TypedId::create(IdKind::User), email, created_at: now, updated_at: now, name }
    }

    pub fn from_details_with_id(id: TypedId, email: String, name: Option<String>) -> (u: User)
        requires
            id.kind == IdKind::User,
        ensures
            u.id == id,
            u.email == email,
            u.name == name,
            u.created_at == u.updated_at,
    {
        let now = now_seconds();
        User { id, email, name, created_at: now, updated_at: now }
    }
}

impl StoredRow for User {
    open spec fn row_id(&self) -> u128 {
        self.id.value
    }

    open spec fn row_updated(&self) -> i64 {
        self.updated_at
    }

    fn id_value(&self) -> u128 {
        self.id.value
    }

    fn updated_value(&self) -> i64 {
        self.updated_at
    }

    fn copy_row(&self) -> Self {
        User {
            id: self.id,
            email: self.email.clone(),
            created_at: self.created_at,
            updated_at: self.updated_at,
            name: match &self.name {
                Some(n) => Some(n.clone()),
                None => None,
            },
        }
    }
}

#[derive(Debug, PartialEq)]
pub struct Org {
    pub id: TypedId,
    pub name: String,
    pub created_at: i64,
    pub updated_at: i64,
}

impl Org {
    pub fn from_details(name: String) -> (o: Org)
        ensures
            o.id.kind == IdKind::Org && o.id.value != 0,
            o.name == name,
            o.created_at == o.updated_at,
    {
        let now = now_seconds();
        Org { id: TypedId::create(IdKind::Org), name, created_at: now, updated_at: now }
    }

    pub fn from_details_with_id(id: TypedId, name: String) -> (o: Org)
        requires
            id.kind == IdKind::Org,
        ensures
            o.id == id,
            o.name == name,
            o.created_at == o.updated_at,
    {
        let now = now_seconds();
        Org { id, name, created_at: now, updated_at: now }
    }
}

#[derive(Debug, PartialEq)]
pub struct Deal {
    pub id: TypedId,
    pub name: Option<String>,
    pub org_id: TypedId,
    /// The deal size as the bit pattern of a 32-bit IEEE 754 value; the
    /// boundary converts from and to the floating-point form.
    pub size_bits: Option<u32>,
    pub active: bool,
    pub created_at: i64,
    pub updated_at: i64,
}

impl Deal {
    /// A stored deal row is keyed by a nonzero deal identifier and scoped to
    /// an organization.
    pub open spec fn wf(self) -> bool {
        self.id.kind == IdKind::Deal && self.id.value != 0 && self.org_id.kind == IdKind::Org
    }

    pub fn from_details(org_id: TypedId, name: Option<String>, size_bits: Option<u32>, active: bool) -> (d: Deal)
        requires
            org_id.kind == IdKind::Org,
        ensures
            d.wf(),
            d.org_id == org_id,
            d.name == name,
            d.size_bits == size_bits,
            d.active == active,
            d.created_at == d.updated_at,
    {
        let now = now_seconds();
        Deal {
            id: TypedId::create(IdKind::Deal),
            name,
            org_id,
            size_bits,
            active,
            created_at: now,
            updated_at: now,
        }
    }
}

impl StoredRow for Deal {
    open spec fn row_id(&self) -> u128 {
        self.id.value
    }

    open spec fn row_updated(&self) -> i64 {
        self.updated_at
    }

    fn id_value(&self) -> u128 {
        self.id.value
    }

    fn updated_value(&self) -> i64 {
        self.updated_at
    }

    fn copy_row(&self) -> Self {
        Deal {
            id: self.id,
            name: match &self.name {
                Some(n) => Some(n.clone()),
                None => None,
            },
            org_id: self.org_id,
            size_bits: self.size_bits,
            active: self.active,
            created_at: self.created_at,
            updated_at: self.updated_at,
        }
    }
}

#[derive(Debug, PartialEq)]
pub struct DealContact {
    pub id: TypedId,
    pub deal_id: TypedId,
    pub contact_id: TypedId,
    pub created_at: i64,
    pub updated_at: i64,
}

impl DealContact {
    /// A stored link row joins a deal to a contact under its own key.
    pub open spec fn wf(self) -> bool {
        self.id.kind == IdKind::DealContact && self.id.value != 0
            && self.deal_id.kind == IdKind::Deal && self.contact_id.kind == IdKind::Contact
    }

    pub fn from_details(deal_id: TypedId, contact_id: TypedId) -> (dc: DealContact)
        requires
            deal_id.kind == IdKind::Deal,
            contact_id.kind == IdKind::Contact,
        ensures
            dc.wf(),
            dc.deal_id == deal_id,
            dc.contact_id == contact_id,
            dc.created_at == dc.updated_at,
    {
        let now = now_seconds();
        DealContact {
            id: TypedId::create(IdKind::DealContact),
            deal_id,
            contact_id,
            created_at: now,
            updated_at: now,
        }
    }

    pub fn copy(&self) -> (r: Self)
        ensures
            r == *self,
    {
        DealContact {
            id: self.id,
            deal_id: self.deal_id,
            contact_id: self.contact_id,
            created_at: self.created_at,
            updated_at: self.updated_at,
        }
    }
}

#[derive(Debug, PartialEq)]
pub struct OrgUserLink {
    pub id: TypedId,
    pub user_id: TypedId,
    pub org_id: TypedId,
    pub role: i32,
}

impl OrgUserLink {
    pub fn from_details(user_id: TypedId, org_id: TypedId, role: UserRole) -> (l: OrgUserLink)
        requires
            user_id.kind == IdKind::User,
            org_id.kind == IdKind::Org,
        ensures
            l.id.kind == IdKind::OrgUser && l.id.value != 0,
            l.user_id == user_id,
            l.org_id == org_id,
            l.role == i32_of_role(role),
    {
        OrgUserLink {
            id: TypedId::create(IdKind::OrgUser),
            user_id,
            org_id,
            role: i32::from(role),
        }
    }
}

#[derive(Debug, PartialEq)]
pub struct Plan {
    pub id: u128,
    pub stripe_id: String,
    pub num_users: i32,
    pub num_deals: i32,
    pub price_per_month: i32,
    pub created_at: i64,
    pub updated_at: i64,
}

impl Plan {
    pub fn from_details(stripe_id: String, num_users: i32, num_deals: i32, price_per_month: i32) -> (p: Plan)
        ensures
            p.stripe_id == stripe_id,
            p.num_users == num_users,
            p.num_deals == num_deals,
            p.price_per_month == price_per_month,
            p.created_at == p.updated_at,
    {
        let now = now_seconds();
        Plan {
            id: fresh_u128(),
            stripe_id,
            num_users,
            num_deals,
            price_per_month,
            created_at: now,
            updated_at: now,
        }
    }
}

#[derive(Debug, PartialEq)]
pub struct Invitation {
    pub id: u128,
    pub email: String,
    pub organization_id: TypedId,
    pub used: bool,
    pub created_at: i64,
    pub updated_at: i64,
    pub role: i32,
}

impl Invitation {
    pub fn from_details(email: String, organization_id: TypedId, role: i32) -> (inv: Invitation)
        requires
            organization_id.kind == IdKind::Org,
        ensures
            inv.email == email,
            inv.organization_id == organization_id,
            inv.role == role,
            !inv.used,
            inv.created_at == inv.updated_at,
    {
        let now = now_seconds();
        Invitation {
            id: fresh_u128(),
            email,
            organization_id,
            used: false,
            created_at: now,
            updated_at: now,
            role,
        }
    }
}

#[derive(Debug, PartialEq)]
pub struct ApiKey {
    pub id: u128,
    pub user_id: TypedId,
    pub name: String,
    pub blake3_hash: String,
    pub created_at: i64,
    pub updated_at: i64,
}

impl ApiKey {
    pub fn from_details(user_id: TypedId, name: String, blake3_hash: String) -> (k: ApiKey)
        requires
            user_id.kind == IdKind::User,
        ensures
            k.user_id == user_id,
            k.name == name,
            k.blake3_hash == blake3_hash,
            k.created_at == k.updated_at,
    {
        let now = now_seconds();
        ApiKey { id: fresh_u128(), user_id, name, blake3_hash, created_at: now, updated_at: now }
    }
}

#[derive(Debug, PartialEq)]
pub struct Contact {
    pub id: TypedId,
    pub org_id: TypedId,
    pub first_name: String,
    pub last_name: String,
    pub created_at: i64,
    pub updated_at: i64,
}

impl Contact {
    /// A stored contact row is keyed by a nonzero contact identifier and
    /// scoped to an organization.
    pub open spec fn wf(self) -> bool {
        self.id.kind == IdKind::Contact && self.id.value != 0 && self.org_id.kind == IdKind::Org
    }

    pub fn from_details(org_id: TypedId, first_name: String, last_name: String) -> (c: Contact)
        requires
            org_id.kind == IdKind::Org,
        ensures
            c.wf(),
            c.org_id == org_id,
            c.first_name == first_name,
            c.last_name == last_name,
            c.created_at == c.updated_at,
    {
        let now = now_seconds();
        Contact {
            id: TypedId::create(IdKind::Contact),
            org_id,
            first_name,
            last_name,
            created_at: now,
            updated_at: now,
        }
    }
}

impl StoredRow for Contact {
    open spec fn row_id(&self) -> u128 {
        self.id.value
    }

    open spec fn row_updated(&self) -> i64 {
        self.updated_at
    }

    fn id_value(&self) -> u128 {
        self.id.value
    }

    fn updated_value(&self) -> i64 {
        self.updated_at
    }

    fn copy_row(&self) -> Self {
        Contact {
            id: self.id,
            org_id: self.org_id,
            first_name: self.first_name.clone(),
            last_name: self.last_name.clone(),
            created_at: self.created_at,
            updated_at: self.updated_at,
        }
    }
}

#[derive(Debug, PartialEq)]
pub struct Note {
    pub id: TypedId,
    pub title: String,
    pub body: String,
    pub org_id: TypedId,
    pub created_at: i64,
    pub updated_at: i64,
}

impl Note {
    pub fn from_title(title: String, org_id: TypedId) -> (n: Note)
        requires
            org_id.kind == IdKind::Org,
        ensures
            n.id.kind == IdKind::Note && n.id.value != 0,
            n.title == title,
            n.body@ == Seq::<char>::empty(),
            n.org_id == org_id,
            n.created_at == n.updated_at,
    {
        let now = now_seconds();
        Note {
            id: TypedId::create(IdKind::Note),
            title,
            body: String::new(),
            org_id,
            created_at: now,
            updated_at: now,
        }
    }
}

#[derive(Debug, PartialEq)]
pub struct Link {
    pub id: TypedId,
    pub link: String,
    pub org_id: TypedId,
    pub created_at: i64,
    pub updated_at: i64,
}

impl Link {
    pub fn from_details(link: String, org_id: TypedId) -> (l: Link)
        requires
            org_id.kind == IdKind::Org,
        ensures
            l.id.kind == IdKind::Link && l.id.value != 0,
            l.link == link,
            l.org_id == org_id,
            l.created_at == l.updated_at,
    {
        let now = now_seconds();
        Link { id: TypedId::create(IdKind::Link), org_id, link, created_at: now, updated_at: now }
    }
}

#[derive(Debug, PartialEq)]
pub struct Email {
    pub id: TypedId,
    pub email: String,
    pub org_id: TypedId,
    pub created_at: i64,
    pub updated_at: i64,
}

impl Email {
    pub fn from_details(email: String, org_id: TypedId) -> (e: Email)
        requires
            org_id.kind == IdKind::Org,
        ensures
            e.id.kind == IdKind::Email && e.id.value != 0,
            e.email == email,
            e.org_id == org_id,
            e.created_at == e.updated_at,
    {
        let now = now_seconds();
        Email { id: TypedId::create(IdKind::Email), email, org_id, created_at: now, updated_at: now }
    }
}

#[derive(Debug, PartialEq)]
pub struct Phone {
    pub id: TypedId,
    pub number: String,
    pub org_id: TypedId,
    pub created_at: i64,
    pub updated_at: i64,
}

impl Phone {
    pub fn from_details(org_id: TypedId, number: String) -> (p: Phone)
        requires
            org_id.kind == IdKind::Org,
        ensures
            p.id.kind == IdKind::Phone && p.id.value != 0,
            p.number == number,
            p.org_id == org_id,
            p.created_at == p.updated_at,
    {
        let now = now_seconds();
        Phone { id: TypedId::create(IdKind::Phone), number, org_id, created_at: now, updated_at: now }
    }
}

#[derive(Debug, PartialEq)]
pub struct Task {
    pub id: TypedId,
    pub deadline: Option<i64>,
    pub description: Option<String>,
    pub contact_id: Option<TypedId>,
    pub org_id: TypedId,
    pub created_at: i64,
    pub updated_at: i64,
}

impl Task {
    /// A stored task row is keyed by a nonzero task identifier, scoped to an
    /// organization, and points at a contact only with a contact identifier.
    pub open spec fn wf(self) -> bool {
        self.id.kind == IdKind::Task && self.id.value != 0 && self.org_id.kind == IdKind::Org
            && match self.contact_id {
                Some(c) => c.kind == IdKind::Contact,
                None => true,
            }
    }

    pub fn from_details(
        org_id: TypedId,
        deadline: Option<i64>,
        description: Option<String>,
        contact_id: Option<TypedId>,
    ) -> (t: Task)
        requires
            org_id.kind == IdKind::Org,
            match contact_id {
                Some(c) => c.kind == IdKind::Contact,
                None => true,
            },
        ensures
            t.wf(),
            t.org_id == org_id,
            t.deadline == deadline,
            t.description == description,
            t.contact_id == contact_id,
            t.created_at == t.updated_at,
    {
        let now = now_seconds();
        Task {
            id: TypedId::create(IdKind::Task),
            deadline,
            description,
            contact_id,
            org_id,
            created_at: now,
            updated_at: now,
        }
    }
}

impl StoredRow for Task {
    open spec fn row_id(&self) -> u128 {
        self.id.value
    }

    open spec fn row_updated(&self) -> i64 {
        self.updated_at
    }

    fn id_value(&self) -> u128 {
        self.id.value
    }

    fn updated_value(&self) -> i64 {
        self.updated_at
    }

    fn copy_row(&self) -> Self {
        Task {
            id: self.id,
            deadline: self.deadline,
            description: match &self.description {
                Some(d) => Some(d.clone()),
                None => None,
            },
            contact_id: self.contact_id,
            org_id: self.org_id,
            created_at: self.created_at,
            updated_at: self.updated_at,
        }
    }
}

#[derive(Debug, PartialEq)]
pub struct Company {
    pub id: TypedId,
    pub name: String,
    pub org_id: TypedId,
    pub created_at: i64,
    pub updated_at: i64,
}

impl Company {
    pub fn from_name(name: String, org_id: TypedId) -> (c: Company)
        requires
            org_id.kind == IdKind::Org,
        ensures
            c.id.kind == IdKind::Company && c.id.value != 0,
            c.name == name,
            c.org_id == org_id,
            c.created_at == c.updated_at,
    {
        let now = now_seconds();
        Company { id: TypedId::create(IdKind::Company), name, org_id, created_at: now, updated_at: now }
    }
}

#[derive(Debug, PartialEq)]
pub struct TaskDeal {
    pub id: TypedId,
    pub task_id: TypedId,
    pub deal_id: TypedId,
    pub created_at: i64,
    pub updated_at: i64,
}

impl TaskDeal {
    /// A stored link row joins a task to a deal under its own key.
    pub open spec fn wf(self) -> bool {
        self.id.kind == IdKind::TaskDeal && self.id.value != 0
            && self.task_id.kind == IdKind::Task && self.deal_id.kind == IdKind::Deal
    }

    pub fn from_details(task_id: TypedId, deal_id: TypedId) -> (td: TaskDeal)
        requires
            task_id.kind == IdKind::Task,
            deal_id.kind == IdKind::Deal,
        ensures
            td.wf(),
            td.task_id == task_id,
            td.deal_id == deal_id,
            td.created_at == td.updated_at,
    {
        let now = now_seconds();
        TaskDeal {
            id: TypedId::create(IdKind::TaskDeal),
            task_id,
            deal_id,
            created_at: now,
            updated_at: now,
        }
    }
}

#[derive(Debug, PartialEq)]
pub struct TaskLink {
    pub id: TypedId,
    pub task_id: TypedId,
    pub link_id: TypedId,
    pub created_at: i64,
    pub updated_at: i64,
}

impl TaskLink {
    pub fn from_details(task_id: TypedId, link_id: TypedId) -> (tl: TaskLink)
        requires
            task_id.kind == IdKind::Task,
            link_id.kind == IdKind::Link,
        ensures
            tl.id.kind == IdKind::TaskLink && tl.id.value != 0,
            tl.task_id == task_id,
            tl.link_id == link_id,
            tl.created_at == tl.updated_at,
    {
        let now = now_seconds();
        TaskLink {
            id: TypedId::create(IdKind::TaskLink),
            task_id,
            link_id,
            created_at: now,
            updated_at: now,
        }
    }
}

#[derive(Debug, PartialEq)]
pub struct TaskUser {
    pub id: TypedId,
    pub task_id: TypedId,
    pub user_id: TypedId,
    pub created_at: i64,
    pub updated_at: i64,
}

impl TaskUser {
    /// A stored link row joins a task to a user under its own key.
    pub open spec fn wf(self) -> bool {
        self.id.kind == IdKind::TaskUser && self.id.value != 0
            && self.task_id.kind == IdKind::Task && self.user_id.kind == IdKind::User
    }

    pub fn from_details(task_id: TypedId, user_id: TypedId) -> (tu: TaskUser)
        requires
            task_id.kind == IdKind::Task,
            user_id.kind == IdKind::User,
        ensures
            tu.wf(),
            tu.task_id == task_id,
            tu.user_id == user_id,
            tu.created_at == tu.updated_at,
    {
        let now = now_seconds();
        TaskUser {
            id: TypedId::create(IdKind::TaskUser),
            task_id,
            user_id,
            created_at: now,
            updated_at: now,
        }
    }
}

} // verus!
