//! The user repository: point lookups by id, api key and email, creation
//! with an identity-provider-issued id, and the task-scoped listing built on
//! the cursor pagination helper.

use vstd::prelude::*;
use vstd::seq_lib::group_seq_lib_default;
use vstd::seq_lib::group_to_multiset_ensures;

use crate::errors::ServiceError;
use crate::models::{ApiKey, TaskUser, User};
use crate::pagination::{
    find_by_id, find_index_by_id, insert_sorted, lemma_filter_ids_nonzero, lemma_filter_sorted,
    lemma_find_none, lemma_find_step, lemma_insert_keeps_all, limit_spec, limit_to_usize, page,
    page_spec, StoredRow,
};
use crate::prefixes::{IdKind, TypedId};
use crate::store::{only_users_changed, Store};

verus! {

broadcast use group_seq_lib_default, group_to_multiset_ensures;

/// The stored user with the given identifier, or `NotFound`.
pub fn get_user_by_id_query(db: &Store, user_id: &TypedId) -> (r: Result<User, ServiceError>)
    requires
        db.wf(),
        user_id.kind == IdKind::User,
    ensures
        r == match find_by_id(db.users@, user_id.value) {
            Some(u) => Ok::<User, ServiceError>(u),
            None => Err::<User, ServiceError>(ServiceError::NotFound),
        },
{
    match find_index_by_id(&db.users, user_id.value) {
        Some(i) => Ok(db.users[i].copy_row()),
        None => Err(ServiceError::NotFound),
    }
}

/// Stores a user under an identifier issued by the identity provider.
/// Succeeds exactly when the identifier is nonzero and not yet present;
/// anything else is a constraint violation, reported as `Conflict`.
pub fn create_user_query(
    db: &mut Store,
    user_id: TypedId,
    email: String,
    name: Option<String>,
) -> (r: Result<User, ServiceError>)
    requires
        old(db).wf(),
        user_id.kind == IdKind::User,
    ensures
        final(db).wf(),
        only_users_changed(*old(db), *final(db)),
        match r {
            Ok(u) => user_id.value != 0 && find_by_id(old(db).users@, user_id.value) is None
                && u.id == user_id && u.email == email && u.name == name
                && u.created_at == u.updated_at
                && final(db).users@.to_multiset() == old(db).users@.to_multiset().insert(u)
                && find_by_id(final(db).users@, user_id.value) == Some(u),
            Err(e) => e == ServiceError::Conflict && *final(db) == *old(db)
                && (user_id.value == 0 || find_by_id(old(db).users@, user_id.value) is Some),
        },
{
    let idv = user_id.value;
    if idv == 0 {
        return Err(ServiceError::Conflict);
    }
    if find_index_by_id(&db.users, idv).is_some() {
        return Err(ServiceError::Conflict);
    }
    proof {
        lemma_find_none(db.users@, idv);
    }
    let u = User::from_details_with_id(user_id, email, name);
    let out = u.copy_row();
    let ghost pre = db.users@;
    let i = insert_sorted(&mut db.users, u);
    proof {
        lemma_insert_keeps_all(pre, i as int, u, |r: User| r.wf());
        assert(forall|j: int| 0 <= j < db.users@.len()
            ==> (|r: User| r.wf())(#[trigger] db.users@[j]));
        assert(db.users@ =~= pre.take(i as int) + seq![u] + pre.skip(i as int));
        assert(forall|j: int| 0 <= j < i ==> (#[trigger] db.users@[j]) == pre[j]);
        lemma_find_step(db.users@, idv, i as int);
        assert(db.users@.skip(i as int)[0] == u);
    }
    Ok(out)
}

/// The first stored api key whose hash matches, if any.
pub open spec fn find_key_by_hash(s: Seq<ApiKey>, h: Seq<char>) -> Option<ApiKey>
    decreases s.len(),
{
    if s.len() == 0 {
        None
    } else if s[0].blake3_hash@ == h {
        Some(s[0])
    } else {
        find_key_by_hash(s.skip(1), h)
    }
}

proof fn lemma_find_key_step(s: Seq<ApiKey>, h: Seq<char>, i: int)
    requires
        0 <= i <= s.len(),
        forall|j: int| 0 <= j < i ==> (#[trigger] s[j]).blake3_hash@ != h,
    ensures
        find_key_by_hash(s, h) == find_key_by_hash(s.skip(i), h),
    decreases i,
{
    if i > 0 {
        assert(s.len() > 0);
        assert(s[0].blake3_hash@ != h);
        assert(find_key_by_hash(s, h) == find_key_by_hash(s.skip(1), h));
        assert(s.skip(1).skip(i - 1) =~= s.skip(i));
        assert(forall|j: int| 0 <= j < i - 1 ==> (#[trigger] s.skip(1)[j]).blake3_hash@ != h);
        lemma_find_key_step(s.skip(1), h, i - 1);
    } else {
        assert(s.skip(0) =~= s);
    }
}

/// The user that owns the api key with the given hash: the key table is
/// scanned for the first matching hash, then the owner is looked up. A
/// missing key or owner is `NotFound`.
pub fn get_user_from_api_key_query(db: &Store, api_key_hash: &String) -> (r: Result<User, ServiceError>)
    requires
        db.wf(),
    ensures
        r == match find_key_by_hash(db.api_keys@, api_key_hash@) {
            Some(k) => match find_by_id(db.users@, k.user_id.value) {
                Some(u) => Ok::<User, ServiceError>(u),
                None => Err::<User, ServiceError>(ServiceError::NotFound),
            },
            None => Err::<User, ServiceError>(ServiceError::NotFound),
        },
{
    let mut i: usize = 0;
    while i < db.api_keys.len()
        invariant
            i <= db.api_keys@.len(),
            forall|j: int| 0 <= j < i ==> (#[trigger] db.api_keys@[j]).blake3_hash@ != api_key_hash@,
        decreases db.api_keys@.len() - i,
    {
        if db.api_keys[i].blake3_hash == *api_key_hash {
            proof {
                lemma_find_key_step(db.api_keys@, api_key_hash@, i as int);
                assert(db.api_keys@.skip(i as int)[0] == db.api_keys@[i as int]);
            }
            let owner = db.api_keys[i].user_id.value;
            return match find_index_by_id(&db.users, owner) {
                Some(u) => Ok(db.users[u].copy_row()),
                None => Err(ServiceError::NotFound),
            };
        }
        i += 1;
    }
    proof {
        lemma_find_key_step(db.api_keys@, api_key_hash@, db.api_keys@.len() as int);
        assert(db.api_keys@.skip(db.api_keys@.len() as int) =~= Seq::<ApiKey>::empty());
    }
    Err(ServiceError::NotFound)
}

/// The first stored user with the given email, if any.
pub open spec fn find_user_by_email(s: Seq<User>, e: Seq<char>) -> Option<User>
    decreases s.len(),
{
    if s.len() == 0 {
        None
    } else if s[0].email@ == e {
        Some(s[0])
    } else {
        find_user_by_email(s.skip(1), e)
    }
}

proof fn lemma_find_email_step(s: Seq<User>, e: Seq<char>, i: int)
    requires
        0 <= i <= s.len(),
        forall|j: int| 0 <= j < i ==> (#[trigger] s[j]).email@ != e,
    ensures
        find_user_by_email(s, e) == find_user_by_email(s.skip(i), e),
    decreases i,
{
    if i > 0 {
        assert(s.len() > 0);
        assert(s[0].email@ != e);
        assert(find_user_by_email(s, e) == find_user_by_email(s.skip(1), e));
        assert(s.skip(1).skip(i - 1) =~= s.skip(i));
        assert(forall|j: int| 0 <= j < i - 1 ==> (#[trigger] s.skip(1)[j]).email@ != e);
        lemma_find_email_step(s.skip(1), e, i - 1);
    } else {
        assert(s.skip(0) =~= s);
    }
}

/// The first stored user with the given email, or `NotFound`.
pub fn get_user_by_email_query(db: &Store, email: &String) -> (r: Result<User, ServiceError>)
    requires
        db.wf(),
    ensures
        r == match find_user_by_email(db.users@, email@) {
            Some(u) => Ok::<User, ServiceError>(u),
            None => Err::<User, ServiceError>(ServiceError::NotFound),
        },
{
    let mut i: usize = 0;
    while i < db.users.len()
        invariant
            i <= db.users@.len(),
            forall|j: int| 0 <= j < i ==> (#[trigger] db.users@[j]).email@ != email@,
        decreases db.users@.len() - i,
    {
        if db.users[i].email == *email {
            proof {
                lemma_find_email_step(db.users@, email@, i as int);
                assert(db.users@.skip(i as int)[0] == db.users@[i as int]);
            }
            return Ok(db.users[i].copy_row());
        }
        i += 1;
    }
    proof {
        lemma_find_email_step(db.users@, email@, db.users@.len() as int);
        assert(db.users@.skip(db.users@.len() as int) =~= Seq::<User>::empty());
    }
    Err(ServiceError::NotFound)
}

/// Whether the join table links a task to a user.
pub open spec fn has_task_user_link(links: Seq<TaskUser>, taskv: u128, userv: u128) -> bool {
    exists|j: int| 0 <= j < links.len()
        && (#[trigger] links[j]).task_id.value == taskv && links[j].user_id.value == userv
}

/// The predicate that scopes users to one task through the join table.
pub open spec fn user_linked_to_task(links: Seq<TaskUser>, taskv: u128) -> spec_fn(User) -> bool {
    |u: User| has_task_user_link(links, taskv, u.id.value)
}

/// The users that the join table links to one task, in store order.
pub open spec fn users_of_task(db: Store, taskv: u128) -> Seq<User> {
    db.users@.filter(user_linked_to_task(db.task_users@, taskv))
}

/// Whether the join table holds a row for the given (task, user) pair.
fn task_user_links_contain(links: &Vec<TaskUser>, taskv: u128, userv: u128) -> (r: bool)
    ensures
        r == has_task_user_link(links@, taskv, userv),
{
    let mut i: usize = 0;
    while i < links.len()
        invariant
            i <= links@.len(),
            forall|j: int| 0 <= j < i ==> !((#[trigger] links@[j]).task_id.value == taskv
                && links@[j].user_id.value == userv),
        decreases links@.len() - i,
    {
        if links[i].task_id.value == taskv && links[i].user_id.value == userv {
            return true;
        }
        i += 1;
    }
    false
}

/// Exec filter of the user table to the rows the join table links to a
/// task.
fn users_of_task_rows(users: &Vec<User>, links: &Vec<TaskUser>, taskv: u128) -> (out: Vec<User>)
    ensures
        out@ == users@.filter(user_linked_to_task(links@, taskv)),
{
    let ghost pred = user_linked_to_task(links@, taskv);
    let mut out: Vec<User> = Vec::new();
    let mut i: usize = 0;
    while i < users.len()
        invariant
            i <= users@.len(),
            pred == user_linked_to_task(links@, taskv),
            out@ == users@.take(i as int).filter(pred),
        decreases users@.len() - i,
    {
        if task_user_links_contain(links, taskv, users[i].id_value()) {
            out.push(users[i].copy_row());
        }
        proof {
            crate::pagination::lemma_filter_take_step(users@, pred, i as int);
        }
        i += 1;
    }
    proof {
        assert(users@.take(users@.len() as int) =~= users@);
    }
    out
}

/// Pagination completeness at the repository level: the pages of a task's
/// users, walked from the zero sentinel cursor by threading the last
/// returned id, cover the scope exactly once each, in `(updated_at, id)`
/// order, provided the scope's ids grow along the store order.
pub proof fn lemma_task_users_walk_complete(db: Store, taskv: u128, limit: int, fuel: nat)
    requires
        db.wf(),
        crate::pagination::ids_ascending(users_of_task(db, taskv)),
        limit >= 1,
        fuel >= users_of_task(db, taskv).len(),
    ensures
        crate::pagination::walk_pages(users_of_task(db, taskv), limit, 0, fuel)
            == users_of_task(db, taskv),
{
    lemma_filter_sorted(db.users@, user_linked_to_task(db.task_users@, taskv));
    lemma_filter_ids_nonzero(db.users@, user_linked_to_task(db.task_users@, taskv));
    crate::pagination::lemma_walk_complete(users_of_task(db, taskv), limit, fuel);
}

/// One page of the users linked to a task, with the total count of the
/// scope. A missing task is `NotFound`.
pub fn list_users_by_task_id_query(
    db: &Store,
    task_id: TypedId,
    offset: Option<TypedId>,
    limit: Option<i64>,
) -> (r: Result<(Vec<User>, u64), ServiceError>)
    requires
        db.wf(),
        task_id.kind == IdKind::Task,
        match offset {
            Some(o) => o.kind == IdKind::User,
            None => true,
        },
    ensures
        match r {
            Ok(page_total) => find_by_id(db.tasks@, task_id.value) is Some
                && page_total.0@ == page_spec(
                    users_of_task(*db, task_id.value),
                    limit_spec(limit),
                    match offset {
                        Some(o) => o.value,
                        None => 0,
                    },
                )
                && page_total.1 == users_of_task(*db, task_id.value).len(),
            Err(e) => e == ServiceError::NotFound && find_by_id(db.tasks@, task_id.value) is None,
        },
{
    if find_index_by_id(&db.tasks, task_id.value).is_none() {
        return Err(ServiceError::NotFound);
    }
    let cursor: u128 = match offset {
        Some(o) => o.value,
        None => 0,
    };
    let lim = limit_to_usize(limit);
    let scoped = users_of_task_rows(&db.users, &db.task_users, task_id.value);
    let total: u64 = scoped.len() as u64;
    let items = page(&scoped, lim, cursor);
    Ok((items, total))
}

} // verus!
