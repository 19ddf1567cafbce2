//! The client's side of the REST surface: the parameter bundles the
//! generated endpoint calls take, the payloads they carry, and the response
//! models the task-resource listing comes back as. The HTTP transport lives
//! at the boundary; these are the plain values it moves.

use vstd::prelude::*;

use crate::models::{Deal, Link, TaskLink};

verus! {

/// The JSON payload that creates a company.
#[derive(Debug, Clone)]
pub struct CreateCompanyReqPayload {
    pub name: String,
}

/// The JSON payload that renames a company.
#[derive(Debug, Clone)]
pub struct UpdateCompanyReqPayload {
    pub name: Option<String>,
}

/// The JSON payload that creates an email.
#[derive(Debug, Clone)]
pub struct CreateEmailReqPayload {
    pub email: String,
}

/// The JSON payload that updates an email.
#[derive(Debug, Clone)]
pub struct UpdateEmailReqPayload {
    pub email: Option<String>,
}

/// The JSON payload that creates a note.
#[derive(Debug, Clone)]
pub struct CreateNoteReqPayload {
    pub title: String,
}

/// The JSON payload that updates a note.
#[derive(Debug, Clone)]
pub struct UpdateNoteReqPayload {
    pub title: Option<String>,
    pub body: Option<String>,
}

/// The parameters of the company creation endpoint.
#[derive(Debug, Clone)]
pub struct CreateCompanyParams {
    /// The organization id to use for the request.
    pub organization: String,
    /// JSON request payload to create a new company.
    pub create_company_req_payload: CreateCompanyReqPayload,
}

/// The parameters of the company deletion endpoint.
#[derive(Debug, Clone)]
pub struct DeleteCompanyParams {
    /// The organization id to use for the request.
    pub organization: String,
    /// The id of the company to delete.
    pub company_id: String,
}

/// The parameters of the company listing endpoint.
#[derive(Debug, Clone)]
pub struct GetCompaniesForOrgParams {
    /// The organization id to use for the request.
    pub organization: String,
    /// The number of results to return; ten when absent.
    pub limit: Option<i64>,
    /// The cursor to start past; the zero sentinel when absent.
    pub offset: Option<i64>,
}

/// The parameters of the company point lookup.
#[derive(Debug, Clone)]
pub struct GetCompanyByIdParams {
    /// The organization id to use for the request.
    pub organization: String,
    /// The id of the company to fetch.
    pub company_id: String,
}

/// The parameters of the company update endpoint.
#[derive(Debug, Clone)]
pub struct UpdateCompanyParams {
    /// The organization id to use for the request.
    pub organization: String,
    /// The id of the company to update.
    pub company_id: String,
    /// JSON request payload to rename the company.
    pub update_company_req_payload: UpdateCompanyReqPayload,
}

/// The parameters of the email creation endpoint.
#[derive(Debug, Clone)]
pub struct CreateEmailParams {
    /// JSON request payload to create a new email.
    pub create_email_req_payload: CreateEmailReqPayload,
}

/// The parameters of the email deletion endpoint.
#[derive(Debug, Clone)]
pub struct DeleteEmailParams {
    /// The email id to use for the request.
    pub email_id: String,
}

/// The parameters of the email point lookup.
#[derive(Debug, Clone)]
pub struct GetEmailParams {
    /// The email id to use for the request.
    pub email_id: String,
}

/// The parameters of the email update endpoint.
#[derive(Debug, Clone)]
pub struct UpdateEmailParams {
    /// The email id to use for the request.
    pub email_id: String,
    /// JSON request payload to update the email.
    pub update_email_req_payload: UpdateEmailReqPayload,
}

/// The parameters of the note creation endpoint.
#[derive(Debug, Clone)]
pub struct CreateNoteParams {
    /// The organization id to use for the request.
    pub organization: String,
    /// JSON request payload to create a new note.
    pub create_note_req_payload: CreateNoteReqPayload,
}

/// The parameters of the note deletion endpoint.
#[derive(Debug, Clone)]
pub struct DeleteNoteParams {
    /// The organization id to use for the request.
    pub organization: String,
    /// The id of the note to delete.
    pub note_id: String,
}

/// The parameters of the note point lookup.
#[derive(Debug, Clone)]
pub struct GetNoteByIdParams {
    /// The organization id to use for the request.
    pub organization: String,
    /// The id of the note to fetch.
    pub note_id: String,
}

/// The parameters of the note listing endpoint.
#[derive(Debug, Clone)]
pub struct GetNotesForOrgParams {
    /// The number of results to return; ten when absent.
    pub limit: Option<i64>,
    /// The cursor to start past; the zero sentinel when absent.
    pub offset: Option<i64>,
}

/// The parameters of the note update endpoint.
#[derive(Debug, Clone)]
pub struct UpdateNoteParams {
    /// The organization id to use for the request.
    pub organization: String,
    /// The id of the note to update.
    pub note_id: String,
    /// JSON request payload to update the note.
    pub update_note_req_payload: UpdateNoteReqPayload,
}

/// A user as the wire carries it: identifiers and timestamps in string
/// form, the name doubly optional so that an absent field and a cleared
/// field stay apart.
#[derive(Debug, Clone)]
pub struct User {
    pub created_at: String,
    pub email: String,
    pub id: String,
    pub name: Option<Option<String>>,
    pub updated_at: String,
}

impl User {
    pub fn new(created_at: String, email: String, id: String, updated_at: String) -> (u: User)
        ensures
            u.created_at == created_at,
            u.email == email,
            u.id == id,
            u.name is None,
            u.updated_at == updated_at,
    {
        User { created_at, email, id, name: None, updated_at }
    }
}

/// The user arm of the task-resource listing response.
#[derive(Debug)]
pub struct ListTaskResourceResponseOneOf2 {
    pub user: Vec<User>,
}

impl ListTaskResourceResponseOneOf2 {
    pub fn new(user: Vec<User>) -> (r: ListTaskResourceResponseOneOf2)
        ensures
            r.user == user,
    {
        ListTaskResourceResponseOneOf2 { user }
    }
}

/// The deal arm of the task-resource listing.
#[derive(Debug)]
pub struct TaskResourceListOneOf {
    pub deal: Vec<Deal>,
}

/// The link arm of the task-resource listing.
#[derive(Debug)]
pub struct TaskResourceListOneOf1 {
    pub link: Vec<Link>,
}

/// The resources of one kind that a task listing returns.
#[derive(Debug)]
pub enum TaskResourceList {
    TaskResourceListOneOf(Box<TaskResourceListOneOf>),
    TaskResourceListOneOf1(Box<TaskResourceListOneOf1>),
    TaskResourceListOneOf2(Box<ListTaskResourceResponseOneOf2>),
}

/// The task-resource listing response: one page of resources and the total
/// count of the scope.
#[derive(Debug)]
pub struct TaskResourceListWithPagination {
    pub data: Box<TaskResourceList>,
    pub total: i64,
}

impl TaskResourceListWithPagination {
    pub fn new(data: TaskResourceList, total: i64) -> (r: TaskResourceListWithPagination)
        ensures
            r.data == data,
            r.total == total,
    {
        TaskResourceListWithPagination { data: Box::new(data), total }
    }
}

/// One link resource attached to a task.
#[derive(Debug)]
pub struct TaskResourceOneOf {
    pub link: Box<TaskLink>,
}

impl TaskResourceOneOf {
    pub fn new(link: TaskLink) -> (r: TaskResourceOneOf)
        ensures
            r.link == link,
    {
        TaskResourceOneOf { link: Box::new(link) }
    }
}

} // verus!
