//! Relations a resource can be managed under: each relation names the path
//! segment of the endpoint that lists, attaches or detaches it.

use vstd::prelude::*;

use crate::errors::ServiceError;
use crate::profiles::ActixTemplateConfiguration;

verus! {

/// A relation of a resource, named by the path segment of its endpoints.
pub trait Relation {
    /// The path segment that names the relation.
    spec fn extension_path(&self) -> Seq<char>;

    fn fn_get_extension_path(&self) -> (r: String)
        ensures
            r@ == self.extension_path(),
    ;
}

/// What a resource with relations offers: listing the related records of
/// one relation, and attaching or detaching one by its identifier string.
/// An implementation arrives with each resource's relation endpoints; none
/// stands here yet, so nothing is proved through this trait.
pub trait HasRelations<D> where D: Relation {
    fn get_relations<T>(
        &self,
        config: ActixTemplateConfiguration,
        relation: D,
    ) -> Result<Vec<T>, ServiceError>;

    fn add_relation(
        &self,
        config: ActixTemplateConfiguration,
        relation: D,
        other_id: String,
    ) -> Result<(), ServiceError>;

    fn delete_relation(
        &self,
        config: ActixTemplateConfiguration,
        relation: D,
        other_id: String,
    ) -> Result<(), ServiceError>;
}

/// The relations a note can be managed under.
#[derive(Debug, Clone, Copy, PartialEq, Eq, Structural)]
pub enum NoteRelation {
    Task,
    Contact,
}

impl Relation for NoteRelation {
    open spec fn extension_path(&self) -> Seq<char> {
        match *self {
            NoteRelation::Task => "tasks"@,
            NoteRelation::Contact => "contacts"@,
        }
    }

    fn fn_get_extension_path(&self) -> (r: String) {
        match self {
            NoteRelation::Task => String::from_str("tasks"),
            NoteRelation::Contact => String::from_str("contacts"),
        }
    }
}

} // verus!
