//! The CLI's decision logic: the command shapes, the option reshaping the
//! task commands use, the paged-listing walk state, and the table records a
//! contact listing renders. The terminal prompts and the HTTP calls stay at
//! the boundary, which hands these functions plain values.

use vstd::prelude::*;

use crate::models::Contact;
use crate::prefixes::id_chars;

verus! {

/// The contact subcommands.
pub enum ContactCommands {
    Create,
    Delete(DeleteContact),
    Edit(EditContact),
    View(ViewContact),
    List,
}

/// The arguments of the contact delete subcommand.
#[derive(Debug, Clone)]
pub struct DeleteContact {
    /// The id of the contact to delete.
    pub id: Option<String>,
}

/// The arguments of the contact edit subcommand.
#[derive(Debug, Clone)]
pub struct EditContact {
    /// The id of the contact to edit.
    pub id: Option<String>,
}

/// The arguments of the contact view subcommand.
#[derive(Debug, Clone)]
pub struct ViewContact {
    /// The id of the contact to view.
    pub id: Option<String>,
}

/// The deal subcommands.
pub enum DealCommands {
    Create,
    Delete(DeleteDeal),
    Edit(EditDeal),
    View(ViewDeal),
    List,
    ManageContacts(ManageContactsCommands),
}

/// The arguments of the deal delete subcommand.
#[derive(Debug, Clone)]
pub struct DeleteDeal {
    /// The id of the deal to delete.
    pub id: Option<String>,
}

/// The arguments of the deal edit subcommand.
#[derive(Debug, Clone)]
pub struct EditDeal {
    /// The id of the deal to edit.
    pub id: String,
}

/// The arguments of the deal view subcommand.
#[derive(Debug, Clone)]
pub struct ViewDeal {
    /// The id of the deal to view.
    pub id: String,
}

/// The subcommands that manage the contacts of a deal.
pub enum ManageContactsCommands {
    Add(AddContact),
    Remove(RemoveContact),
}

/// The arguments that attach a contact to a deal.
#[derive(Debug, Clone)]
pub struct AddContact {
    /// The id of the deal to attach the contact to.
    pub deal_id: Option<String>,
    /// The id of the contact to attach.
    pub id: Option<String>,
}

/// The arguments that detach a contact from a deal.
#[derive(Debug, Clone)]
pub struct RemoveContact {
    /// The id of the deal to detach the contact from.
    pub deal_id: Option<String>,
    /// The id of the contact to detach.
    pub id: Option<String>,
}

/// Wraps a present value one level deeper, as the patch payloads expect:
/// an absent field stays absent, a present one becomes present-and-set.
pub fn transform_option<T>(opt: Option<T>) -> (r: Option<Option<T>>)
    ensures
        r == match opt {
            None => None::<Option<T>>,
            Some(t) => Some(Some(t)),
        },
{
    match opt {
        None => None,
        Some(t) => Some(Some(t)),
    }
}

/// Flattens a doubly optional string to the empty string when either level
/// is absent.
pub fn reduce_option(opt: Option<Option<String>>) -> (r: String)
    ensures
        match opt {
            Some(Some(s)) => r == s,
            _ => r@ == Seq::<char>::empty(),
        },
{
    match opt {
        Some(Some(s)) => s,
        _ => String::new(),
    }
}

/// The choice a paged listing offers after each page.
#[derive(Debug, Clone, Copy, PartialEq, Eq, Structural)]
pub enum PageChoice {
    NextPage,
    PreviousPage,
    Stop,
}

/// The state of an interactive paged-listing walk: the cursor that fetched
/// each visited page (the first page has none), and the page currently
/// shown.
#[derive(Debug)]
pub struct PageWalk {
    pub offsets: Vec<Option<String>>,
    pub page_num: usize,
}

impl PageWalk {
    /// The walk state is never empty and always stands on a known page.
    pub open spec fn wf(self) -> bool {
        self.offsets@.len() >= 1 && self.page_num < self.offsets@.len()
    }

    /// A walk at its first page, with no cursor.
    pub fn start() -> (w: PageWalk)
        ensures
            w.wf(),
            w.offsets@.len() == 1,
            w.offsets@[0] is None,
            w.page_num == 0,
    {
        let mut offsets: Vec<Option<String>> = Vec::new();
        offsets.push(None);
        PageWalk { offsets, page_num: 0 }
    }

    /// The cursor that fetches the current page.
    pub fn current_offset(&self) -> (r: Option<String>)
        requires
            self.wf(),
        ensures
            r == self.offsets@[self.page_num as int],
    {
        match &self.offsets[self.page_num] {
            None => None,
            Some(s) => Some(s.clone()),
        }
    }

    /// Records what the page that was just shown ended with: the last
    /// returned id becomes the cursor of the following page. An empty page
    /// (no last id) records nothing.
    pub fn record_page(&mut self, last_id: Option<String>)
        requires
            old(self).wf(),
        ensures
            final(self).wf(),
            final(self).page_num == old(self).page_num,
            match last_id {
                None => final(self).offsets@ == old(self).offsets@,
                Some(id) => if old(self).page_num + 1 == old(self).offsets@.len() {
                    final(self).offsets@ == old(self).offsets@.push(Some(id))
                } else {
                    final(self).offsets@ == old(self).offsets@.update(
                        old(self).page_num + 1,
                        Some(id),
                    )
                },
            },
    {
        match last_id {
            None => {},
            Some(id) => {
                if self.page_num == self.offsets.len() - 1 {
                    self.offsets.push(Some(id));
                } else {
                    self.offsets.set(self.page_num + 1, Some(id));
                }
            },
        }
    }

    /// Moves the walk by one choice: stepping back saturates at the first
    /// page, stepping forward stops at the last recorded page, and `Stop`
    /// ends the walk.
    pub fn step(&mut self, choice: PageChoice) -> (stop: bool)
        requires
            old(self).wf(),
        ensures
            final(self).wf(),
            final(self).offsets@ == old(self).offsets@,
            stop == (choice == PageChoice::Stop),
            final(self).page_num == match choice {
                PageChoice::Stop => old(self).page_num as int,
                PageChoice::PreviousPage => if old(self).page_num > 0 {
                    old(self).page_num - 1
                } else {
                    0
                },
                PageChoice::NextPage => if old(self).page_num + 1 < old(self).offsets@.len() {
                    old(self).page_num + 1
                } else {
                    old(self).offsets@.len() - 1
                },
            },
    {
        match choice {
            PageChoice::Stop => true,
            PageChoice::PreviousPage => {
                if self.page_num > 0 {
                    self.page_num = self.page_num - 1;
                }
                false
            },
            PageChoice::NextPage => {
                if self.page_num < self.offsets.len() - 1 {
                    self.page_num = self.page_num + 1;
                } else {
                    self.page_num = self.offsets.len() - 1;
                }
                false
            },
        }
    }
}

/// The record a contact occupies in the listing table: the canonical id
/// string and the two name columns.
pub open spec fn contact_record(c: Contact) -> Seq<Seq<char>> {
    seq![id_chars(c.id), c.first_name@, c.last_name@]
}

/// Whether a built record matches a sequence of cells.
pub open spec fn record_matches(row: Vec<String>, cells: Seq<Seq<char>>) -> bool {
    row@.len() == cells.len() && forall|j: int| 0 <= j < cells.len() ==> (#[trigger] row@[j])@ == cells[j]
}

/// The records of the contact listing table: a header, then one record per
/// contact, or a single placeholder record when there are none.
pub fn contacts_table_records(contacts: &Vec<Contact>) -> (out: Vec<Vec<String>>)
    ensures
        out@.len() == 1 + (if contacts@.len() == 0 { 1int } else { contacts@.len() as int }),
        record_matches(out@[0], seq!["ID"@, "First Name"@, "Last Name"@]),
        contacts@.len() == 0 ==> record_matches(
            out@[1],
            seq!["No Contacts found"@, Seq::<char>::empty(), Seq::<char>::empty()],
        ),
        forall|i: int| 0 <= i < contacts@.len() ==> record_matches(
            #[trigger] out@[i + 1],
            contact_record(contacts@[i]),
        ),
{
    let mut out: Vec<Vec<String>> = Vec::new();
    let mut header: Vec<String> = Vec::new();
    header.push(String::from_str("ID"));
    header.push(String::from_str("First Name"));
    header.push(String::from_str("Last Name"));
    out.push(header);
    if contacts.len() == 0 {
        let mut row: Vec<String> = Vec::new();
        row.push(String::from_str("No Contacts found"));
        row.push(String::new());
        row.push(String::new());
        out.push(row);
        return out;
    }
    let mut i: usize = 0;
    while i < contacts.len()
        invariant
            i <= contacts@.len(),
            out@.len() == 1 + i,
            record_matches(out@[0], seq!["ID"@, "First Name"@, "Last Name"@]),
            forall|k: int| 0 <= k < i ==> record_matches(
                #[trigger] out@[k + 1],
                contact_record(contacts@[k]),
            ),
        decreases contacts@.len() - i,
    {
        let c = &contacts[i];
        let mut row: Vec<String> = Vec::new();
        row.push(c.id.format());
        row.push(c.first_name.clone());
        row.push(c.last_name.clone());
        out.push(row);
        i += 1;
    }
    out
}

} // verus!
