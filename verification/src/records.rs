//! The plain record types the surrounding application exchanges with its
//! relational store, and the field validation the engine owns for them.
//!
//! The records themselves are ordinary data — the store that persists them
//! is an external collaborator. What the engine states about them is the
//! validation rule every create, update and merge must pass: optional email
//! and phone fields are either absent, blank, or well formed (see
//! [`crate::text`]).

use vstd::prelude::*;

use crate::text::{
    is_valid_email, is_valid_email_spec, is_valid_phone, is_valid_phone_spec, opt_str_view,
};

verus! {

/// A company card.
#[derive(Debug, Clone, PartialEq, Eq)]
pub struct Company {
    pub id: String,
    pub name: String,
    pub domain: Option<String>,
    pub industry: Option<String>,
    pub notes: Option<String>,
    pub created_at: String,
    pub updated_at: String,
}

/// What it takes to create a company.
#[derive(Debug, Clone, PartialEq, Eq)]
pub struct CreateCompanyInput {
    pub name: String,
    pub domain: Option<String>,
    pub industry: Option<String>,
    pub notes: Option<String>,
}

/// What it takes to update a company.
#[derive(Debug, Clone, PartialEq, Eq)]
pub struct UpdateCompanyInput {
    pub name: String,
    pub domain: Option<String>,
    pub industry: Option<String>,
    pub notes: Option<String>,
}

/// A contact card.
#[derive(Debug, Clone, PartialEq, Eq)]
pub struct Contact {
    pub id: String,
    pub first_name: String,
    pub last_name: String,
    pub title: Option<String>,
    pub company: Option<String>,
    pub company_id: Option<String>,
    pub city: Option<String>,
    pub country: Option<String>,
    pub email: Option<String>,
    pub email_secondary: Option<String>,
    pub phone: Option<String>,
    pub phone_secondary: Option<String>,
    pub linkedin_url: Option<String>,
    pub twitter_url: Option<String>,
    pub website: Option<String>,
    pub notes: Option<String>,
    pub last_touched_at: Option<String>,
    pub next_touch_at: Option<String>,
    pub created_at: String,
    pub updated_at: String,
}

/// What it takes to create (or merge into) a contact.
#[derive(Debug, Clone, PartialEq, Eq)]
pub struct CreateContactInput {
    pub first_name: String,
    pub last_name: String,
    pub title: Option<String>,
    pub company: Option<String>,
    pub company_id: Option<String>,
    pub city: Option<String>,
    pub country: Option<String>,
    pub email: Option<String>,
    pub email_secondary: Option<String>,
    pub phone: Option<String>,
    pub phone_secondary: Option<String>,
    pub linkedin_url: Option<String>,
    pub twitter_url: Option<String>,
    pub website: Option<String>,
    pub notes: Option<String>,
    pub next_touch_at: Option<String>,
}

/// A pair of contacts that look like duplicates, with the reasons.
#[derive(Debug, Clone, PartialEq, Eq)]
pub struct DedupCandidate {
    pub a: Contact,
    pub b: Contact,
    pub reasons: Vec<String>,
}

/// What it takes to merge one contact into another.
#[derive(Debug, Clone, PartialEq, Eq)]
pub struct MergeContactInput {
    pub primary_id: String,
    pub secondary_id: String,
    pub merged: CreateContactInput,
    pub custom_values: Option<Vec<CustomValueInput>>,
}

/// A user-defined field.
#[derive(Debug, Clone, PartialEq, Eq)]
pub struct CustomField {
    pub id: String,
    pub name: String,
    pub kind: String,
    pub options: Option<String>,
    pub sort_order: i64,
    pub created_at: String,
}

/// A contact's value for a user-defined field.
#[derive(Debug, Clone, PartialEq, Eq)]
pub struct CustomValue {
    pub field_id: String,
    pub field_name: String,
    pub kind: String,
    pub options: Option<String>,
    pub value: Option<String>,
}

/// What it takes to create a user-defined field.
#[derive(Debug, Clone, PartialEq, Eq)]
pub struct CreateCustomFieldInput {
    pub name: String,
    pub kind: String,
    pub options: Option<String>,
}

/// One value to set for a user-defined field.
#[derive(Debug, Clone, PartialEq, Eq)]
pub struct CustomValueInput {
    pub field_id: String,
    pub value: Option<String>,
}

/// An attachment of a contact or company.
#[derive(Debug, Clone, PartialEq, Eq)]
pub struct Attachment {
    pub id: String,
    pub owner_type: String,
    pub owner_id: String,
    pub file_name: String,
    pub mime: Option<String>,
    pub size: Option<i64>,
    pub storage_path: String,
    pub created_at: String,
}

/// What it takes to add an attachment.
#[derive(Debug, Clone, PartialEq, Eq)]
pub struct AttachmentCreateInput {
    pub owner_type: String,
    pub owner_id: String,
    pub file_name: String,
    pub mime: Option<String>,
    pub bytes: Vec<u8>,
}

/// A note on a contact.
#[derive(Debug, Clone, PartialEq, Eq)]
pub struct Note {
    pub id: String,
    pub contact_id: String,
    pub kind: String,
    pub title: Option<String>,
    pub body: String,
    pub created_at: String,
    pub updated_at: String,
}

/// What it takes to create a note.
#[derive(Debug, Clone, PartialEq, Eq)]
pub struct CreateNoteInput {
    pub contact_id: String,
    pub kind: Option<String>,
    pub title: Option<String>,
    pub body: String,
}

/// One interaction on a contact's timeline.
#[derive(Debug, Clone, PartialEq, Eq)]
pub struct Interaction {
    pub id: String,
    pub contact_id: String,
    pub kind: String,
    pub happened_at: String,
    pub summary: Option<String>,
    pub created_at: String,
}

/// What it takes to record an interaction.
#[derive(Debug, Clone, PartialEq, Eq)]
pub struct CreateInteractionInput {
    pub contact_id: String,
    pub kind: String,
    pub happened_at: String,
    pub summary: Option<String>,
}

/// A reminder on a contact.
#[derive(Debug, Clone, PartialEq, Eq)]
pub struct Reminder {
    pub id: String,
    pub contact_id: String,
    pub note_id: Option<String>,
    pub title: String,
    pub due_at: String,
    pub snooze_until: Option<String>,
    pub recurring_days: Option<i64>,
    pub completed_at: Option<String>,
    pub created_at: String,
}

/// What it takes to create a reminder.
#[derive(Debug, Clone, PartialEq, Eq)]
pub struct CreateReminderInput {
    pub contact_id: String,
    pub note_id: Option<String>,
    pub title: String,
    pub due_at: String,
    pub recurring_days: Option<i64>,
}

/// One row of an import.
#[derive(Debug, Clone, PartialEq, Eq)]
pub struct ImportRow {
    pub first_name: Option<String>,
    pub last_name: Option<String>,
    pub title: Option<String>,
    pub company: Option<String>,
    pub city: Option<String>,
    pub country: Option<String>,
    pub email: Option<String>,
    pub phone: Option<String>,
    pub linkedin_url: Option<String>,
    pub website: Option<String>,
}

/// A note found by the global search.
#[derive(Debug, Clone, PartialEq, Eq)]
pub struct GlobalSearchNoteHit {
    pub note_id: String,
    pub contact_id: String,
    pub contact_name: String,
    pub body_snippet: String,
    pub created_at: String,
}

/// Everything the global search found.
#[derive(Debug, Clone, PartialEq, Eq)]
pub struct GlobalSearchResult {
    pub contacts: Vec<Contact>,
    pub companies: Vec<Company>,
    pub note_hits: Vec<GlobalSearchNoteHit>,
}

/// The validation every contact create, update and merge must pass: all
/// four optional email and phone fields are absent, blank, or well formed.
pub open spec fn contact_input_valid_spec(input: CreateContactInput) -> bool {
    is_valid_email_spec(opt_str_view(input.email)) && is_valid_email_spec(
        opt_str_view(input.email_secondary),
    ) && is_valid_phone_spec(opt_str_view(input.phone)) && is_valid_phone_spec(
        opt_str_view(input.phone_secondary),
    )
}

/// Validates a contact's email and phone fields.
pub fn contact_input_valid(input: &CreateContactInput) -> (r: bool)
    ensures
        r == contact_input_valid_spec(*input),
{
    is_valid_email(&input.email) && is_valid_email(&input.email_secondary) && is_valid_phone(
        &input.phone,
    ) && is_valid_phone(&input.phone_secondary)
}

} // verus!
