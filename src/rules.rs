//! The per-builder rule tables.

use vstd::prelude::*;
use crate::text::text_eq;

verus! {

/// The fields that become positional arguments of `new`, in the order `new` takes them.
#[verifier::opaque]
pub open spec fn required_fields(ty: Seq<char>) -> Seq<&'static str> {
    if ty == "AddMember"@ {
        seq!["access_token"]
    } else if ty == "CreateApplicationCommand"@ {
        seq!["name"]
    } else if ty == "CreateChannel"@ {
        seq!["name"]
    } else if ty == "CreateButton"@ {
        seq!["custom_id"]
    } else if ty == "CreateSelectMenu"@ {
        seq!["custom_id", "kind"]
    } else if ty == "CreateSelectMenuOption"@ {
        seq!["label", "value"]
    } else if ty == "CreateEmbedAuthor"@ {
        seq!["name"]
    } else if ty == "CreateEmbedFooter"@ {
        seq!["text"]
    } else if ty == "CreateModal"@ {
        seq!["custom_id", "title"]
    } else if ty == "CreateStageInstance"@ {
        seq!["channel_id", "topic"]
    } else if ty == "CreateThread"@ {
        seq!["name"]
    } else if ty == "CreateWebhook"@ {
        seq!["name"]
    } else if ty == "CreateQuickModal"@ {
        seq!["title"]
    } else if ty == "CreateCommandOption"@ {
        seq!["kind", "name", "description"]
    } else if ty == "CreateInputText"@ {
        seq!["style", "label", "custom_id"]
    } else if ty == "CreateScheduledEvent"@ {
        seq!["kind", "name", "scheduled_start_time"]
    } else if ty == "CreateSticker"@ {
        seq!["name", "tags", "description", "file"]
    } else {
        seq![]
    }
}

/// Whether `field` is one of `fields`.
#[verifier::opaque]
pub open spec fn is_listed(fields: Seq<&'static str>, field: Seq<char>) -> bool {
    exists|j: int| 0 <= j < fields.len() && (#[trigger] fields[j])@ == field
}

pub fn required_fields_of(ty: &str) -> (r: Vec<&'static str>)
    ensures
        r@ == required_fields(ty@),
{
    reveal(required_fields);
    let r: Vec<&'static str> = if text_eq(ty, "AddMember") {
        vec!["access_token"]
    } else if text_eq(ty, "CreateApplicationCommand") {
        vec!["name"]
    } else if text_eq(ty, "CreateChannel") {
        vec!["name"]
    } else if text_eq(ty, "CreateButton") {
        vec!["custom_id"]
    } else if text_eq(ty, "CreateSelectMenu") {
        vec!["custom_id", "kind"]
    } else if text_eq(ty, "CreateSelectMenuOption") {
        vec!["label", "value"]
    } else if text_eq(ty, "CreateEmbedAuthor") {
        vec!["name"]
    } else if text_eq(ty, "CreateEmbedFooter") {
        vec!["text"]
    } else if text_eq(ty, "CreateModal") {
        vec!["custom_id", "title"]
    } else if text_eq(ty, "CreateStageInstance") {
        vec!["channel_id", "topic"]
    } else if text_eq(ty, "CreateThread") {
        vec!["name"]
    } else if text_eq(ty, "CreateWebhook") {
        vec!["name"]
    } else if text_eq(ty, "CreateQuickModal") {
        vec!["title"]
    } else if text_eq(ty, "CreateCommandOption") {
        vec!["kind", "name", "description"]
    } else if text_eq(ty, "CreateInputText") {
        vec!["style", "label", "custom_id"]
    } else if text_eq(ty, "CreateScheduledEvent") {
        vec!["kind", "name", "scheduled_start_time"]
    } else if text_eq(ty, "CreateSticker") {
        vec!["name", "tags", "description", "file"]
    } else {
        Vec::new()
    };
    assert(r@ =~= required_fields(ty@));
    r
}

/// A response variant of the newer API and the payload builder it wraps, if any.
pub struct ResponseShape {
    pub variant: &'static str,
    pub payload: Option<&'static str>,
}

/// The response variant for the last path segment of the old response kind. An unknown or
/// absent kind (the empty name) gives the channel message, the old default.
#[verifier::opaque]
pub open spec fn response_shape(kind: Seq<char>) -> (&'static str, Option<&'static str>) {
    if kind == "Pong"@ {
        ("Pong", None)
    } else if kind == "DeferredChannelMessageWithSource"@ {
        ("Defer", Some("CreateInteractionResponseMessage"))
    } else if kind == "DeferredUpdateMessage"@ {
        ("Acknowledge", None)
    } else if kind == "UpdateMessage"@ {
        ("UpdateMessage", Some("CreateInteractionResponseMessage"))
    } else if kind == "Autocomplete"@ {
        ("Autocomplete", Some("CreateAutocompleteResponse"))
    } else if kind == "Modal"@ {
        ("Modal", Some("CreateModal"))
    } else {
        ("Message", Some("CreateInteractionResponseMessage"))
    }
}

pub fn response_shape_of(kind: &str) -> (r: ResponseShape)
    ensures
        (r.variant, r.payload) == response_shape(kind@),
{
    reveal(response_shape);
    if text_eq(kind, "Pong") {
        ResponseShape { variant: "Pong", payload: None }
    } else if text_eq(kind, "DeferredChannelMessageWithSource") {
        ResponseShape { variant: "Defer", payload: Some("CreateInteractionResponseMessage") }
    } else if text_eq(kind, "DeferredUpdateMessage") {
        ResponseShape { variant: "Acknowledge", payload: None }
    } else if text_eq(kind, "UpdateMessage") {
        ResponseShape { variant: "UpdateMessage", payload: Some("CreateInteractionResponseMessage") }
    } else if text_eq(kind, "Autocomplete") {
        ResponseShape { variant: "Autocomplete", payload: Some("CreateAutocompleteResponse") }
    } else if text_eq(kind, "Modal") {
        ResponseShape { variant: "Modal", payload: Some("CreateModal") }
    } else {
        // this was the default before the variants existed
        ResponseShape { variant: "Message", payload: Some("CreateInteractionResponseMessage") }
    }
}

} // verus!
