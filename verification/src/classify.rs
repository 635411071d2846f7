//! Diff classifier: decides what kind of change an observed message state
//! represents, compared against its stored snapshot.
//!
//! A first observation (no snapshot) establishes a baseline and classifies
//! nothing. Identical content and attachment summary is a no-op. Changed
//! attachments with unchanged content is an attachment removal of its own
//! kind, so a silent attachment strip is not mislabelled as a text edit; any
//! content change is an edit. A deletion is always classified as `deleted`,
//! independent of this comparison.

use vstd::prelude::*;

use crate::snapshot::MessageSnapshot;
use crate::text::{opt_string_eq, opt_view, str_eq};

verus! {

/// The kind of a classified message event.
#[derive(Clone, Copy, Debug, PartialEq, Eq, Structural)]
pub enum EventKind {
    /// The message text changed.
    MessageEdit,
    /// The text is unchanged but the attachment summary changed.
    AttachmentDelete,
    /// The message was deleted.
    MessageDelete,
}

/// Classification of one observed state against the previous one: `None` is
/// a no-op, `Some` carries the kind of change.
pub open spec fn classify_spec(
    prev_content: Seq<char>,
    prev_attachments: Option<Seq<char>>,
    cur_content: Seq<char>,
    cur_attachments: Option<Seq<char>>,
) -> Option<EventKind> {
    let content_changed = prev_content != cur_content;
    let attachments_changed = prev_attachments != cur_attachments;
    if !content_changed && !attachments_changed {
        None
    } else if !content_changed && attachments_changed {
        Some(EventKind::AttachmentDelete)
    } else {
        Some(EventKind::MessageEdit)
    }
}

/// Classify an observed message state against its stored snapshot, if any.
///
/// Returns `None` (no event) when there is no previous snapshot, or when
/// neither the content nor the attachment summary changed; an attachment
/// removal when only the attachment summary changed; an edit otherwise.
pub fn classify_update(
    previous: &Option<MessageSnapshot>,
    current_content: &str,
    current_attachment_summary: &Option<String>,
) -> (r: Option<EventKind>)
    ensures
        r == (match previous {
            Some(p) => classify_spec(
                p.content@,
                opt_view(p.attachment_summary),
                current_content@,
                opt_view(*current_attachment_summary),
            ),
            None => None::<EventKind>,
        }),
{
    match previous {
        None => None,
        Some(p) => {
            let content_changed = !str_eq(p.content.as_str(), current_content);
            let attachments_changed = !opt_string_eq(
                &p.attachment_summary,
                current_attachment_summary,
            );
            if !content_changed && !attachments_changed {
                None
            } else if !content_changed && attachments_changed {
                Some(EventKind::AttachmentDelete)
            } else {
                Some(EventKind::MessageEdit)
            }
        },
    }
}

/// The event-kind label recorded in the activity log.
pub fn event_kind_label(kind: EventKind) -> (r: &'static str)
    ensures
        kind == EventKind::MessageEdit ==> r@ == "message_edit"@,
        kind == EventKind::AttachmentDelete ==> r@ == "attachment_delete"@,
        kind == EventKind::MessageDelete ==> r@ == "message_delete"@,
{
    match kind {
        EventKind::MessageEdit => "message_edit",
        EventKind::AttachmentDelete => "attachment_delete",
        EventKind::MessageDelete => "message_delete",
    }
}

} // verus!
