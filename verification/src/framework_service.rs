//! Staging and currency decisions of framework services (clipboard, input method, cursor,
//! drag and drop): which requests are staged, and when a service binding still describes
//! the live owner, surface, focus, and editing session.

use vstd::prelude::*;

use crate::ids::MountedNodeId;

verus! {

/// Shape of one framework service request, as the decisions read it.
#[derive(Clone, Copy, Debug, PartialEq, Eq, Structural)]
pub enum ServiceRequestKind {
    ClipboardReadText,
    ClipboardWriteText,
    InputMethod { enabled: bool },
    Cursor,
    DragDrop,
    Other,
}

/// Whether a request is bound to a focused editing session: clipboard text, an enabled
/// input method, and drag and drop bound to an editing session.
pub open spec fn spec_requires_focused_editing(kind: ServiceRequestKind, has_editing_session: bool) -> bool {
    match kind {
        ServiceRequestKind::ClipboardReadText | ServiceRequestKind::ClipboardWriteText => true,
        ServiceRequestKind::InputMethod { enabled } => enabled,
        ServiceRequestKind::DragDrop => has_editing_session,
        _ => false,
    }
}

/// Whether `kind`, with a binding that has (`has_editing_session`) an editing session,
/// needs the owner focused, its composition current, and an editing session.
pub fn requires_focused_editing(kind: ServiceRequestKind, has_editing_session: bool) -> (required: bool)
    ensures
        required == spec_requires_focused_editing(kind, has_editing_session),
{
    match kind {
        ServiceRequestKind::ClipboardReadText | ServiceRequestKind::ClipboardWriteText => true,
        ServiceRequestKind::InputMethod { enabled } => enabled,
        ServiceRequestKind::DragDrop => has_editing_session,
        _ => false,
    }
}

/// What the runtime observes of one service binding against its current state.
#[derive(Clone, Copy, Debug, PartialEq, Eq, Structural)]
pub struct BindingFacts {
    /// The bound owner is a live mounted node.
    pub owner_live: bool,
    /// The bound surface is this runtime's surface.
    pub surface_valid: bool,
    /// The bound surface input context is the current displayed one.
    pub surface_context_current: bool,
    /// The binding names an editing session.
    pub has_editing_session: bool,
    /// The bound composition is the owner's current composition.
    pub composition_current: bool,
    /// The bound editing session, document snapshot, and selection are current.
    pub editing_current: bool,
    /// The bound owner holds focus.
    pub owner_focused: bool,
    /// The bound candidate area is the current one.
    pub candidate_area_current: bool,
}

/// Whether a service binding is still current: its owner, surface, surface context,
/// editing state, and candidate area are current, and, for a request bound to a focused
/// editing session, its composition is current, its owner focused, and it names a session.
pub fn binding_is_current(kind: ServiceRequestKind, facts: BindingFacts) -> (current: bool)
    ensures
        current == {
            let required = spec_requires_focused_editing(kind, facts.has_editing_session);
            &&& facts.owner_live
            &&& facts.surface_valid
            &&& facts.surface_context_current
            &&& (!required || facts.composition_current)
            &&& facts.editing_current
            &&& (!required || facts.owner_focused)
            &&& (!required || facts.has_editing_session)
            &&& facts.candidate_area_current
        },
{
    let required = requires_focused_editing(kind, facts.has_editing_session);
    facts.owner_live && facts.surface_valid && facts.surface_context_current && (!required
        || facts.composition_current) && facts.editing_current && (!required || facts.owner_focused)
        && (!required || facts.has_editing_session) && facts.candidate_area_current
}

/// Whether a binding's editing fields are current: all of session, snapshot, and selection
/// are bound and `context_matches` says the owner's editing context matches them, or none is
/// bound. A partly bound binding is never current.
pub fn edit_binding_is_current(session: bool, snapshot: bool, selection: bool, context_matches: bool) -> (current:
    bool)
    ensures
        current == ((session && snapshot && selection && context_matches) || (!session && !snapshot
            && !selection)),
{
    if session && snapshot && selection {
        context_matches
    } else {
        !session && !snapshot && !selection
    }
}

/// Whether a binding's candidate area is current: an enabled input method request must
/// carry a candidate area equal to the owner's current one (`area_matches`); other requests
/// carry none that could go stale.
pub fn candidate_area_is_current(kind: ServiceRequestKind, has_candidate_area: bool, area_matches: bool) -> (current:
    bool)
    ensures
        current == match kind {
            ServiceRequestKind::InputMethod { enabled: true } => has_candidate_area && area_matches,
            _ => true,
        },
{
    match kind {
        ServiceRequestKind::InputMethod { enabled } => if enabled {
            has_candidate_area && area_matches
        } else {
            true
        },
        _ => true,
    }
}

/// Whether the focused owner's candidate area is looked up at all: its input method must be
/// enabled and any preedit must belong to the current composition (`preedit_current` is
/// `None` without a preedit).
pub fn candidate_area_requested(input_method_enabled: bool, preedit_current: Option<bool>) -> (requested: bool)
    ensures
        requested == (input_method_enabled && preedit_current != Some(false)),
{
    input_method_enabled && match preedit_current {
        Some(current) => current,
        None => true,
    }
}

/// The input method request for the current state, by whether it enables the input method,
/// or `None` when nothing needs to be requested. The input method is enabled exactly when a
/// live owner is focused with an editing context and a candidate area; a disabling request
/// is only sent while an enabled one may still be unresolved.
pub fn input_method_request(
    focused_live: bool,
    editing_context: bool,
    candidate_area: bool,
    unresolved_enabled: bool,
) -> (request: Option<bool>)
    ensures
        request == {
            let enabled = focused_live && editing_context && candidate_area;
            if !enabled && !unresolved_enabled {
                None::<bool>
            } else {
                Some(enabled)
            }
        },
{
    let enabled = focused_live && editing_context && candidate_area;
    if !enabled && !unresolved_enabled {
        None
    } else {
        Some(enabled)
    }
}

/// Whether a new service request is staged: input method and cursor requests are state
/// services, staged only when no identical request with an identical binding is pending
/// (`identical_pending`) or already satisfied (`identical_satisfied`); other requests are
/// always staged.
pub fn should_stage_service(kind: ServiceRequestKind, identical_pending: bool, identical_satisfied: bool) -> (stage:
    bool)
    ensures
        stage == match kind {
            ServiceRequestKind::InputMethod { .. } | ServiceRequestKind::Cursor => !identical_pending
                && !identical_satisfied,
            _ => true,
        },
{
    match kind {
        ServiceRequestKind::InputMethod { .. } | ServiceRequestKind::Cursor => !identical_pending
            && !identical_satisfied,
        _ => true,
    }
}

/// Pointer cursor shape requested for an owner.
#[derive(Clone, Copy, Debug, PartialEq, Eq, Structural)]
pub enum CursorShape {
    Default,
    Pointer,
    Text,
}

/// Owner whose cursor is requested: the physical pointer target, else the focused node,
/// else the root.
pub fn cursor_owner(
    physical_target: Option<MountedNodeId>,
    focused: Option<MountedNodeId>,
    root: Option<MountedNodeId>,
) -> (owner: Option<MountedNodeId>)
    ensures
        owner == if physical_target is Some {
            physical_target
        } else if focused is Some {
            focused
        } else {
            root
        },
{
    match physical_target {
        Some(target) => Some(target),
        None => match focused {
            Some(node) => Some(node),
            None => root,
        },
    }
}

/// Cursor shape over an owner: text over an editing owner, a pointer over an enabled and
/// actionable one, the default otherwise.
pub fn cursor_shape(editing_owner: bool, enabled_and_actionable: bool) -> (shape: CursorShape)
    ensures
        shape == if editing_owner {
            CursorShape::Text
        } else if enabled_and_actionable {
            CursorShape::Pointer
        } else {
            CursorShape::Default
        },
{
    if editing_owner {
        CursorShape::Text
    } else if enabled_and_actionable {
        CursorShape::Pointer
    } else {
        CursorShape::Default
    }
}

/// Whether a drag and drop offer is handed to the host: hovering and cancelling offers
/// always are, other phases only when a callback accepted them; the offer needs a pointer
/// target, and an editing owner must have an editing context to bind.
pub fn drag_drop_staged(
    hover_or_cancel: bool,
    accepted: bool,
    has_target: bool,
    editing_owner: bool,
    has_editing_context: bool,
) -> (staged: bool)
    ensures
        staged == ((hover_or_cancel || accepted) && has_target && (!editing_owner || has_editing_context)),
{
    if !hover_or_cancel && !accepted {
        return false;
    }
    if !has_target {
        return false;
    }
    !(editing_owner && !has_editing_context)
}

} // verus!
