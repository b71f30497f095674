use runenui_runtime::ids::MountedNodeId;
use runenui_runtime::framework_service::{
    cursor_owner, cursor_shape, drag_drop_staged, CursorShape,
    binding_is_current, candidate_area_is_current, candidate_area_requested, edit_binding_is_current,
    input_method_request, requires_focused_editing, should_stage_service, BindingFacts, ServiceRequestKind,
};

fn all_current() -> BindingFacts {
    BindingFacts {
        owner_live: true,
        surface_valid: true,
        surface_context_current: true,
        has_editing_session: true,
        composition_current: true,
        editing_current: true,
        owner_focused: true,
        candidate_area_current: true,
    }
}

#[test]
fn focused_editing_is_required_by_text_services_only() {
    assert!(requires_focused_editing(ServiceRequestKind::ClipboardReadText, false));
    assert!(requires_focused_editing(ServiceRequestKind::InputMethod { enabled: true }, false));
    assert!(!requires_focused_editing(ServiceRequestKind::InputMethod { enabled: false }, true));
    assert!(requires_focused_editing(ServiceRequestKind::DragDrop, true));
    assert!(!requires_focused_editing(ServiceRequestKind::DragDrop, false));
    assert!(!requires_focused_editing(ServiceRequestKind::Cursor, true));
}

#[test]
fn unfocused_owner_invalidates_clipboard_binding_but_not_cursor() {
    let facts = BindingFacts { owner_focused: false, ..all_current() };
    assert!(!binding_is_current(ServiceRequestKind::ClipboardWriteText, facts));
    assert!(binding_is_current(ServiceRequestKind::Cursor, facts));
    assert!(binding_is_current(ServiceRequestKind::ClipboardWriteText, all_current()));
    let stale_surface = BindingFacts { surface_context_current: false, ..all_current() };
    assert!(!binding_is_current(ServiceRequestKind::Cursor, stale_surface));
}

#[test]
fn partly_bound_editing_fields_are_never_current() {
    assert!(edit_binding_is_current(true, true, true, true));
    assert!(!edit_binding_is_current(true, true, true, false));
    assert!(edit_binding_is_current(false, false, false, false));
    assert!(!edit_binding_is_current(true, false, true, true));
}

#[test]
fn enabled_input_method_needs_its_candidate_area() {
    let enabled = ServiceRequestKind::InputMethod { enabled: true };
    assert!(!candidate_area_is_current(enabled, false, true));
    assert!(candidate_area_is_current(enabled, true, true));
    assert!(candidate_area_is_current(ServiceRequestKind::InputMethod { enabled: false }, false, false));
    assert!(candidate_area_requested(true, None));
    assert!(!candidate_area_requested(true, Some(false)));
    assert!(!candidate_area_requested(false, Some(true)));
}

#[test]
fn input_method_is_disabled_only_while_an_enable_may_be_unresolved() {
    assert_eq!(input_method_request(true, true, true, false), Some(true));
    assert_eq!(input_method_request(true, true, false, false), None);
    assert_eq!(input_method_request(true, false, true, true), Some(false));
}

#[test]
fn identical_state_services_are_not_staged_twice() {
    assert!(!should_stage_service(ServiceRequestKind::Cursor, true, false));
    assert!(!should_stage_service(ServiceRequestKind::InputMethod { enabled: true }, false, true));
    assert!(should_stage_service(ServiceRequestKind::Cursor, false, false));
    assert!(should_stage_service(ServiceRequestKind::ClipboardReadText, true, true));
}

#[test]
fn cursor_follows_pointer_then_focus_then_root() {
    let a = MountedNodeId { namespace: 1, slot: 1, generation: 1 };
    let b = MountedNodeId { namespace: 1, slot: 2, generation: 1 };
    let r = MountedNodeId { namespace: 1, slot: 0, generation: 1 };
    assert_eq!(cursor_owner(Some(a), Some(b), Some(r)), Some(a));
    assert_eq!(cursor_owner(None, Some(b), Some(r)), Some(b));
    assert_eq!(cursor_owner(None, None, Some(r)), Some(r));
    assert_eq!(cursor_owner(None, None, None), None);
    assert_eq!(cursor_shape(true, true), CursorShape::Text);
    assert_eq!(cursor_shape(false, true), CursorShape::Pointer);
    assert_eq!(cursor_shape(false, false), CursorShape::Default);
}

#[test]
fn unaccepted_drops_are_not_offered_to_the_host() {
    assert!(drag_drop_staged(true, false, true, false, false));
    assert!(!drag_drop_staged(false, false, true, false, false));
    assert!(drag_drop_staged(false, true, true, false, false));
    assert!(!drag_drop_staged(true, true, false, false, false));
    assert!(!drag_drop_staged(true, true, true, true, false));
    assert!(drag_drop_staged(true, true, true, true, true));
}
