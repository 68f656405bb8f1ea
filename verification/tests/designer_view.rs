use makepad_logic::designer_view::{
    pick_subcomponent, DesignerView, DesignerViewAction, DesignerViewRef, Edge, FingerMoveKind,
    KeyModifiers, LiveId, WidgetAction,
};

fn mods(shift: bool, control: bool, alt: bool, logo: bool) -> KeyModifiers {
    KeyModifiers { shift, control, alt, logo }
}

fn view_ref() -> DesignerViewRef {
    DesignerViewRef { uid: 11, inner: Some(DesignerView::new()) }
}

#[test]
fn default_action_is_none() {
    assert_eq!(DesignerViewAction::default(), DesignerViewAction::NoAction);
}

#[test]
fn select_and_redraw() {
    let mut r = view_ref();
    r.select_component_and_redraw(Some(LiveId(4)));
    let v = r.inner.as_ref().unwrap();
    assert_eq!(v.selected_component, Some(LiveId(4)));
    assert!(v.redraw_requested);
    let mut empty = DesignerViewRef { uid: 1, inner: None };
    empty.select_component_and_redraw(Some(LiveId(4)));
    assert!(empty.inner.is_none());
}

#[test]
fn view_file_drops_containers_once() {
    let mut r = view_ref();
    r.inner.as_mut().unwrap().containers = vec![LiveId(1), LiveId(2)];
    r.view_file_and_redraw(LiveId(9));
    assert!(r.inner.as_ref().unwrap().containers.is_empty());
    assert_eq!(r.inner.as_ref().unwrap().view_file, Some(LiveId(9)));
    r.inner.as_mut().unwrap().containers = vec![LiveId(3)];
    r.inner.as_mut().unwrap().redraw_requested = false;
    r.view_file_and_redraw(LiveId(9));
    assert_eq!(r.inner.as_ref().unwrap().containers, vec![LiveId(3)]);
    assert!(!r.inner.as_ref().unwrap().redraw_requested);
}

#[test]
fn reload_drops_containers() {
    let mut r = view_ref();
    r.inner.as_mut().unwrap().containers = vec![LiveId(1)];
    r.reload_view();
    assert!(r.inner.as_ref().unwrap().containers.is_empty());
    assert!(r.inner.as_ref().unwrap().redraw_requested);
}

#[test]
fn selected_reads_the_first_own_action() {
    let r = view_ref();
    let sel = DesignerViewAction::Selected { id: LiveId(3), km: mods(false, true, false, false), tap_count: 2 };
    let actions = vec![
        WidgetAction { widget_uid: 5, action: sel },
        WidgetAction { widget_uid: 11, action: sel },
    ];
    assert_eq!(r.selected(&actions), Some((LiveId(3), mods(false, true, false, false), 2)));
    let actions = vec![
        WidgetAction { widget_uid: 11, action: DesignerViewAction::NoAction },
        WidgetAction { widget_uid: 11, action: sel },
    ];
    assert_eq!(r.selected(&actions), None);
    assert_eq!(r.selected(&vec![]), None);
}

#[test]
fn finger_down_decisions() {
    let mut v = DesignerView::new();
    let hit = Some((LiveId(2), Edge::Left));
    assert_eq!(v.finger_down(mods(true, false, false, false), 1, hit), (FingerMoveKind::Pan, DesignerViewAction::NoAction));
    assert_eq!(v.finger_down(mods(false, true, true, false), 1, hit), (FingerMoveKind::DragAll, DesignerViewAction::NoAction));
    assert_eq!(v.finger_down(mods(false, false, false, false), 1, None), (FingerMoveKind::Pan, DesignerViewAction::NoAction));
    assert_eq!(v.selected_component, None);
    let (kind, action) = v.finger_down(mods(false, false, false, false), 3, hit);
    assert_eq!(kind, FingerMoveKind::DragEdge { id: LiveId(2), edge: Edge::Left });
    assert_eq!(action, DesignerViewAction::Selected { id: LiveId(2), km: mods(false, false, false, false), tap_count: 3 });
    assert_eq!(v.selected_component, Some(LiveId(2)));
    v.has_selected_subcomponent = true;
    assert_eq!(v.finger_down(mods(false, false, false, false), 1, hit).0, FingerMoveKind::DragSubComponentOrder);
    assert_eq!(v.finger_down(mods(false, false, false, true), 1, hit).0, FingerMoveKind::DragEdge { id: LiveId(2), edge: Edge::Left });
    assert_eq!(v.undo_group, 6);
}

#[test]
fn picking_a_subcomponent() {
    assert_eq!(pick_subcomponent(&vec![None]), (0, None));
    assert_eq!(pick_subcomponent(&vec![None, Some(3)]), (0, Some(1)));
    assert_eq!(pick_subcomponent(&vec![None, Some(1), None, Some(2), Some(5)]), (2, Some(3)));
    assert_eq!(pick_subcomponent(&vec![Some(4), Some(1), None]), (2, None));
}

use makepad_logic::designer_view::{hover_cursor, MouseCursor};

#[test]
fn hover_cursor_shapes() {
    assert_eq!(hover_cursor(Some(Edge::Left)), MouseCursor::EwResize);
    assert_eq!(hover_cursor(Some(Edge::Right)), MouseCursor::EwResize);
    assert_eq!(hover_cursor(Some(Edge::Top)), MouseCursor::NsResize);
    assert_eq!(hover_cursor(Some(Edge::Bottom)), MouseCursor::NsResize);
    assert_eq!(hover_cursor(Some(Edge::Body)), MouseCursor::Move);
    assert_eq!(hover_cursor(None), MouseCursor::Default);
}
