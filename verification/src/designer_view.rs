//! The decisions of the designer view: which component is selected, which
//! file is shown, what a press of the pointer starts, and which of the
//! picked widgets a drag reorders.
use vstd::prelude::*;

verus! {

/// The id of a live-design item.
#[derive(Clone, Copy, Debug, PartialEq, Eq, Structural)]
pub struct LiveId(pub u64);

#[derive(Clone, Copy, Debug, PartialEq, Eq, Structural)]
pub struct KeyModifiers {
    pub shift: bool,
    pub control: bool,
    pub alt: bool,
    pub logo: bool,
}

/// What the designer view tells its parent.
#[derive(Clone, Copy, Debug, PartialEq, Eq, Structural)]
pub enum DesignerViewAction {
    NoAction,
    Selected { id: LiveId, km: KeyModifiers, tap_count: u32 },
}

impl Default for DesignerViewAction {
    fn default() -> (a: Self)
        ensures
            a == DesignerViewAction::NoAction,
    {
        DesignerViewAction::NoAction
    }
}

/// An action that a widget posted, with the uid of the widget.
#[derive(Clone, Copy, Debug, PartialEq, Eq, Structural)]
pub struct WidgetAction {
    pub widget_uid: u64,
    pub action: DesignerViewAction,
}

/// The side of a component's container that the pointer is on.
#[derive(Clone, Copy, Debug, PartialEq, Eq, Structural)]
pub enum Edge {
    Left,
    Right,
    Bottom,
    Top,
    Body,
}

/// What a press of the pointer starts.
#[derive(Clone, Copy, Debug, PartialEq, Eq, Structural)]
pub enum FingerMoveKind {
    Pan,
    DragAll,
    DragEdge { id: LiveId, edge: Edge },
    DragSubComponentOrder,
}

/// The pointer's shape over the designer view.
#[derive(Clone, Copy, Debug, PartialEq, Eq, Structural)]
pub enum MouseCursor {
    Default,
    EwResize,
    NsResize,
    Move,
}

/// The pointer's shape for the edge under it.
pub open spec fn cursor_for(edge: Option<Edge>) -> MouseCursor {
    match edge {
        Some(Edge::Left) | Some(Edge::Right) => MouseCursor::EwResize,
        Some(Edge::Top) | Some(Edge::Bottom) => MouseCursor::NsResize,
        Some(Edge::Body) => MouseCursor::Move,
        None => MouseCursor::Default,
    }
}

/// The pointer's shape while hovering: set by the first container, in the
/// view's order, whose edge or body is under the pointer; the default
/// where there is none.
pub fn hover_cursor(first_edge: Option<Edge>) -> (c: MouseCursor)
    ensures
        c == cursor_for(first_edge),
{
    match first_edge {
        Some(edge) => match edge {
            Edge::Left | Edge::Right => MouseCursor::EwResize,
            Edge::Top | Edge::Bottom => MouseCursor::NsResize,
            Edge::Body => MouseCursor::Move,
        },
        None => MouseCursor::Default,
    }
}

/// The designer view's state, but for its zoom and pan and the widgets it
/// draws. `containers` holds the ids of the components that have a
/// container; `redraw_requested` is set whenever the view asks to be drawn
/// again.
pub struct DesignerView {
    pub reapply: bool,
    pub undo_group: u64,
    pub view_file: Option<LiveId>,
    pub selected_component: Option<LiveId>,
    pub has_selected_subcomponent: bool,
    pub containers: Vec<LiveId>,
    pub redraw_requested: bool,
}

impl DesignerView {
    pub fn new() -> (v: DesignerView)
        ensures
            !v.reapply,
            v.undo_group == 0,
            v.view_file is None,
            v.selected_component is None,
            !v.has_selected_subcomponent,
            v.containers@.len() == 0,
            !v.redraw_requested,
    {
        DesignerView {
            reapply: false,
            undo_group: 0,
            view_file: None,
            selected_component: None,
            has_selected_subcomponent: false,
            containers: Vec::new(),
            redraw_requested: false,
        }
    }

    /// After a live-code change the containers are applied anew.
    pub fn after_apply(&mut self)
        ensures
            *final(self) == (DesignerView { reapply: true, ..*old(self) }),
    {
        self.reapply = true;
    }

    pub fn select_component(&mut self, what_id: Option<LiveId>)
        ensures
            *final(self) == (DesignerView {
                selected_component: what_id,
                redraw_requested: true,
                ..*old(self)
            }),
    {
        self.redraw_requested = true;
        self.selected_component = what_id;
    }

    /// What a press of the pointer starts. `first_edge_hit` is the first
    /// container, in the view's order, whose edge or body is under the
    /// pointer. Grabbing a container selects it and tells the parent.
    pub fn finger_down(
        &mut self,
        modifiers: KeyModifiers,
        tap_count: u32,
        first_edge_hit: Option<(LiveId, Edge)>,
    ) -> (r: (FingerMoveKind, DesignerViewAction))
        requires
            old(self).undo_group < u64::MAX,
        ensures
            final(self).undo_group == old(self).undo_group + 1,
            r.0 == finger_down_move(modifiers, old(self).has_selected_subcomponent, first_edge_hit),
            r.0 matches FingerMoveKind::DragEdge { id, edge } ==> {
                &&& r.1 == (DesignerViewAction::Selected { id, km: modifiers, tap_count })
                &&& final(self).selected_component == Some(id)
                &&& final(self).redraw_requested
            },
            !(r.0 is DragEdge) ==> r.1 == DesignerViewAction::NoAction && final(self).selected_component
                == old(self).selected_component && final(self).redraw_requested
                == old(self).redraw_requested,
            final(self).containers == old(self).containers,
            final(self).view_file == old(self).view_file,
            final(self).reapply == old(self).reapply,
            final(self).has_selected_subcomponent == old(self).has_selected_subcomponent,
    {
        self.undo_group = self.undo_group + 1;
        if !modifiers.shift {
            if modifiers.control && modifiers.alt {
                return (FingerMoveKind::DragAll, DesignerViewAction::NoAction);
            } else if modifiers.logo || !self.has_selected_subcomponent {
                match first_edge_hit {
                    Some((id, edge)) => {
                        self.select_component(Some(id));
                        return (
                            FingerMoveKind::DragEdge { id, edge },
                            DesignerViewAction::Selected { id, km: modifiers, tap_count },
                        );
                    },
                    None => {},
                }
            } else {
                return (FingerMoveKind::DragSubComponentOrder, DesignerViewAction::NoAction);
            }
        }
        (FingerMoveKind::Pan, DesignerViewAction::NoAction)
    }
}

/// What a press starts: with shift, a pan; with control and alt, dragging
/// every container; with the logo key or no picked sub-component, dragging
/// the edge of the container under the pointer (a pan where there is none);
/// else reordering the picked sub-component.
pub open spec fn finger_down_move(
    modifiers: KeyModifiers,
    has_subcomponent: bool,
    first_edge_hit: Option<(LiveId, Edge)>,
) -> FingerMoveKind {
    if modifiers.shift {
        FingerMoveKind::Pan
    } else if modifiers.control && modifiers.alt {
        FingerMoveKind::DragAll
    } else if modifiers.logo || !has_subcomponent {
        match first_edge_hit {
            Some((id, edge)) => FingerMoveKind::DragEdge { id, edge },
            None => FingerMoveKind::Pan,
        }
    } else {
        FingerMoveKind::DragSubComponentOrder
    }
}

/// Only control and alt together, without shift, drag every container; with
/// control alone or alt alone (or neither), no picked sub-component and a
/// container under the pointer, the press drags that container's edge.
pub proof fn law_drag_all_needs_control_and_alt(
    modifiers: KeyModifiers,
    has_subcomponent: bool,
    first_edge_hit: Option<(LiveId, Edge)>,
)
    ensures
        finger_down_move(modifiers, has_subcomponent, first_edge_hit) is DragAll <==> (!modifiers.shift
            && modifiers.control && modifiers.alt),
        !modifiers.shift && !(modifiers.control && modifiers.alt) && !has_subcomponent
            && first_edge_hit is Some ==> finger_down_move(modifiers, has_subcomponent, first_edge_hit)
            == (FingerMoveKind::DragEdge { id: first_edge_hit.unwrap().0, edge: first_edge_hit.unwrap().1 }),
        modifiers.shift ==> finger_down_move(modifiers, has_subcomponent, first_edge_hit) is Pan,
{
}

/// Whether the widget with this many children (`None` for one that is no
/// view) groups several children.
pub open spec fn groups_children(child_count: Option<usize>) -> bool {
    child_count matches Some(c) && c > 1
}

/// The first index from 1 on of a widget that groups several children, or
/// the length where there is none.
pub open spec fn first_group(child_counts: Seq<Option<usize>>, from: int) -> int
    decreases child_counts.len() - from,
{
    if from >= child_counts.len() {
        child_counts.len() as int
    } else if groups_children(child_counts[from]) {
        from
    } else {
        first_group(child_counts, from + 1)
    }
}

proof fn lemma_first_group(child_counts: Seq<Option<usize>>, from: int)
    requires
        0 <= from <= child_counts.len(),
    ensures
        from <= first_group(child_counts, from) <= child_counts.len(),
        first_group(child_counts, from) < child_counts.len() ==> groups_children(
            child_counts[first_group(child_counts, from)],
        ),
        forall|j: int| from <= j < first_group(child_counts, from) ==> !groups_children(
            #[trigger] child_counts[j],
        ),
    decreases child_counts.len() - from,
{
    if from < child_counts.len() && !groups_children(child_counts[from]) {
        lemma_first_group(child_counts, from + 1);
    }
}

/// Of the widgets that a pick went through, innermost first, the one a drag
/// reorders and its parent: walking outwards, the component is the last
/// widget before the first enclosing view with more than one child, which is
/// the parent; with no such view, the outermost widget, with no parent.
pub fn pick_subcomponent(child_counts: &Vec<Option<usize>>) -> (r: (usize, Option<usize>))
    requires
        child_counts@.len() > 0,
    ensures
        ({
            let k = first_group(child_counts@, 1);
            if k < child_counts@.len() {
                r == (((k - 1) as usize), Some(k as usize))
            } else {
                r == (((child_counts@.len() - 1) as usize), None::<usize>)
            }
        }),
{
    proof {
        lemma_first_group(child_counts@, 1);
    }
    let mut component: usize = 0;
    let mut parent: usize = 1;
    while parent < child_counts.len()
        invariant
            parent == component + 1,
            1 <= parent <= first_group(child_counts@, 1),
            first_group(child_counts@, 1) <= child_counts@.len(),
            first_group(child_counts@, 1) < child_counts@.len() ==> groups_children(
                child_counts@[first_group(child_counts@, 1)],
            ),
            forall|j: int| 1 <= j < first_group(child_counts@, 1) ==> !groups_children(
                #[trigger] child_counts@[j],
            ),
        decreases child_counts.len() - parent,
    {
        match child_counts[parent] {
            Some(c) => {
                if c > 1 {
                    return (component, Some(parent));
                }
            },
            None => {},
        }
        component = parent;
        parent = parent + 1;
    }
    (component, None)
}

/// A reference to a designer view widget: its uid, and the view, `None`
/// where the reference holds no designer view.
pub struct DesignerViewRef {
    pub uid: u64,
    pub inner: Option<DesignerView>,
}

/// The index of the first action that the widget with `uid` posted, or the
/// number of actions where it posted none.
pub open spec fn first_action_of(actions: Seq<WidgetAction>, uid: u64) -> int
    decreases actions.len(),
{
    if actions.len() == 0 {
        0
    } else if actions[0].widget_uid == uid {
        0
    } else {
        1 + first_action_of(actions.drop_first(), uid)
    }
}

proof fn lemma_first_action_of(actions: Seq<WidgetAction>, uid: u64)
    ensures
        0 <= first_action_of(actions, uid) <= actions.len(),
        first_action_of(actions, uid) < actions.len() ==> actions[first_action_of(actions, uid)].widget_uid == uid,
        forall|j: int| 0 <= j < first_action_of(actions, uid) ==> (#[trigger] actions[j]).widget_uid != uid,
    decreases actions.len(),
{
    if actions.len() > 0 && actions[0].widget_uid != uid {
        let t = actions.drop_first();
        lemma_first_action_of(t, uid);
        assert forall|j: int| 0 <= j < first_action_of(actions, uid) implies (#[trigger] actions[j]).widget_uid != uid by {
            if j > 0 {
                assert(actions[j] == t[j - 1]);
            }
        }
    }
}

impl DesignerViewRef {
    /// Selects a component and redraws.
    pub fn select_component_and_redraw(&mut self, comp: Option<LiveId>)
        ensures
            final(self).uid == old(self).uid,
            match old(self).inner {
                None => final(self).inner is None,
                Some(v) => final(self).inner == Some(
                    DesignerView { selected_component: comp, redraw_requested: true, ..v },
                ),
            },
    {
        match &mut self.inner {
            Some(inner) => {
                inner.select_component(comp);
                inner.redraw_requested = true;
            },
            None => {},
        }
    }

    /// Shows another file: its containers are dropped and it is drawn anew;
    /// nothing changes where it is already shown.
    pub fn view_file_and_redraw(&mut self, file_id: LiveId)
        ensures
            final(self).uid == old(self).uid,
            match old(self).inner {
                None => final(self).inner is None,
                Some(v) => if v.view_file != Some(file_id) {
                    final(self).inner matches Some(w) && w.containers@.len() == 0 && w == (
                    DesignerView {
                        view_file: Some(file_id),
                        redraw_requested: true,
                        containers: w.containers,
                        ..v
                    })
                } else {
                    final(self).inner == Some(v)
                },
            },
    {
        match &mut self.inner {
            Some(inner) => {
                if inner.view_file != Some(file_id) {
                    inner.containers = Vec::new();
                    inner.view_file = Some(file_id);
                    inner.redraw_requested = true;
                }
            },
            None => {},
        }
    }

    /// Drops the containers, to be made anew, and redraws.
    pub fn reload_view(&mut self)
        ensures
            final(self).uid == old(self).uid,
            match old(self).inner {
                None => final(self).inner is None,
                Some(v) => final(self).inner matches Some(w) && w.containers@.len() == 0 && w == (
                DesignerView { redraw_requested: true, containers: w.containers, ..v }),
            },
    {
        match &mut self.inner {
            Some(inner) => {
                inner.containers = Vec::new();
                inner.redraw_requested = true;
            },
            None => {},
        }
    }

    /// The selection that this view posted among `actions`: its first action,
    /// where that is a `Selected`.
    pub fn selected(&self, actions: &Vec<WidgetAction>) -> (r: Option<(LiveId, KeyModifiers, u32)>)
        ensures
            ({
                let k = first_action_of(actions@, self.uid);
                if k < actions@.len() {
                    match actions@[k].action {
                        DesignerViewAction::Selected { id, km, tap_count } => r == Some(
                            (id, km, tap_count),
                        ),
                        DesignerViewAction::NoAction => r is None,
                    }
                } else {
                    r is None
                }
            }),
    {
        proof {
            lemma_first_action_of(actions@, self.uid);
        }
        let mut i: usize = 0;
        while i < actions.len()
            invariant
                i <= first_action_of(actions@, self.uid),
                0 <= first_action_of(actions@, self.uid) <= actions@.len(),
                first_action_of(actions@, self.uid) < actions@.len() ==> actions@[first_action_of(actions@, self.uid)].widget_uid == self.uid,
                forall|j: int| 0 <= j < first_action_of(actions@, self.uid) ==> (#[trigger] actions@[j]).widget_uid != self.uid,
            decreases actions.len() - i,
        {
            if actions[i].widget_uid == self.uid {
                return match actions[i].action {
                    DesignerViewAction::Selected { id, km, tap_count } => Some((id, km, tap_count)),
                    DesignerViewAction::NoAction => None,
                };
            }
            i = i + 1;
        }
        None
    }
}

} // verus!
