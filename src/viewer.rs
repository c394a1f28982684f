use crate::document::{FlattenedDocument, Layer, LayerID, PageSize};
use crate::render::{is_visible, render_scene, scene, visibility_of, Primitive};
use std::collections::HashMap;
use vstd::prelude::*;

verus! {

broadcast use vstd::std_specs::hash::group_hash_axioms;

/// The abstract state of a viewer.
pub struct ViewerState<P, W> {
    pub layers: Seq<(LayerID, Layer<P, W>)>,
    pub page_size: Option<PageSize<W>>,
    pub show_point: bool,
    pub show_grid: bool,
    pub visibility: Map<LayerID, bool>,
}

/// The display list that a viewer in state `s` draws.
pub open spec fn frame_of<P, W>(s: ViewerState<P, W>) -> Seq<Primitive> {
    scene(s.layers, s.page_size is Some, s.visibility, s.show_grid, s.show_point)
}

/// A user action in the menu bar.
pub enum MenuEvent {
    /// File / Quit.
    Quit,
    /// View / Show points, checked or unchecked.
    ShowPoints(bool),
    /// View / Show grid, checked or unchecked.
    ShowGrid(bool),
    /// Layer / Layer {id}, checked or unchecked.
    LayerVisible(LayerID, bool),
}

/// What the host is asked to do after a menu event.
#[derive(Clone, Copy, Debug, PartialEq, Eq, Structural)]
pub enum HostAction {
    Continue,
    CloseWindow,
}

/// The state after `e`.
pub open spec fn after_event<P, W>(s: ViewerState<P, W>, e: MenuEvent) -> ViewerState<P, W> {
    match e {
        MenuEvent::Quit => s,
        MenuEvent::ShowPoints(b) => ViewerState { show_point: b, ..s },
        MenuEvent::ShowGrid(b) => ViewerState { show_grid: b, ..s },
        MenuEvent::LayerVisible(id, b) => ViewerState { visibility: s.visibility.insert(id, b), ..s },
    }
}

/// The host action that `e` asks for.
pub open spec fn action_of(e: MenuEvent) -> HostAction {
    match e {
        MenuEvent::Quit => HostAction::CloseWindow,
        _ => HostAction::Continue,
    }
}

/// The visibility map once each of the first `n` layers of `layers` has an
/// entry: entries already there are kept, missing ones are visible.
pub open spec fn with_default_entries_upto<P, W>(
    vis: Map<LayerID, bool>,
    layers: Seq<(LayerID, Layer<P, W>)>,
    n: int,
) -> Map<LayerID, bool> {
    Map::new(
        |k: LayerID| vis.contains_key(k) || exists|i: int| 0 <= i < n && #[trigger] layers[i].0 == k,
        |k: LayerID| is_visible(vis, k),
    )
}

/// The visibility map once every layer of `layers` has an entry.
pub open spec fn with_default_entries<P, W>(
    vis: Map<LayerID, bool>,
    layers: Seq<(LayerID, Layer<P, W>)>,
) -> Map<LayerID, bool> {
    with_default_entries_upto(vis, layers, layers.len() as int)
}

/// Document, page size, display toggles and layer visibility of one
/// viewing session.
pub struct Viewer<P, W> {
    document: FlattenedDocument<P, W>,
    page_size: Option<PageSize<W>>,
    show_point: bool,
    show_grid: bool,
    layer_visibility: HashMap<LayerID, bool>,
}

impl<P, W> View for Viewer<P, W> {
    type V = ViewerState<P, W>;

    closed spec fn view(&self) -> ViewerState<P, W> {
        ViewerState {
            layers: self.document@,
            page_size: self.page_size,
            show_point: self.show_point,
            show_grid: self.show_grid,
            visibility: self.layer_visibility@,
        }
    }
}

impl<P, W> Viewer<P, W> {
    /// A viewer of `document`, with points and grid hidden and no
    /// visibility entry.
    pub fn new(document: FlattenedDocument<P, W>, page_size: Option<PageSize<W>>) -> (v: Self)
        ensures
            v@ == (ViewerState {
                layers: document@,
                page_size,
                show_point: false,
                show_grid: false,
                visibility: Map::<LayerID, bool>::empty(),
            }),
    {
        Viewer {
            document,
            page_size,
            show_point: false,
            show_grid: false,
            layer_visibility: HashMap::new(),
        }
    }

    pub fn document(&self) -> (d: &FlattenedDocument<P, W>)
        ensures
            d@ == self@.layers,
    {
        &self.document
    }

    pub fn page_size(&self) -> (p: &Option<PageSize<W>>)
        ensures
            *p == self@.page_size,
    {
        &self.page_size
    }

    pub fn show_point(&self) -> (b: bool)
        ensures
            b == self@.show_point,
    {
        self.show_point
    }

    pub fn show_grid(&self) -> (b: bool)
        ensures
            b == self@.show_grid,
    {
        self.show_grid
    }

    /// Whether layer `id` is drawn; the state is left as it is.
    pub fn is_layer_visible(&self, id: LayerID) -> (b: bool)
        ensures
            b == is_visible(self@.visibility, id),
    {
        visibility_of(&self.layer_visibility, id)
    }

    /// The visibility entry of layer `id`, created as visible when missing.
    pub fn visibility_entry(&mut self, id: LayerID) -> (b: bool)
        ensures
            b == is_visible(old(self)@.visibility, id),
            final(self)@ == (ViewerState {
                visibility: if old(self)@.visibility.contains_key(id) {
                    old(self)@.visibility
                } else {
                    old(self)@.visibility.insert(id, true)
                },
                ..old(self)@
            }),
            final(self)@.visibility.contains_key(id),
            final(self)@.visibility[id] == b,
    {
        match self.layer_visibility.get(&id) {
            Some(v) => *v,
            None => {
                self.layer_visibility.insert(id, true);
                true
            },
        }
    }

    /// The entries of the Layer menu: each layer's identifier and visibility,
    /// in document order. Every layer gets a visibility entry (visible when
    /// it had none).
    pub fn layer_menu(&mut self) -> (r: Vec<(LayerID, bool)>)
        ensures
            r@.len() == old(self)@.layers.len(),
            forall|i: int|
                0 <= i < r@.len() ==> r@[i] == (
                    old(self)@.layers[i].0,
                    is_visible(old(self)@.visibility, old(self)@.layers[i].0),
                ),
            final(self)@ == (ViewerState {
                visibility: with_default_entries(old(self)@.visibility, old(self)@.layers),
                ..old(self)@
            }),
    {
        let ghost vis0 = self@.visibility;
        let ghost layers = self@.layers;
        let mut r: Vec<(LayerID, bool)> = Vec::new();
        let n = self.document.layer_count();
        let mut i: usize = 0;
        while i < n
            invariant
                n == layers.len(),
                i <= n,
                self@ == (ViewerState { visibility: self@.visibility, ..old(self)@ }),
                vis0 == old(self)@.visibility,
                layers == old(self)@.layers,
                r@.len() == i,
                forall|k: int| 0 <= k < i ==> r@[k] == (layers[k].0, is_visible(vis0, layers[k].0)),
                self@.visibility == with_default_entries_upto(vis0, layers, i as int),
            decreases n - i,
        {
            let id = self.document.layer_id(i);
            let b = self.visibility_entry(id);
            r.push((id, b));
            i = i + 1;
            assert forall|k: LayerID|
                #[trigger] with_default_entries_upto(vis0, layers, i as int).contains_key(k)
                    == self@.visibility.contains_key(k) by {
                if k == id {
                    assert(layers[i - 1].0 == k);
                }
            }
            assert(self@.visibility =~= with_default_entries_upto(vis0, layers, i as int));
        }
        r
    }

    /// Applies a menu event and tells the host what to do next.
    pub fn handle_menu_event(&mut self, event: MenuEvent) -> (a: HostAction)
        ensures
            final(self)@ == after_event(old(self)@, event),
            a == action_of(event),
    {
        match event {
            MenuEvent::Quit => HostAction::CloseWindow,
            MenuEvent::ShowPoints(b) => {
                self.show_point = b;
                HostAction::Continue
            },
            MenuEvent::ShowGrid(b) => {
                self.show_grid = b;
                HostAction::Continue
            },
            MenuEvent::LayerVisible(id, b) => {
                self.layer_visibility.insert(id, b);
                HostAction::Continue
            },
        }
    }

    /// The display list of the current frame.
    pub fn render(&self) -> (r: Vec<Primitive>)
        ensures
            r@ == frame_of(self@),
    {
        render_scene(
            &self.document,
            self.page_size.is_some(),
            &self.layer_visibility,
            self.show_grid,
            self.show_point,
        )
    }
}

} // verus!
