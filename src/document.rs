use vstd::prelude::*;

verus! {

/// Opaque identifier of a layer.
pub type LayerID = usize;

/// An RGBA colour, each channel in 0..=255.
#[derive(Clone, Copy, Debug, PartialEq, Eq, Structural)]
pub struct Color {
    pub r: u8,
    pub g: u8,
    pub b: u8,
    pub a: u8,
}

/// A polyline: its points in drawing order, its colour and its stroke width.
/// The point type `P` and the width type `W` are carried, never inspected.
pub struct Path<P, W> {
    pub data: Vec<P>,
    pub color: Color,
    pub stroke_width: W,
}

/// A layer is a sequence of paths.
pub struct Layer<P, W> {
    pub paths: Vec<Path<P, W>>,
}

/// Page dimensions in document units.
pub struct PageSize<W> {
    pub w: W,
    pub h: W,
}

/// No two entries of `layers` carry the same identifier.
pub open spec fn distinct_ids<P, W>(layers: Seq<(LayerID, Layer<P, W>)>) -> bool {
    forall|i: int, j: int|
        0 <= i < layers.len() && 0 <= j < layers.len() && i != j ==> layers[i].0 != layers[j].0
}

/// Position of the layer `id` in `layers`, if it is there.
pub open spec fn position_of<P, W>(layers: Seq<(LayerID, Layer<P, W>)>, id: LayerID) -> Option<
    int,
> {
    if exists|i: int| 0 <= i < layers.len() && layers[i].0 == id {
        Some(choose|i: int| 0 <= i < layers.len() && layers[i].0 == id)
    } else {
        None
    }
}

/// A mapping from layer identifiers to layers that keeps the order in which
/// identifiers were first inserted.
pub struct FlattenedDocument<P, W> {
    layers: Vec<(LayerID, Layer<P, W>)>,
}

impl<P, W> View for FlattenedDocument<P, W> {
    type V = Seq<(LayerID, Layer<P, W>)>;

    closed spec fn view(&self) -> Seq<(LayerID, Layer<P, W>)> {
        self.layers@
    }
}

impl<P, W> FlattenedDocument<P, W> {
    pub open spec fn wf(&self) -> bool {
        distinct_ids(self@)
    }

    /// An empty document.
    pub fn new() -> (d: Self)
        ensures
            d.wf(),
            d@ == Seq::<(LayerID, Layer<P, W>)>::empty(),
    {
        FlattenedDocument { layers: Vec::new() }
    }

    /// Number of layers.
    pub fn layer_count(&self) -> (n: usize)
        ensures
            n == self@.len(),
    {
        self.layers.len()
    }

    /// Identifier of the layer at position `i` in document order.
    pub fn layer_id(&self, i: usize) -> (id: LayerID)
        requires
            i < self@.len(),
        ensures
            id == self@[i as int].0,
    {
        self.layers[i].0
    }

    /// The layer at position `i` in document order.
    pub fn layer(&self, i: usize) -> (l: &Layer<P, W>)
        requires
            i < self@.len(),
        ensures
            *l == self@[i as int].1,
    {
        &self.layers[i].1
    }

    /// Position of the layer `id` in document order, if present.
    pub fn find(&self, id: LayerID) -> (r: Option<usize>)
        requires
            self.wf(),
        ensures
            match r {
                Some(i) => i < self@.len() && self@[i as int].0 == id,
                None => forall|i: int| 0 <= i < self@.len() ==> self@[i].0 != id,
            },
            r matches Some(i) ==> position_of(self@, id) == Some(i as int),
            r is None <==> position_of(self@, id) is None,
    {
        let mut i: usize = 0;
        while i < self.layers.len()
            invariant
                i <= self@.len(),
                self.wf(),
                self@ == self.layers@,
                forall|k: int| 0 <= k < i ==> self@[k].0 != id,
            decreases self@.len() - i,
        {
            if self.layers[i].0 == id {
                assert(position_of(self@, id) == Some(i as int));
                return Some(i);
            }
            i = i + 1;
        }
        None
    }

    /// Inserts `layer` under `id`. An identifier already present keeps its
    /// position and has its layer replaced; a new one is appended.
    pub fn insert_layer(&mut self, id: LayerID, layer: Layer<P, W>)
        requires
            old(self).wf(),
        ensures
            final(self).wf(),
            match position_of(old(self)@, id) {
                Some(i) => final(self)@ == old(self)@.update(i, (id, layer)),
                None => final(self)@ == old(self)@.push((id, layer)),
            },
    {
        match self.find(id) {
            Some(i) => {
                self.layers.set(i, (id, layer));
            },
            None => {
                self.layers.push((id, layer));
            },
        }
    }
}

} // verus!
