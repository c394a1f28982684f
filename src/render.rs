use crate::document::{Color, FlattenedDocument, Layer, LayerID, Path};
use std::collections::HashMap;
use vstd::prelude::*;

verus! {

broadcast use vstd::std_specs::hash::group_hash_axioms;

/// Offset of the page shadow, in plot units: `+SHADOW_OFFSET` along x and
/// `-SHADOW_OFFSET` along y.
pub const SHADOW_OFFSET: i64 = 10;

/// A point marker's radius is this many times its path's stroke width.
pub const POINT_RADIUS_SCALE: u32 = 2;

/// Fill alpha of an opaque polygon.
pub const OPAQUE: u8 = 255;

/// Fill alpha of an outline-only polygon.
pub const TRANSPARENT: u8 = 0;

/// One entry of the display list, drawn in list order (later entries
/// occlude earlier ones). Paths and points are referred to by their
/// positions in document order: layer position, path position within the
/// layer, point position within the path.
#[derive(Clone, Copy, Debug, PartialEq, Eq, Structural)]
pub enum Primitive {
    /// The host's default grid lines on both axes.
    Grid,
    /// The page rectangle with corners (0,0), (w,0), (w,-h), (0,-h),
    /// shifted by (`dx`, `dy`), stroked in `color` and filled with it at
    /// opacity `fill_alpha / 255`.
    PageRect { dx: i64, dy: i64, color: Color, fill_alpha: u8 },
    /// The polyline of a path, stroked in `color` with the path's stroke width.
    Line { layer: usize, path: usize, color: Color },
    /// A filled circle at one point of a path, of radius `radius_scale` times
    /// the path's stroke width.
    Marker { layer: usize, path: usize, point: usize, color: Color, radius_scale: u32 },
}

/// Whether a layer is drawn: a layer without an entry is visible.
pub open spec fn is_visible(vis: Map<LayerID, bool>, id: LayerID) -> bool {
    !vis.contains_key(id) || vis[id]
}

pub open spec fn shadow_rect() -> Primitive {
    Primitive::PageRect {
        dx: SHADOW_OFFSET,
        dy: (-SHADOW_OFFSET) as i64,
        color: Color { r: 180, g: 180, b: 180, a: 255 },
        fill_alpha: OPAQUE,
    }
}

pub open spec fn background_rect() -> Primitive {
    Primitive::PageRect {
        dx: 0,
        dy: 0,
        color: Color { r: 255, g: 255, b: 255, a: 255 },
        fill_alpha: OPAQUE,
    }
}

pub open spec fn frame_rect() -> Primitive {
    Primitive::PageRect {
        dx: 0,
        dy: 0,
        color: Color { r: 128, g: 128, b: 128, a: 255 },
        fill_alpha: TRANSPARENT,
    }
}

/// Shadow, background and frame of the page, in that order.
pub open spec fn page_frame_prims() -> Seq<Primitive> {
    seq![shadow_rect(), background_rect(), frame_rect()]
}

/// Markers for the first `n` points of path `path` of layer `layer`.
pub open spec fn marker_prims(layer: usize, path: usize, color: Color, n: nat) -> Seq<Primitive>
    decreases n,
{
    if n == 0 {
        seq![]
    } else {
        marker_prims(layer, path, color, (n - 1) as nat).push(
            Primitive::Marker {
                layer,
                path,
                point: (n - 1) as usize,
                color,
                radius_scale: POINT_RADIUS_SCALE,
            },
        )
    }
}

/// What one path contributes: its polyline, then one marker per point when
/// points are shown.
pub open spec fn path_prims<P, W>(layer: usize, path: usize, p: Path<P, W>, show_point: bool) -> Seq<
    Primitive,
> {
    seq![Primitive::Line { layer, path, color: p.color }] + if show_point {
        marker_prims(layer, path, p.color, p.data@.len())
    } else {
        seq![]
    }
}

/// What the first `n` paths of a layer contribute.
pub open spec fn paths_prims<P, W>(
    layer: usize,
    paths: Seq<Path<P, W>>,
    n: nat,
    show_point: bool,
) -> Seq<Primitive>
    decreases n,
{
    if n == 0 {
        seq![]
    } else {
        paths_prims(layer, paths, (n - 1) as nat, show_point) + path_prims(
            layer,
            (n - 1) as usize,
            paths[n - 1],
            show_point,
        )
    }
}

/// What the layer at position `i` contributes.
pub open spec fn layer_prims<P, W>(
    i: usize,
    entry: (LayerID, Layer<P, W>),
    vis: Map<LayerID, bool>,
    show_point: bool,
) -> Seq<Primitive> {
    if is_visible(vis, entry.0) {
        paths_prims(i, entry.1.paths@, entry.1.paths@.len(), show_point)
    } else {
        seq![]
    }
}

/// What the first `n` layers contribute.
pub open spec fn layers_prims<P, W>(
    layers: Seq<(LayerID, Layer<P, W>)>,
    n: nat,
    vis: Map<LayerID, bool>,
    show_point: bool,
) -> Seq<Primitive>
    decreases n,
{
    if n == 0 {
        seq![]
    } else {
        layers_prims(layers, (n - 1) as nat, vis, show_point) + layer_prims(
            (n - 1) as usize,
            layers[n - 1],
            vis,
            show_point,
        )
    }
}

/// The full display list of a frame: grid, page frame, then every visible
/// layer in document order.
pub open spec fn scene<P, W>(
    layers: Seq<(LayerID, Layer<P, W>)>,
    has_page: bool,
    vis: Map<LayerID, bool>,
    show_grid: bool,
    show_point: bool,
) -> Seq<Primitive> {
    (if show_grid {
        seq![Primitive::Grid]
    } else {
        seq![]
    }) + (if has_page {
        page_frame_prims()
    } else {
        seq![]
    }) + layers_prims(layers, layers.len(), vis, show_point)
}

/// Looks up a layer's visibility; a layer without an entry is visible.
/// The map is left as it is.
pub fn visibility_of(vis: &HashMap<LayerID, bool>, id: LayerID) -> (r: bool)
    ensures
        r == is_visible(vis@, id),
{
    match vis.get(&id) {
        Some(v) => *v,
        None => true,
    }
}


fn push_markers(out: &mut Vec<Primitive>, layer: usize, path: usize, color: Color, n: usize)
    ensures
        final(out)@ == old(out)@ + marker_prims(layer, path, color, n as nat),
{
    let mut k: usize = 0;
    while k < n
        invariant
            k <= n,
            out@ == old(out)@ + marker_prims(layer, path, color, k as nat),
        decreases n - k,
    {
        out.push(
            Primitive::Marker { layer, path, point: k, color, radius_scale: POINT_RADIUS_SCALE },
        );
        k = k + 1;
        assert(out@ =~= old(out)@ + marker_prims(layer, path, color, k as nat));
    }
}

fn push_path<P, W>(
    out: &mut Vec<Primitive>,
    layer: usize,
    path: usize,
    p: &Path<P, W>,
    show_point: bool,
)
    ensures
        final(out)@ == old(out)@ + path_prims(layer, path, *p, show_point),
{
    out.push(Primitive::Line { layer, path, color: p.color });
    if show_point {
        push_markers(out, layer, path, p.color, p.data.len());
    }
    assert(out@ =~= old(out)@ + path_prims(layer, path, *p, show_point));
}

fn push_layer<P, W>(out: &mut Vec<Primitive>, layer: usize, l: &Layer<P, W>, show_point: bool)
    ensures
        final(out)@ == old(out)@ + paths_prims(layer, l.paths@, l.paths@.len(), show_point),
{
    let mut j: usize = 0;
    while j < l.paths.len()
        invariant
            j <= l.paths@.len(),
            out@ == old(out)@ + paths_prims(layer, l.paths@, j as nat, show_point),
        decreases l.paths@.len() - j,
    {
        push_path(out, layer, j, &l.paths[j], show_point);
        j = j + 1;
        assert(out@ =~= old(out)@ + paths_prims(layer, l.paths@, j as nat, show_point));
    }
}

/// Builds the display list of one frame from the document, whether a page
/// size is known, the layer visibility map and the two toggles.
pub fn render_scene<P, W>(
    doc: &FlattenedDocument<P, W>,
    has_page: bool,
    visibility: &HashMap<LayerID, bool>,
    show_grid: bool,
    show_point: bool,
) -> (r: Vec<Primitive>)
    ensures
        r@ == scene(doc@, has_page, visibility@, show_grid, show_point),
{
    let mut out: Vec<Primitive> = Vec::new();
    if show_grid {
        out.push(Primitive::Grid);
    }
    if has_page {
        out.push(
            Primitive::PageRect {
                dx: SHADOW_OFFSET,
                dy: -SHADOW_OFFSET,
                color: Color { r: 180, g: 180, b: 180, a: 255 },
                fill_alpha: OPAQUE,
            },
        );
        out.push(
            Primitive::PageRect {
                dx: 0,
                dy: 0,
                color: Color { r: 255, g: 255, b: 255, a: 255 },
                fill_alpha: OPAQUE,
            },
        );
        out.push(
            Primitive::PageRect {
                dx: 0,
                dy: 0,
                color: Color { r: 128, g: 128, b: 128, a: 255 },
                fill_alpha: TRANSPARENT,
            },
        );
    }
    let ghost head = out@;
    assert(head =~= (if show_grid {
        seq![Primitive::Grid]
    } else {
        seq![]
    }) + (if has_page {
        page_frame_prims()
    } else {
        seq![]
    }));
    let n = doc.layer_count();
    let mut i: usize = 0;
    while i < n
        invariant
            n == doc@.len(),
            i <= n,
            out@ == head + layers_prims(doc@, i as nat, visibility@, show_point),
        decreases n - i,
    {
        let id = doc.layer_id(i);
        let ghost before = out@;
        if visibility_of(visibility, id) {
            push_layer(&mut out, i, doc.layer(i), show_point);
        }
        assert(out@ =~= before + layer_prims(i, doc@[i as int], visibility@, show_point));
        i = i + 1;
        assert(out@ =~= head + layers_prims(doc@, i as nat, visibility@, show_point));
    }
    out
}

} // verus!
