use crate::document::{Layer, LayerID, Path};
use crate::viewer::{after_event, frame_of, MenuEvent, ViewerState};
use crate::render::{
    background_rect, frame_rect, is_visible, layer_prims, layers_prims, marker_prims,
    page_frame_prims, path_prims, paths_prims, scene, shadow_rect, Primitive, POINT_RADIUS_SCALE,
};
use vstd::prelude::*;

verus! {

/// `prim` draws a path of a visible layer of `layers` (its polyline, or a
/// marker at one of its points, of the path's colour and of the fixed radius
/// scale).
pub open spec fn draws_visible_path<P, W>(
    prim: Primitive,
    layers: Seq<(LayerID, Layer<P, W>)>,
    vis: Map<LayerID, bool>,
) -> bool {
    match prim {
        Primitive::Line { layer, path, color } => {
            &&& layer < layers.len()
            &&& is_visible(vis, layers[layer as int].0)
            &&& path < layers[layer as int].1.paths@.len()
            &&& color == layers[layer as int].1.paths@[path as int].color
        },
        Primitive::Marker { layer, path, point, color, radius_scale } => {
            &&& layer < layers.len()
            &&& is_visible(vis, layers[layer as int].0)
            &&& path < layers[layer as int].1.paths@.len()
            &&& color == layers[layer as int].1.paths@[path as int].color
            &&& point < layers[layer as int].1.paths@[path as int].data@.len()
            &&& radius_scale == POINT_RADIUS_SCALE
        },
        _ => false,
    }
}

/// Every position in `layers` (of a layer, of a path in a layer, of a point
/// in a path) can be held in a `usize`.
pub open spec fn positions_fit<P, W>(layers: Seq<(LayerID, Layer<P, W>)>) -> bool {
    &&& layers.len() <= usize::MAX
    &&& forall|i: int| 0 <= i < layers.len() ==> #[trigger] layers[i].1.paths@.len() <= usize::MAX
    &&& forall|i: int, j: int|
        0 <= i < layers.len() && 0 <= j < layers[i].1.paths@.len()
            ==> #[trigger] layers[i].1.paths@[j].data@.len() <= usize::MAX
}

/// The layer position that a path primitive refers to.
pub open spec fn layer_of(prim: Primitive) -> Option<usize> {
    match prim {
        Primitive::Line { layer, .. } => Some(layer),
        Primitive::Marker { layer, .. } => Some(layer),
        _ => None,
    }
}

proof fn lemma_markers_wf<P, W>(
    layers: Seq<(LayerID, Layer<P, W>)>,
    vis: Map<LayerID, bool>,
    i: usize,
    j: usize,
    n: nat,
)
    requires
        positions_fit(layers),
        i < layers.len(),
        is_visible(vis, layers[i as int].0),
        j < layers[i as int].1.paths@.len(),
        n <= layers[i as int].1.paths@[j as int].data@.len(),
    ensures
        forall|k: int|
            0 <= k < marker_prims(i, j, layers[i as int].1.paths@[j as int].color, n).len() ==> {
                let m = #[trigger] marker_prims(i, j, layers[i as int].1.paths@[j as int].color, n)[k];
                &&& m is Marker
                &&& draws_visible_path(m, layers, vis)
                &&& layer_of(m) == Some(i)
            },
    decreases n,
{
    if n > 0 {
        lemma_markers_wf(layers, vis, i, j, (n - 1) as nat);
    }
}

proof fn lemma_paths_wf<P, W>(
    layers: Seq<(LayerID, Layer<P, W>)>,
    vis: Map<LayerID, bool>,
    i: usize,
    n: nat,
    show_point: bool,
)
    requires
        positions_fit(layers),
        i < layers.len(),
        is_visible(vis, layers[i as int].0),
        n <= layers[i as int].1.paths@.len(),
    ensures
        forall|k: int|
            0 <= k < paths_prims(i, layers[i as int].1.paths@, n, show_point).len() ==> {
                let m = #[trigger] paths_prims(i, layers[i as int].1.paths@, n, show_point)[k];
                &&& draws_visible_path(m, layers, vis)
                &&& layer_of(m) == Some(i)
                &&& (m is Marker ==> show_point)
            },
    decreases n,
{
    if n > 0 {
        let paths = layers[i as int].1.paths@;
        let j = (n - 1) as usize;
        lemma_paths_wf(layers, vis, i, (n - 1) as nat, show_point);
        lemma_markers_wf(layers, vis, i, j, paths[j as int].data@.len());
        let a = paths_prims(i, paths, (n - 1) as nat, show_point);
        let b = path_prims(i, j, paths[j as int], show_point);
        assert forall|k: int| 0 <= k < b.len() implies {
            let m = #[trigger] b[k];
            &&& draws_visible_path(m, layers, vis)
            &&& layer_of(m) == Some(i)
            &&& (m is Marker ==> show_point)
        } by {
            if k > 0 {
                assert(b[k] == marker_prims(i, j, paths[j as int].color, paths[j as int].data@.len())[k - 1]);
            }
        }
        assert forall|k: int| 0 <= k < (a + b).len() implies {
            let m = #[trigger] (a + b)[k];
            &&& draws_visible_path(m, layers, vis)
            &&& layer_of(m) == Some(i)
            &&& (m is Marker ==> show_point)
        } by {
            if k >= a.len() {
                assert((a + b)[k] == b[k - a.len()]);
            }
        }
    }
}

/// Every entry that the first `n` layers contribute draws a path of a
/// visible layer among those `n`.
pub proof fn lemma_layers_wf<P, W>(
    layers: Seq<(LayerID, Layer<P, W>)>,
    n: nat,
    vis: Map<LayerID, bool>,
    show_point: bool,
)
    requires
        positions_fit(layers),
        n <= layers.len(),
    ensures
        forall|k: int|
            0 <= k < layers_prims(layers, n, vis, show_point).len() ==> {
                let m = #[trigger] layers_prims(layers, n, vis, show_point)[k];
                &&& draws_visible_path(m, layers, vis)
                &&& layer_of(m) matches Some(l) && l < n
                &&& (m is Marker ==> show_point)
            },
    decreases n,
{
    if n > 0 {
        let i = (n - 1) as usize;
        lemma_layers_wf(layers, (n - 1) as nat, vis, show_point);
        let a = layers_prims(layers, (n - 1) as nat, vis, show_point);
        let b = layer_prims(i, layers[i as int], vis, show_point);
        if is_visible(vis, layers[i as int].0) {
            lemma_paths_wf(layers, vis, i, layers[i as int].1.paths@.len(), show_point);
        }
        assert forall|k: int| 0 <= k < (a + b).len() implies {
            let m = #[trigger] (a + b)[k];
            &&& draws_visible_path(m, layers, vis)
            &&& layer_of(m) matches Some(l) && l < n
            &&& (m is Marker ==> show_point)
        } by {
            if k >= a.len() {
                assert((a + b)[k] == b[k - a.len()]);
            }
        }
    }
}

/// `s` without its point markers.
pub open spec fn without_markers(s: Seq<Primitive>) -> Seq<Primitive> {
    s.filter(|m: Primitive| !(m is Marker))
}

/// The point markers of `s`.
pub open spec fn markers_in(s: Seq<Primitive>) -> Seq<Primitive> {
    s.filter(|m: Primitive| m is Marker)
}

/// Number of points in the first `n` paths of `paths`.
pub open spec fn points_in_paths<P, W>(paths: Seq<Path<P, W>>, n: nat) -> nat
    decreases n,
{
    if n == 0 {
        0
    } else {
        points_in_paths(paths, (n - 1) as nat) + paths[n - 1].data@.len()
    }
}

/// Number of points in the visible layers among the first `n` of `layers`.
pub open spec fn visible_points<P, W>(
    layers: Seq<(LayerID, Layer<P, W>)>,
    n: nat,
    vis: Map<LayerID, bool>,
) -> nat
    decreases n,
{
    if n == 0 {
        0
    } else {
        visible_points(layers, (n - 1) as nat, vis) + if is_visible(vis, layers[n - 1].0) {
            points_in_paths(layers[n - 1].1.paths@, layers[n - 1].1.paths@.len())
        } else {
            0
        }
    }
}

/// One marker for each point of the first `n` paths of layer position
/// `layer`, path by path and point by point.
pub open spec fn path_markers<P, W>(layer: usize, paths: Seq<Path<P, W>>, n: nat) -> Seq<
    Primitive,
>
    decreases n,
{
    if n == 0 {
        seq![]
    } else {
        path_markers(layer, paths, (n - 1) as nat) + marker_prims(
            layer,
            (n - 1) as usize,
            paths[n - 1].color,
            paths[n - 1].data@.len(),
        )
    }
}

/// One marker for each point of the visible layers among the first `n`, in
/// document order.
pub open spec fn visible_markers<P, W>(
    layers: Seq<(LayerID, Layer<P, W>)>,
    n: nat,
    vis: Map<LayerID, bool>,
) -> Seq<Primitive>
    decreases n,
{
    if n == 0 {
        seq![]
    } else {
        visible_markers(layers, (n - 1) as nat, vis) + if is_visible(vis, layers[n - 1].0) {
            path_markers((n - 1) as usize, layers[n - 1].1.paths@, layers[n - 1].1.paths@.len())
        } else {
            seq![]
        }
    }
}

proof fn lemma_filter_add(a: Seq<Primitive>, b: Seq<Primitive>)
    ensures
        without_markers(a + b) == without_markers(a) + without_markers(b),
        markers_in(a + b) == markers_in(a) + markers_in(b),
{
    Seq::filter_distributes_over_add(a, b, |m: Primitive| !(m is Marker));
    Seq::filter_distributes_over_add(a, b, |m: Primitive| m is Marker);
}

proof fn lemma_filter_single(x: Primitive)
    ensures
        without_markers(seq![x]) == (if x is Marker {
            Seq::<Primitive>::empty()
        } else {
            seq![x]
        }),
        markers_in(seq![x]) == (if x is Marker {
            seq![x]
        } else {
            Seq::<Primitive>::empty()
        }),
{
    reveal_with_fuel(Seq::filter, 2);
    assert(seq![x].drop_last() =~= Seq::<Primitive>::empty());
    assert(without_markers(seq![x]) =~= (if x is Marker {
        Seq::<Primitive>::empty()
    } else {
        seq![x]
    }));
    assert(markers_in(seq![x]) =~= (if x is Marker {
        seq![x]
    } else {
        Seq::<Primitive>::empty()
    }));
}

proof fn lemma_filter_empty()
    ensures
        without_markers(Seq::<Primitive>::empty()) == Seq::<Primitive>::empty(),
        markers_in(Seq::<Primitive>::empty()) == Seq::<Primitive>::empty(),
{
    reveal(Seq::filter);
}

proof fn lemma_no_markers(s: Seq<Primitive>)
    requires
        forall|k: int| 0 <= k < s.len() ==> !(#[trigger] s[k] is Marker),
    ensures
        without_markers(s) == s,
        markers_in(s) == Seq::<Primitive>::empty(),
    decreases s.len(),
{
    reveal(Seq::filter);
    if s.len() > 0 {
        lemma_no_markers(s.drop_last());
        assert(s.drop_last().push(s.last()) =~= s);
    }
}

proof fn lemma_marker_filters(layer: usize, path: usize, color: crate::document::Color, n: nat)
    ensures
        without_markers(marker_prims(layer, path, color, n)) == Seq::<Primitive>::empty(),
        markers_in(marker_prims(layer, path, color, n)) == marker_prims(layer, path, color, n),
        marker_prims(layer, path, color, n).len() == n,
    decreases n,
{
    if n > 0 {
        let a = marker_prims(layer, path, color, (n - 1) as nat);
        let x = Primitive::Marker {
            layer,
            path,
            point: (n - 1) as usize,
            color,
            radius_scale: POINT_RADIUS_SCALE,
        };
        lemma_marker_filters(layer, path, color, (n - 1) as nat);
        lemma_filter_add(a, seq![x]);
        assert(a.push(x) == a + seq![x]);
        lemma_filter_single(x);
    } else {
        lemma_filter_empty();
    }
}

proof fn lemma_path_filters<P, W>(layer: usize, path: usize, p: Path<P, W>)
    ensures
        without_markers(path_prims(layer, path, p, true)) == path_prims(layer, path, p, false),
        markers_in(path_prims(layer, path, p, true)) == marker_prims(
            layer,
            path,
            p.color,
            p.data@.len(),
        ),
        marker_prims(layer, path, p.color, p.data@.len()).len() == p.data@.len(),
{
    let l = seq![Primitive::Line { layer, path, color: p.color }];
    let ms = marker_prims(layer, path, p.color, p.data@.len());
    lemma_marker_filters(layer, path, p.color, p.data@.len());
    lemma_filter_add(l, ms);
    lemma_filter_single(Primitive::Line { layer, path, color: p.color });
    assert(path_prims(layer, path, p, false) =~= l);
}

proof fn lemma_paths_filters<P, W>(layer: usize, paths: Seq<Path<P, W>>, n: nat)
    requires
        n <= paths.len(),
    ensures
        without_markers(paths_prims(layer, paths, n, true)) == paths_prims(layer, paths, n, false),
        markers_in(paths_prims(layer, paths, n, true)) == path_markers(layer, paths, n),
        path_markers(layer, paths, n).len() == points_in_paths(paths, n),
    decreases n,
{
    if n == 0 {
        lemma_filter_empty();
    } else {
        let j = (n - 1) as usize;
        let a = paths_prims(layer, paths, (n - 1) as nat, true);
        let b = path_prims(layer, j, paths[n - 1], true);
        lemma_paths_filters(layer, paths, (n - 1) as nat);
        lemma_path_filters(layer, j, paths[n - 1]);
        lemma_filter_add(a, b);
        assert(paths_prims(layer, paths, n, true) == a + b);
        assert(paths_prims(layer, paths, n, false) == paths_prims(
            layer,
            paths,
            (n - 1) as nat,
            false,
        ) + path_prims(layer, j, paths[n - 1], false));
        assert(path_markers(layer, paths, n) == path_markers(layer, paths, (n - 1) as nat)
            + marker_prims(layer, j, paths[n - 1].color, paths[n - 1].data@.len()));
    }
}

proof fn lemma_layers_filters<P, W>(
    layers: Seq<(LayerID, Layer<P, W>)>,
    n: nat,
    vis: Map<LayerID, bool>,
)
    requires
        n <= layers.len(),
    ensures
        without_markers(layers_prims(layers, n, vis, true)) == layers_prims(layers, n, vis, false),
        markers_in(layers_prims(layers, n, vis, true)) == visible_markers(layers, n, vis),
        visible_markers(layers, n, vis).len() == visible_points(layers, n, vis),
    decreases n,
{
    if n == 0 {
        lemma_filter_empty();
    } else {
        let i = (n - 1) as usize;
        lemma_layers_filters(layers, (n - 1) as nat, vis);
        let paths = layers[n - 1].1.paths@;
        lemma_paths_filters(i, paths, paths.len());
        lemma_filter_empty();
        lemma_filter_add(
            layers_prims(layers, (n - 1) as nat, vis, true),
            layer_prims(i, layers[n - 1], vis, true),
        );
    }
}

proof fn lemma_same_visibility<P, W>(
    layers: Seq<(LayerID, Layer<P, W>)>,
    n: nat,
    v1: Map<LayerID, bool>,
    v2: Map<LayerID, bool>,
    show_point: bool,
)
    requires
        n <= layers.len(),
        forall|k: LayerID| is_visible(v1, k) == is_visible(v2, k),
    ensures
        layers_prims(layers, n, v1, show_point) == layers_prims(layers, n, v2, show_point),
    decreases n,
{
    if n > 0 {
        lemma_same_visibility(layers, (n - 1) as nat, v1, v2, show_point);
        assert(is_visible(v1, layers[n - 1].0) == is_visible(v2, layers[n - 1].0));
    }
}

/// A layer without a visibility entry is drawn exactly as if it had been
/// marked visible.
pub proof fn law_missing_entry_is_visible<P, W>(
    layers: Seq<(LayerID, Layer<P, W>)>,
    has_page: bool,
    vis: Map<LayerID, bool>,
    id: LayerID,
    show_grid: bool,
    show_point: bool,
)
    requires
        !vis.contains_key(id),
    ensures
        scene(layers, has_page, vis, show_grid, show_point) == scene(
            layers,
            has_page,
            vis.insert(id, true),
            show_grid,
            show_point,
        ),
{
    lemma_same_visibility(layers, layers.len(), vis, vis.insert(id, true), show_point);
}

/// The entries before the layers' contribution: grid, then page frame.
pub open spec fn head_prims(has_page: bool, show_grid: bool) -> Seq<Primitive> {
    (if show_grid {
        seq![Primitive::Grid]
    } else {
        seq![]
    }) + (if has_page {
        page_frame_prims()
    } else {
        seq![]
    })
}

proof fn lemma_scene_split<P, W>(
    layers: Seq<(LayerID, Layer<P, W>)>,
    has_page: bool,
    vis: Map<LayerID, bool>,
    show_grid: bool,
    show_point: bool,
)
    requires
        positions_fit(layers),
    ensures
        scene(layers, has_page, vis, show_grid, show_point) == head_prims(has_page, show_grid)
            + layers_prims(layers, layers.len(), vis, show_point),
        forall|k: int|
            0 <= k < head_prims(has_page, show_grid).len() ==> {
                let m = #[trigger] head_prims(has_page, show_grid)[k];
                &&& layer_of(m) is None
                &&& !(m is Marker)
                &&& (m is Grid ==> show_grid)
                &&& (m is PageRect ==> has_page)
            },
        forall|k: int|
            0 <= k < layers_prims(layers, layers.len(), vis, show_point).len() ==> {
                let m = #[trigger] layers_prims(layers, layers.len(), vis, show_point)[k];
                &&& draws_visible_path(m, layers, vis)
                &&& layer_of(m) is Some
                &&& (m is Marker ==> show_point)
            },
{
    lemma_layers_wf(layers, layers.len(), vis, show_point);
    let g: Seq<Primitive> = if show_grid {
        seq![Primitive::Grid]
    } else {
        seq![]
    };
    let f: Seq<Primitive> = if has_page {
        page_frame_prims()
    } else {
        seq![]
    };
    assert forall|k: int| 0 <= k < (g + f).len() implies {
        let m = #[trigger] (g + f)[k];
        &&& layer_of(m) is None
        &&& !(m is Marker)
        &&& (m is Grid ==> show_grid)
        &&& (m is PageRect ==> has_page)
    } by {
        if k >= g.len() {
            assert((g + f)[k] == f[k - g.len()]);
            assert(f[0] == shadow_rect());
            assert(f[1] == background_rect());
            assert(f[2] == frame_rect());
        } else {
            assert((g + f)[k] == g[k]);
        }
    }
}

/// No entry of the frame draws a layer whose visibility is set to false.
pub proof fn law_hidden_layer_not_drawn<P, W>(
    layers: Seq<(LayerID, Layer<P, W>)>,
    has_page: bool,
    vis: Map<LayerID, bool>,
    show_grid: bool,
    show_point: bool,
    i: usize,
)
    requires
        positions_fit(layers),
        i < layers.len(),
        vis.contains_key(layers[i as int].0),
        !vis[layers[i as int].0],
    ensures
        forall|k: int|
            0 <= k < scene(layers, has_page, vis, show_grid, show_point).len() ==> layer_of(
                #[trigger] scene(layers, has_page, vis, show_grid, show_point)[k],
            ) != Some(i),
{
    lemma_scene_split(layers, has_page, vis, show_grid, show_point);
    let h = head_prims(has_page, show_grid);
    let l = layers_prims(layers, layers.len(), vis, show_point);
    assert forall|k: int| 0 <= k < (h + l).len() implies layer_of(#[trigger] (h + l)[k]) != Some(
        i,
    ) by {
        if k >= h.len() {
            assert((h + l)[k] == l[k - h.len()]);
        }
    }
}

/// Turning the grid on adds one grid entry in front of the frame and
/// changes nothing else; with the grid off the frame holds no grid entry.
pub proof fn law_grid_toggle<P, W>(
    layers: Seq<(LayerID, Layer<P, W>)>,
    has_page: bool,
    vis: Map<LayerID, bool>,
    show_point: bool,
)
    requires
        positions_fit(layers),
    ensures
        scene(layers, has_page, vis, true, show_point) == seq![Primitive::Grid] + scene(
            layers,
            has_page,
            vis,
            false,
            show_point,
        ),
        forall|k: int|
            0 <= k < scene(layers, has_page, vis, false, show_point).len() ==> !(
            #[trigger] scene(layers, has_page, vis, false, show_point)[k] is Grid),
{
    lemma_scene_split(layers, has_page, vis, false, show_point);
    let h = head_prims(has_page, false);
    let l = layers_prims(layers, layers.len(), vis, show_point);
    assert forall|k: int| 0 <= k < (h + l).len() implies !(#[trigger] (h + l)[k] is Grid) by {
        if k >= h.len() {
            assert((h + l)[k] == l[k - h.len()]);
        }
    }
    assert(scene(layers, has_page, vis, true, show_point) =~= seq![Primitive::Grid] + scene(
        layers,
        has_page,
        vis,
        false,
        show_point,
    ));
}

/// Showing points adds exactly one marker per point of every visible path,
/// each of its path's colour and of the fixed radius scale, and leaves the
/// other entries, and their order, as they were without points.
pub proof fn law_point_markers<P, W>(
    layers: Seq<(LayerID, Layer<P, W>)>,
    has_page: bool,
    vis: Map<LayerID, bool>,
    show_grid: bool,
)
    requires
        positions_fit(layers),
    ensures
        without_markers(scene(layers, has_page, vis, show_grid, true)) == scene(
            layers,
            has_page,
            vis,
            show_grid,
            false,
        ),
        markers_in(scene(layers, has_page, vis, show_grid, true)) == visible_markers(
            layers,
            layers.len(),
            vis,
        ),
        visible_markers(layers, layers.len(), vis).len() == visible_points(
            layers,
            layers.len(),
            vis,
        ),
        forall|k: int|
            0 <= k < scene(layers, has_page, vis, show_grid, true).len() && (#[trigger] scene(
                layers,
                has_page,
                vis,
                show_grid,
                true,
            )[k] is Marker) ==> draws_visible_path(
                scene(layers, has_page, vis, show_grid, true)[k],
                layers,
                vis,
            ),
        forall|k: int|
            0 <= k < scene(layers, has_page, vis, show_grid, false).len() ==> !(
            #[trigger] scene(layers, has_page, vis, show_grid, false)[k] is Marker),
{
    lemma_scene_split(layers, has_page, vis, show_grid, true);
    lemma_scene_split(layers, has_page, vis, show_grid, false);
    lemma_layers_filters(layers, layers.len(), vis);
    lemma_markers_after_head(
        head_prims(has_page, show_grid),
        layers_prims(layers, layers.len(), vis, true),
        layers_prims(layers, layers.len(), vis, false),
        layers,
        vis,
    );
}

proof fn lemma_markers_after_head<P, W>(
    h: Seq<Primitive>,
    lt: Seq<Primitive>,
    lf: Seq<Primitive>,
    layers: Seq<(LayerID, Layer<P, W>)>,
    vis: Map<LayerID, bool>,
)
    requires
        forall|k: int| 0 <= k < h.len() ==> !(#[trigger] h[k] is Marker),
        forall|k: int| 0 <= k < lt.len() ==> draws_visible_path(#[trigger] lt[k], layers, vis),
        forall|k: int| 0 <= k < lf.len() ==> !(#[trigger] lf[k] is Marker),
        without_markers(lt) == lf,
    ensures
        without_markers(h + lt) == h + lf,
        markers_in(h + lt) == markers_in(lt),
        forall|k: int|
            0 <= k < (h + lt).len() && (#[trigger] (h + lt)[k] is Marker) ==> draws_visible_path(
                (h + lt)[k],
                layers,
                vis,
            ),
        forall|k: int| 0 <= k < (h + lf).len() ==> !(#[trigger] (h + lf)[k] is Marker),
{
    lemma_filter_add(h, lt);
    lemma_no_markers(h);
    assert forall|k: int|
        0 <= k < (h + lt).len() && (#[trigger] (h + lt)[k] is Marker) implies draws_visible_path(
        (h + lt)[k],
        layers,
        vis,
    ) by {
        if k >= h.len() {
            assert((h + lt)[k] == lt[k - h.len()]);
        }
    }
    assert forall|k: int| 0 <= k < (h + lf).len() implies !(#[trigger] (h + lf)[k] is Marker) by {
        if k >= h.len() {
            assert((h + lf)[k] == lf[k - h.len()]);
        } else {
            assert((h + lf)[k] == h[k]);
        }
    }
}

/// Without a page size the frame holds no page rectangle.
pub proof fn law_no_page_no_frame<P, W>(
    layers: Seq<(LayerID, Layer<P, W>)>,
    vis: Map<LayerID, bool>,
    show_grid: bool,
    show_point: bool,
)
    requires
        positions_fit(layers),
    ensures
        forall|k: int|
            0 <= k < scene(layers, false, vis, show_grid, show_point).len() ==> !(
            #[trigger] scene(layers, false, vis, show_grid, show_point)[k] is PageRect),
{
    lemma_scene_split(layers, false, vis, show_grid, show_point);
    let h = head_prims(false, show_grid);
    let l = layers_prims(layers, layers.len(), vis, show_point);
    assert forall|k: int| 0 <= k < (h + l).len() implies !(#[trigger] (h + l)[k] is PageRect) by {
        if k >= h.len() {
            assert((h + l)[k] == l[k - h.len()]);
        } else {
            assert((h + l)[k] == h[k]);
        }
    }
}

/// With a page size the frame holds exactly three page rectangles, right
/// after the grid entry if there is one: shadow, background, frame.
pub proof fn law_page_frame<P, W>(
    layers: Seq<(LayerID, Layer<P, W>)>,
    vis: Map<LayerID, bool>,
    show_grid: bool,
    show_point: bool,
)
    requires
        positions_fit(layers),
    ensures
        scene(layers, true, vis, show_grid, show_point).subrange(
            if show_grid { 1 } else { 0 },
            if show_grid { 4 } else { 3 },
        ) == seq![shadow_rect(), background_rect(), frame_rect()],
        forall|k: int|
            0 <= k < scene(layers, true, vis, show_grid, show_point).len() && (k < (if show_grid {
                1int
            } else {
                0int
            }) || k >= (if show_grid {
                4int
            } else {
                3int
            })) ==> !(#[trigger] scene(layers, true, vis, show_grid, show_point)[k] is PageRect),
{
    lemma_scene_split(layers, true, vis, show_grid, show_point);
    let h = head_prims(true, show_grid);
    let l = layers_prims(layers, layers.len(), vis, show_point);
    let g: int = if show_grid { 1 } else { 0 };
    assert(h.len() == g + 3);
    assert((h + l).subrange(g, g + 3) =~= seq![shadow_rect(), background_rect(), frame_rect()]);
    assert forall|k: int|
        0 <= k < (h + l).len() && (k < g || k >= g + 3) implies !(
        #[trigger] (h + l)[k] is PageRect) by {
        if k >= h.len() {
            assert((h + l)[k] == l[k - h.len()]);
        } else {
            assert((h + l)[k] == h[k]);
        }
    }
}

/// A menu event applied twice leaves the viewer as applying it once does.
pub proof fn law_repeated_event<P, W>(s: ViewerState<P, W>, e: MenuEvent)
    ensures
        after_event(after_event(s, e), e) == after_event(s, e),
{
    if let MenuEvent::LayerVisible(id, b) = e {
        assert(s.visibility.insert(id, b).insert(id, b) =~= s.visibility.insert(id, b));
    }
}

/// Showing points and hiding them again gives back the frame from before.
pub proof fn law_points_round_trip<P, W>(s: ViewerState<P, W>)
    requires
        !s.show_point,
    ensures
        frame_of(after_event(after_event(s, MenuEvent::ShowPoints(true)), MenuEvent::ShowPoints(false)))
            == frame_of(s),
{
    assert(after_event(after_event(s, MenuEvent::ShowPoints(true)), MenuEvent::ShowPoints(false))
        == s);
}

} // verus!
