use std::collections::HashMap;
use vsvg::{
    layer_label, render_scene, Color, FlattenedDocument, HostAction, Layer, MenuEvent, PageSize,
    Path, Primitive, Viewer,
};

type Doc = FlattenedDocument<[f64; 2], f64>;

const RED: Color = Color { r: 255, g: 0, b: 0, a: 255 };
const BLUE: Color = Color { r: 0, g: 0, b: 255, a: 128 };

fn path(n: usize, color: Color, width: f64) -> Path<[f64; 2], f64> {
    let mut data = Vec::new();
    for i in 0..n {
        data.push([i as f64, -(i as f64)]);
    }
    Path { data, color, stroke_width: width }
}

fn one_layer_doc() -> Doc {
    let mut doc = Doc::new();
    doc.insert_layer(1, Layer { paths: vec![path(3, RED, 1.5)] });
    doc
}

fn two_layer_doc() -> Doc {
    let mut doc = Doc::new();
    doc.insert_layer(1, Layer { paths: vec![path(2, RED, 1.0)] });
    doc.insert_layer(2, Layer { paths: vec![path(4, BLUE, 0.5), path(1, BLUE, 2.0)] });
    doc
}

fn shadow() -> Primitive {
    Primitive::PageRect { dx: 10, dy: -10, color: Color { r: 180, g: 180, b: 180, a: 255 }, fill_alpha: 255 }
}

fn background() -> Primitive {
    Primitive::PageRect { dx: 0, dy: 0, color: Color { r: 255, g: 255, b: 255, a: 255 }, fill_alpha: 255 }
}

fn frame() -> Primitive {
    Primitive::PageRect { dx: 0, dy: 0, color: Color { r: 128, g: 128, b: 128, a: 255 }, fill_alpha: 0 }
}

fn count(prims: &[Primitive], pred: impl Fn(&Primitive) -> bool) -> usize {
    prims.iter().filter(|p| pred(p)).count()
}

fn is_page_rect(p: &Primitive) -> bool {
    matches!(p, Primitive::PageRect { .. })
}

fn is_marker(p: &Primitive) -> bool {
    matches!(p, Primitive::Marker { .. })
}

fn is_grid(p: &Primitive) -> bool {
    matches!(p, Primitive::Grid)
}

fn marker(layer: usize, path: usize, point: usize, color: Color) -> Primitive {
    Primitive::Marker { layer, path, point, color, radius_scale: 2 }
}

#[test]
fn one_layer_with_page_and_points() {
    let mut v = Viewer::new(one_layer_doc(), Some(PageSize { w: 100.0, h: 50.0 }));
    v.handle_menu_event(MenuEvent::ShowGrid(false));
    v.handle_menu_event(MenuEvent::ShowPoints(true));
    let prims = v.render();
    assert_eq!(
        prims,
        vec![
            shadow(),
            background(),
            frame(),
            Primitive::Line { layer: 0, path: 0, color: RED },
            marker(0, 0, 0, RED),
            marker(0, 0, 1, RED),
            marker(0, 0, 2, RED),
        ]
    );
    assert_eq!(count(&prims, is_page_rect), 3);
    assert_eq!(count(&prims, is_marker), 3);
    assert_eq!(count(&prims, is_grid), 0);
}

#[test]
fn hidden_second_layer_without_page() {
    let mut v = Viewer::new(two_layer_doc(), None);
    assert_eq!(v.handle_menu_event(MenuEvent::LayerVisible(2, false)), HostAction::Continue);
    let prims = v.render();
    assert_eq!(count(&prims, is_page_rect), 0);
    assert_eq!(prims, vec![Primitive::Line { layer: 0, path: 0, color: RED }]);
}

#[test]
fn missing_entry_means_visible() {
    let mut v = Viewer::new(two_layer_doc(), None);
    assert!(v.is_layer_visible(2));
    let before = v.render();
    assert_eq!(
        before,
        vec![
            Primitive::Line { layer: 0, path: 0, color: RED },
            Primitive::Line { layer: 1, path: 0, color: BLUE },
            Primitive::Line { layer: 1, path: 1, color: BLUE },
        ]
    );
    v.handle_menu_event(MenuEvent::LayerVisible(2, true));
    assert_eq!(v.render(), before);
}

#[test]
fn hidden_layer_draws_nothing_even_with_points() {
    let mut v = Viewer::new(two_layer_doc(), Some(PageSize { w: 1.0, h: 1.0 }));
    v.handle_menu_event(MenuEvent::ShowPoints(true));
    v.handle_menu_event(MenuEvent::LayerVisible(1, false));
    let prims = v.render();
    for p in &prims {
        match p {
            Primitive::Line { layer, .. } | Primitive::Marker { layer, .. } => assert_eq!(*layer, 1),
            _ => {}
        }
    }
    assert_eq!(count(&prims, is_marker), 5);
}

#[test]
fn grid_toggle_adds_and_removes_grid() {
    let mut v = Viewer::new(two_layer_doc(), Some(PageSize { w: 3.0, h: 4.0 }));
    let off = v.render();
    assert_eq!(count(&off, is_grid), 0);
    v.handle_menu_event(MenuEvent::ShowGrid(true));
    let on = v.render();
    assert_eq!(on[0], Primitive::Grid);
    assert_eq!(count(&on, is_grid), 1);
    assert_eq!(on[1..].to_vec(), off);
    v.handle_menu_event(MenuEvent::ShowGrid(true));
    assert_eq!(v.render(), on);
    v.handle_menu_event(MenuEvent::ShowGrid(false));
    assert_eq!(v.render(), off);
}

#[test]
fn point_toggle_round_trip() {
    let mut v = Viewer::new(two_layer_doc(), None);
    let without = v.render();
    v.handle_menu_event(MenuEvent::ShowPoints(true));
    let with = v.render();
    assert_eq!(count(&with, is_marker), 2 + 4 + 1);
    for p in &with {
        if let Primitive::Marker { radius_scale, .. } = p {
            assert_eq!(*radius_scale, 2);
        }
    }
    let kept: Vec<Primitive> = with.iter().copied().filter(|p| !is_marker(p)).collect();
    assert_eq!(kept, without);
    v.handle_menu_event(MenuEvent::ShowPoints(false));
    assert_eq!(v.render(), without);
}

#[test]
fn markers_follow_their_path() {
    let mut v = Viewer::new(two_layer_doc(), None);
    v.handle_menu_event(MenuEvent::ShowPoints(true));
    let prims = v.render();
    assert_eq!(
        prims[3..9].to_vec(),
        vec![
            Primitive::Line { layer: 1, path: 0, color: BLUE },
            marker(1, 0, 0, BLUE),
            marker(1, 0, 1, BLUE),
            marker(1, 0, 2, BLUE),
            marker(1, 0, 3, BLUE),
            Primitive::Line { layer: 1, path: 1, color: BLUE },
        ]
    );
}

#[test]
fn no_page_no_frame_whatever_the_toggles() {
    let mut v = Viewer::new(one_layer_doc(), None);
    for (g, p) in [(false, false), (true, false), (false, true), (true, true)] {
        v.handle_menu_event(MenuEvent::ShowGrid(g));
        v.handle_menu_event(MenuEvent::ShowPoints(p));
        assert_eq!(count(&v.render(), is_page_rect), 0);
    }
}

#[test]
fn page_frame_order_is_fixed() {
    let mut v = Viewer::new(two_layer_doc(), Some(PageSize { w: 210.0, h: 297.0 }));
    v.handle_menu_event(MenuEvent::ShowGrid(true));
    v.handle_menu_event(MenuEvent::ShowPoints(true));
    let prims = v.render();
    assert_eq!(prims[1..4].to_vec(), vec![shadow(), background(), frame()]);
    assert_eq!(count(&prims, is_page_rect), 3);

    let empty = Viewer::<[f64; 2], f64>::new(Doc::new(), Some(PageSize { w: 1.0, h: 2.0 }));
    assert_eq!(empty.render(), vec![shadow(), background(), frame()]);
}

#[test]
fn quit_asks_to_close() {
    let mut v = Viewer::new(one_layer_doc(), None);
    assert_eq!(v.handle_menu_event(MenuEvent::Quit), HostAction::CloseWindow);
    assert!(!v.show_grid());
    assert!(!v.show_point());
}

#[test]
fn new_viewer_hides_points_and_grid() {
    let v = Viewer::new(one_layer_doc(), Some(PageSize { w: 5.0, h: 6.0 }));
    assert!(!v.show_grid());
    assert!(!v.show_point());
    assert_eq!(v.document().layer_count(), 1);
    let p = v.page_size().as_ref().unwrap();
    assert_eq!((p.w, p.h), (5.0, 6.0));
}

#[test]
fn layer_menu_creates_default_entries() {
    let mut v = Viewer::new(two_layer_doc(), None);
    v.handle_menu_event(MenuEvent::LayerVisible(1, false));
    assert_eq!(v.layer_menu(), vec![(1, false), (2, true)]);
    assert!(v.is_layer_visible(2));
    assert!(!v.is_layer_visible(1));
    assert_eq!(v.layer_menu(), vec![(1, false), (2, true)]);
}

#[test]
fn visibility_entry_inserts_visible() {
    let mut v = Viewer::new(two_layer_doc(), None);
    assert!(v.visibility_entry(7));
    v.handle_menu_event(MenuEvent::LayerVisible(7, false));
    assert!(!v.visibility_entry(7));
}

#[test]
fn insert_layer_keeps_first_position() {
    let mut doc = two_layer_doc();
    doc.insert_layer(1, Layer { paths: vec![] });
    assert_eq!(doc.layer_count(), 2);
    assert_eq!(doc.layer_id(0), 1);
    assert_eq!(doc.layer(0).paths.len(), 0);
    assert_eq!(doc.find(2), Some(1));
    assert_eq!(doc.find(3), None);
    doc.insert_layer(3, Layer { paths: vec![] });
    assert_eq!(doc.layer_id(2), 3);
}

#[test]
fn labels_are_decimal() {
    assert_eq!(layer_label(0), "Layer 0");
    assert_eq!(layer_label(7), "Layer 7");
    assert_eq!(layer_label(10), "Layer 10");
    assert_eq!(layer_label(1234), "Layer 1234");
    assert_eq!(layer_label(usize::MAX), format!("Layer {}", usize::MAX));
}

#[test]
fn render_scene_without_viewer() {
    let doc = one_layer_doc();
    let mut vis = HashMap::new();
    vis.insert(1, false);
    assert_eq!(render_scene(&doc, true, &vis, true, true), vec![Primitive::Grid, shadow(), background(), frame()]);
}
