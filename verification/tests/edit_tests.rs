use mcad_app::layers::{
    default_extra_layers, entities_in_draw_order, fresh_document, layer_command, layer_named,
    linetype_label, move_to_layer, resolve_tool_layer, restyle_linetype, restyle_width,
    style_summary, DrawCandidate, Layer, LayerCommand, LayerEntry, LayerEvent, Linetype, Rgb,
    Style, StyledEntity,
};
use mcad_app::overlay::{selection_overlay, OverlayExtra};
use mcad_app::select::{
    dim_label_hit, select_canvas_key_shortcuts_enabled, LabelCandidate, ModeInput, PlacementKind,
    PlacementOutcome, PointerEvent, SelectFrame, SelectKeys, SelectMode, SelectStep, SelectTool,
};
use mcad_app::sheet::{
    Orientation, PaperSize, Scale, SheetMeta, TitleBlockFields, TitleBlockKind, Unit,
};
use mcad_app::stacking::{
    back_order_plan, bring_to_front_order, front_order_plan, send_to_back_order, sort_by_order,
};
use mcad_app::tools::{
    apply_snap, pick_missed, resolve_click_point, tool_for_keys, tool_frame, ClickUse, Editing,
    MarkerSource, ToolInput, ToolKeys, ToolKind, ToolOutcome,
};

fn white() -> Rgb {
    Rgb {
        r: 255,
        g: 255,
        b: 255,
    }
}

fn plain(name: &str, order: i32) -> Layer {
    Layer {
        name: name.to_owned(),
        color: white(),
        visible: true,
        locked: false,
        linetype: Linetype::Continuous,
        width_um: 350,
        order,
    }
}

fn entry(id: u64, name: &str, order: i32) -> LayerEntry {
    LayerEntry {
        id,
        layer: plain(name, order),
    }
}

/// The layers of a new drawing: layer 0 and the default ones.
fn new_drawing_layers() -> Vec<LayerEntry> {
    let mut layers = vec![entry(0, "0", 0)];
    for (i, layer) in default_extra_layers().into_iter().enumerate() {
        layers.push(LayerEntry {
            id: i as u64 + 1,
            layer,
        });
    }
    layers
}

#[test]
fn fresh_document_has_default_layer_set_in_order_with_clean_history() {
    let fresh = fresh_document(SheetMeta::default());
    let expected = [
        ("中心線", Rgb { r: 230, g: 80, b: 80 }, Linetype::DashDot, 130),
        ("破線", Rgb { r: 80, g: 200, b: 120 }, Linetype::Dashed, 350),
        ("外形線", Rgb { r: 90, g: 140, b: 255 }, Linetype::Continuous, 350),
        ("寸法線", Rgb { r: 200, g: 90, b: 220 }, Linetype::Continuous, 180),
        ("文字", Rgb { r: 230, g: 200, b: 60 }, Linetype::Continuous, 180),
    ];
    assert_eq!(fresh.layers.len(), expected.len());
    for (i, (layer, (name, color, linetype, width_um))) in
        fresh.layers.iter().zip(expected).enumerate()
    {
        assert_eq!(layer.name, name);
        assert_eq!(layer.color, color);
        assert_eq!(layer.linetype, linetype);
        assert_eq!(layer.width_um, width_um);
        assert_eq!(layer.order, i as i32 + 1);
        assert!(layer.visible && !layer.locked);
    }
    assert_eq!(fresh.layers[fresh.current].name, "外形線");
}

#[test]
fn fresh_document_applies_non_default_sheet_meta_without_leaving_undo_history() {
    let sheet = SheetMeta {
        unit: Unit::Millimeter,
        scale: Scale { num: 1, den: 2 },
        paper: PaperSize::A2,
        orientation: Orientation::Portrait,
        title_block: TitleBlockKind::C,
        fields: TitleBlockFields::default(),
        frame_visible: false,
    };
    let fresh = fresh_document(sheet);
    assert_eq!(fresh.sheet.scale, Scale { num: 1, den: 2 });
    assert_eq!(fresh.sheet.paper, PaperSize::A2);
    assert_eq!(fresh.sheet.orientation, Orientation::Portrait);
    assert!(matches!(fresh.sheet.title_block, TitleBlockKind::C));
    assert!(!fresh.sheet.frame_visible);
}

#[test]
fn layer_named_finds_exact_match_and_returns_none_otherwise() {
    let layers = new_drawing_layers();
    assert_eq!(layer_named(&layers, "寸法線"), Some(4));
    assert_eq!(layer_named(&layers, "文字"), Some(5));
    assert_eq!(layer_named(&layers, "存在しないレイヤー"), None);
    assert_eq!(layer_named(&layers, "寸法"), None);
}

#[test]
fn layer_named_takes_the_first_of_equal_names() {
    let layers = vec![entry(7, "a", 0), entry(8, "b", 0), entry(9, "b", 0)];
    assert_eq!(layer_named(&layers, "b"), Some(8));
}

#[test]
fn resolve_tool_layer_falls_back_to_current_layer_when_named_layer_is_absent() {
    let layers = vec![entry(0, "0", 0)];
    for kind in [
        ToolKind::DimLinear,
        ToolKind::DimRadial,
        ToolKind::DimDiameter,
        ToolKind::Text,
        ToolKind::Line,
    ] {
        assert_eq!(resolve_tool_layer(&layers, 0, kind), 0);
    }
}

#[test]
fn resolve_tool_layer_uses_named_layer_when_present_in_fresh_document() {
    let layers = new_drawing_layers();
    let current = 3;
    let dim_layer = layer_named(&layers, "寸法線").unwrap();
    for kind in [
        ToolKind::DimLinear,
        ToolKind::DimRadial,
        ToolKind::DimDiameter,
    ] {
        assert_eq!(resolve_tool_layer(&layers, current, kind), dim_layer);
    }
    let text_layer = layer_named(&layers, "文字").unwrap();
    assert_eq!(
        resolve_tool_layer(&layers, current, ToolKind::Text),
        text_layer
    );
    assert_eq!(
        resolve_tool_layer(&layers, current, ToolKind::Line),
        current
    );
}

#[test]
fn commit_text_assigns_new_entity_to_text_layer_when_present() {
    let layers = new_drawing_layers();
    let current = layer_named(&layers, "外形線").unwrap();
    let text_layer = layer_named(&layers, "文字").unwrap();
    let assigned = resolve_tool_layer(&layers, current, ToolKind::Text);
    assert_eq!(assigned, text_layer);
    assert_ne!(assigned, current);
}

#[test]
fn bring_to_front_order_picks_max_plus_one_and_is_noop_at_the_front() {
    assert_eq!(bring_to_front_order(0, &vec![1, 5, 3]), 6);
    assert_eq!(bring_to_front_order(-10, &vec![-4, 40]), 41);
    assert_eq!(bring_to_front_order(7, &vec![1, 5]), 7);
    assert_eq!(bring_to_front_order(3, &vec![]), 3);
    assert_eq!(bring_to_front_order(0, &vec![i32::MAX]), i32::MAX);
    assert_eq!(bring_to_front_order(i32::MAX, &vec![i32::MAX]), i32::MAX);
}

#[test]
fn send_to_back_order_picks_min_minus_one_and_is_noop_at_the_back() {
    assert_eq!(send_to_back_order(4, &vec![1, 5, 3]), 0);
    assert_eq!(send_to_back_order(40, &vec![-4, 10]), -5);
    assert_eq!(send_to_back_order(-2, &vec![1, 5]), -2);
    assert_eq!(send_to_back_order(3, &vec![]), 3);
    assert_eq!(send_to_back_order(0, &vec![i32::MIN]), i32::MIN);
    assert_eq!(send_to_back_order(i32::MIN, &vec![i32::MIN]), i32::MIN);
}

fn resolved(layers: &[(u64, i32)], plan: &[(u64, i32)], id: u64) -> i32 {
    let of = |items: &[(u64, i32)]| items.iter().find(|(i, _)| *i == id).map(|(_, o)| *o);
    of(plan).or_else(|| of(layers)).unwrap()
}

#[test]
fn front_order_change_is_a_single_undo_step() {
    let layers = new_drawing_layers();
    let command = layer_command(&layers, 3, 0, LayerEvent::ToFront(0));
    let Some(LayerCommand::SetOrders(plan)) = command else {
        panic!("one change of orders");
    };
    assert_eq!(plan, [(0, 6)]);
    assert!(layer_command(&layers, 3, 0, LayerEvent::ToFront(5)).is_none());
    assert!(layer_command(&layers, 3, 0, LayerEvent::ToBack(0)).is_none());
}

#[test]
fn front_order_plan_renormalizes_when_other_order_is_i32_max() {
    let (a, b, c) = (1, 2, 3);
    let all_orders = vec![(a, 0), (b, i32::MAX), (c, 5)];
    let plan = front_order_plan(a, &all_orders);
    assert!(!plan.is_empty());
    let a_new = resolved(&all_orders, &plan, a);
    let b_new = resolved(&all_orders, &plan, b);
    let c_new = resolved(&all_orders, &plan, c);
    assert!(a_new > b_new);
    assert!(a_new > c_new);
    assert!(c_new < b_new);
    assert_eq!(plan, [(c, 0), (b, 1), (a, 2)]);
}

#[test]
fn back_order_plan_renormalizes_when_other_order_is_i32_min() {
    let (a, b, c) = (1, 2, 3);
    let all_orders = vec![(a, 0), (b, i32::MIN), (c, -5)];
    let plan = back_order_plan(a, &all_orders);
    assert!(!plan.is_empty());
    let a_new = resolved(&all_orders, &plan, a);
    let b_new = resolved(&all_orders, &plan, b);
    let c_new = resolved(&all_orders, &plan, c);
    assert!(a_new < b_new);
    assert!(a_new < c_new);
    assert!(c_new > b_new);
    assert_eq!(plan, [(b, 1), (c, 2)]);
}

#[test]
fn bring_to_front_at_i32_max_boundary_renormalizes_and_undoes_in_one_step() {
    let (default, maxed, mid) = (0, 1, 2);
    let layers = vec![
        entry(default, "0", 0),
        entry(maxed, "maxed", i32::MAX),
        entry(mid, "mid", 3),
    ];
    let before = [(default, 0), (maxed, i32::MAX), (mid, 3)];
    let Some(LayerCommand::SetOrders(plan)) =
        layer_command(&layers, default, default, LayerEvent::ToFront(default))
    else {
        panic!("one change of orders");
    };
    assert!(!plan.is_empty());
    let default_order = resolved(&before, &plan, default);
    assert!(default_order > resolved(&before, &plan, maxed));
    assert!(default_order > resolved(&before, &plan, mid));
}

#[test]
fn send_to_back_at_i32_min_boundary_renormalizes_and_undoes_in_one_step() {
    let (default, mined, mid) = (0, 1, 2);
    let layers = vec![
        entry(default, "0", 0),
        entry(mined, "mined", i32::MIN),
        entry(mid, "mid", -3),
    ];
    let before = [(default, 0), (mined, i32::MIN), (mid, -3)];
    let Some(LayerCommand::SetOrders(plan)) =
        layer_command(&layers, default, default, LayerEvent::ToBack(default))
    else {
        panic!("one change of orders");
    };
    assert!(!plan.is_empty());
    let default_order = resolved(&before, &plan, default);
    assert!(default_order < resolved(&before, &plan, mined));
    assert!(default_order < resolved(&before, &plan, mid));
}

#[test]
fn plans_are_empty_where_nothing_moves() {
    assert!(front_order_plan(1, &vec![(1, 0)]).is_empty());
    assert!(front_order_plan(9, &vec![(1, 0), (2, 1)]).is_empty());
    assert!(front_order_plan(2, &vec![(1, 0), (2, 1)]).is_empty());
    assert_eq!(front_order_plan(2, &vec![(1, 1), (2, 1)]), [(2, 2)]);
    assert!(back_order_plan(1, &vec![(1, 0), (2, 1)]).is_empty());
    assert_eq!(back_order_plan(2, &vec![(1, 0), (2, 1)]), [(2, -1)]);
}

#[test]
fn renumbering_plans_leave_out_layers_that_stay() {
    let (a, b, c) = (1, 2, 3);
    assert_eq!(front_order_plan(a, &vec![(a, 1), (b, i32::MAX)]), [(b, 0)]);
    assert_eq!(back_order_plan(a, &vec![(a, 0), (b, i32::MIN)]), [(b, 1)]);
    assert_eq!(
        front_order_plan(a, &vec![(a, 7), (b, i32::MAX), (c, 0)]),
        [(b, 1), (a, 2)]
    );
    assert_eq!(
        back_order_plan(a, &vec![(a, 7), (b, i32::MIN), (c, 2)]),
        [(a, 0), (b, 1)]
    );
}

#[test]
fn sorting_is_stable() {
    let items = vec![(1, 2), (2, 1), (3, 2), (4, 1), (5, 0)];
    assert_eq!(
        sort_by_order(&items),
        [(5, 0), (2, 1), (4, 1), (1, 2), (3, 2)]
    );
}

fn drawn(layers: &Vec<LayerEntry>, items: &[(u64, u64)]) -> Vec<u64> {
    let candidates = items
        .iter()
        .map(|(id, layer)| DrawCandidate {
            id: *id,
            layer: *layer,
            in_view: true,
        })
        .collect();
    entities_in_draw_order(layers, &candidates)
        .into_iter()
        .map(|(id, _)| id)
        .collect()
}

#[test]
fn draw_order_follows_layer_order_and_is_stable_within_a_layer() {
    let (base, front, back) = (0, 1, 2);
    let layers = vec![
        entry(base, "0", 0),
        entry(front, "front", 5),
        entry(back, "back", -5),
    ];
    let drawn = drawn(
        &layers,
        &[(10, base), (11, front), (12, back), (13, base), (14, front)],
    );
    assert_eq!(drawn, [12, 10, 13, 11, 14]);
}

#[test]
fn draw_order_is_stable_across_layers_with_equal_order() {
    let (base, same_a, same_b) = (0, 1, 2);
    let layers = vec![
        entry(base, "0", 0),
        entry(same_a, "same_a", 0),
        entry(same_b, "same_b", 0),
    ];
    let drawn = drawn(
        &layers,
        &[(10, same_a), (11, base), (12, same_b), (13, base)],
    );
    assert_eq!(drawn, [10, 11, 12, 13]);
}

#[test]
fn draw_order_skips_hidden_layers_and_culled_entities() {
    let (base, hidden) = (0, 1);
    let mut layers = vec![entry(base, "0", 0), entry(hidden, "hidden", 1)];
    layers[1].layer.visible = false;
    let candidates = vec![
        DrawCandidate { id: 10, layer: base, in_view: true },
        DrawCandidate { id: 11, layer: hidden, in_view: true },
        DrawCandidate { id: 12, layer: base, in_view: false },
        DrawCandidate { id: 13, layer: 99, in_view: true },
    ];
    let drawn: Vec<u64> = entities_in_draw_order(&layers, &candidates)
        .into_iter()
        .map(|(id, _)| id)
        .collect();
    assert_eq!(drawn, [10]);
}

#[test]
fn new_layers_take_the_next_name_colour_and_order() {
    let layers = new_drawing_layers();
    let Some(LayerCommand::AddLayer(layer)) = layer_command(&layers, 3, 0, LayerEvent::Add) else {
        panic!("a layer is added");
    };
    assert_eq!(layer.name, "Layer 6");
    assert_eq!(layer.color, Rgb { r: 230, g: 80, b: 80 });
    assert_eq!(layer.order, 6);
    let top = vec![entry(0, "0", i32::MAX)];
    let Some(LayerCommand::AddLayer(layer)) = layer_command(&top, 0, 0, LayerEvent::Add) else {
        panic!("a layer is added");
    };
    assert_eq!(layer.order, i32::MAX);
    assert_eq!(layer.color, Rgb { r: 80, g: 200, b: 120 });
}

#[test]
fn layer_panel_changes_one_property_at_a_time() {
    let layers = new_drawing_layers();
    let changed = |event| match layer_command(&layers, 3, 0, event) {
        Some(LayerCommand::SetLayerProps(id, layer)) => (id, layer),
        _ => panic!("one layer changes"),
    };
    let (id, layer) = changed(LayerEvent::SetVisible(4, false));
    assert_eq!((id, layer.name.as_str(), layer.visible), (4, "寸法線", false));
    assert_eq!((layer.width_um, layer.order), (180, 4));
    let (_, layer) = changed(LayerEvent::SetLocked(4, true));
    assert!(layer.locked && layer.visible);
    let (_, layer) = changed(LayerEvent::SetWidth(4, 500));
    assert_eq!(layer.width_um, 500);
    let (_, layer) = changed(LayerEvent::SetLinetype(4, Linetype::Dashed));
    assert_eq!(layer.linetype, Linetype::Dashed);
    let (_, layer) = changed(LayerEvent::SetColor(4, white()));
    assert_eq!(layer.color, white());
    assert!(layer_command(&layers, 3, 0, LayerEvent::SetVisible(77, false)).is_none());
    assert!(layer_command(&layers, 3, 0, LayerEvent::MakeCurrent(3)).is_none());
    assert!(matches!(
        layer_command(&layers, 3, 0, LayerEvent::MakeCurrent(4)),
        Some(LayerCommand::SetCurrentLayer(4))
    ));
    assert!(layer_command(&layers, 3, 0, LayerEvent::Remove(0)).is_none());
    assert!(matches!(
        layer_command(&layers, 3, 0, LayerEvent::Remove(5)),
        Some(LayerCommand::RemoveLayer(5))
    ));
}

#[test]
fn linetypes_have_their_labels() {
    assert_eq!(linetype_label(Linetype::Continuous), "実線");
    assert_eq!(linetype_label(Linetype::Dashed), "破線");
    assert_eq!(linetype_label(Linetype::DashDot), "一点鎖線");
    assert_eq!(linetype_label(Linetype::DashDotDot), "二点鎖線");
    assert_eq!(linetype_label(Linetype::Other(1)), "実線");
}

fn styled(id: u64, layer: u64, width_um: Option<u32>) -> StyledEntity {
    StyledEntity {
        id,
        layer,
        style: Style {
            color: Some(white()),
            width_um,
            linetype: None,
        },
    }
}

#[test]
fn style_panel_shows_the_first_and_changes_all() {
    let layers = new_drawing_layers();
    assert!(style_summary(&layers, &vec![]).is_none());
    let live = vec![styled(1, 1, None), styled(2, 1, Some(700))];
    let summary = style_summary(&layers, &live).unwrap();
    assert_eq!(summary.width_um, 130);
    assert_eq!(summary.linetype, Linetype::DashDot);
    assert!(!summary.width_is_overridden && !summary.linetype_is_overridden);
    assert!(summary.layer_is_uniform);
    assert_eq!(summary.layer_label, "中心線");
    let mixed = vec![styled(2, 4, Some(700)), styled(1, 1, None)];
    let summary = style_summary(&layers, &mixed).unwrap();
    assert_eq!(summary.width_um, 700);
    assert!(summary.width_is_overridden);
    assert_eq!(summary.layer_label, "混在");
    assert_eq!(move_to_layer(&mixed, 4), [(1, 4)]);
    let restyled = restyle_width(&mixed, None);
    assert_eq!(restyled.len(), 2);
    assert_eq!(restyled[0].1.width_um, None);
    assert_eq!(restyled[0].1.color, Some(white()));
    let restyled = restyle_linetype(&mixed, Some(Linetype::Dashed));
    assert_eq!(restyled[1].1.linetype, Some(Linetype::Dashed));
    assert_eq!(restyled[0].1.width_um, Some(700));
}

#[test]
fn fillet_tool_caches_picked_shapes() {
    assert!(ToolKind::Fillet.caches_picked_shapes());
    assert!(!ToolKind::Line.caches_picked_shapes());
    assert!(!ToolKind::Split.caches_picked_shapes());
}

fn tool_keys() -> ToolKeys {
    ToolKeys {
        command: false,
        shift: false,
        d: false,
        s: false,
        one: false,
        l: false,
        c: false,
        a: false,
        p: false,
        t: false,
        g: false,
        x: false,
        e: false,
        f: false,
        b: false,
    }
}

#[test]
fn tools_have_their_keys_and_labels() {
    let none = tool_keys();
    assert_eq!(tool_for_keys(none), None);
    let cases = [
        (ToolKeys { d: true, ..none }, ToolKind::DimLinear, "Linear Dim"),
        (
            ToolKeys { d: true, shift: true, ..none },
            ToolKind::DimRadial,
            "Radial Dim",
        ),
        (ToolKeys { s: true, ..none }, ToolKind::Select, "Select"),
        (ToolKeys { one: true, ..none }, ToolKind::Point, "Point"),
        (ToolKeys { l: true, ..none }, ToolKind::Line, "Line"),
        (ToolKeys { c: true, ..none }, ToolKind::Circle, "Circle"),
        (ToolKeys { a: true, ..none }, ToolKind::Arc, "Arc"),
        (ToolKeys { p: true, ..none }, ToolKind::Polyline, "Polyline"),
        (ToolKeys { t: true, ..none }, ToolKind::Text, "Text"),
        (ToolKeys { g: true, ..none }, ToolKind::DimDiameter, "Diameter Dim"),
        (ToolKeys { x: true, ..none }, ToolKind::Trim, "Trim"),
        (ToolKeys { e: true, ..none }, ToolKind::Extend, "Extend"),
        (ToolKeys { f: true, ..none }, ToolKind::Fillet, "Fillet"),
        (ToolKeys { b: true, ..none }, ToolKind::Split, "Split"),
    ];
    for (keys, kind, label) in cases {
        assert_eq!(tool_for_keys(keys), Some(kind));
        assert_eq!(tool_for_keys(ToolKeys { command: true, ..keys }), None);
        assert_eq!(kind.label(), label);
        assert_eq!(kind.spawn().is_none(), kind == ToolKind::Select);
        if kind.caches_picked_shapes() {
            assert!(kind.keeps_state_on_commit_failure());
        }
    }
}

#[test]
fn choosing_a_tool_ends_modes_and_drops_the_selection() {
    let mut editing = Editing::default();
    editing.select.selection = vec![1, 2];
    editing.select.mode = SelectMode::Offsetting;
    editing.handle_tool_shortcut_keys(tool_keys());
    assert!(editing.select.is_offsetting());
    editing.handle_tool_shortcut_keys(ToolKeys {
        s: true,
        ..tool_keys()
    });
    assert_eq!(editing.select.selection, [1, 2]);
    assert_eq!(editing.select.mode, SelectMode::Idle);
    editing.handle_tool_shortcut_keys(ToolKeys {
        l: true,
        ..tool_keys()
    });
    assert!(editing.select.selection.is_empty());
    assert_eq!(editing.tool, ToolKind::Line.spawn());
}

fn at_work(kind: ToolKind) -> Editing {
    let mut editing = Editing::default();
    editing.switch_tool(kind);
    if let Some(tool) = &mut editing.tool {
        tool.fresh = false;
    }
    editing
}

#[test]
fn refused_changes_end_the_entry_except_where_it_goes_on() {
    for kind in [
        ToolKind::Trim,
        ToolKind::Extend,
        ToolKind::Fillet,
        ToolKind::Split,
    ] {
        let mut editing = at_work(kind);
        let message = editing.tool_finished(ToolOutcome::Refused("locked".to_owned()));
        assert_eq!(message.unwrap(), "Commit failed: locked");
        assert!(!editing.tool.unwrap().fresh);
    }
    let mut editing = at_work(ToolKind::Line);
    editing.tool_finished(ToolOutcome::Refused("locked".to_owned()));
    assert!(editing.tool.unwrap().fresh);
}

#[test]
fn tool_results_are_taken_as_they_come() {
    let mut editing = at_work(ToolKind::Trim);
    assert!(editing.tool_finished(ToolOutcome::Continue).is_none());
    assert!(editing
        .tool_finished(ToolOutcome::Applied(Some(vec![4, 5])))
        .is_none());
    assert_eq!(editing.select.selection, [4, 5]);
    assert!(editing.tool_finished(ToolOutcome::Applied(None)).is_none());
    assert_eq!(editing.select.selection, [4, 5]);
    let message = editing.tool_finished(ToolOutcome::Rejected("too short".to_owned()));
    assert_eq!(message.unwrap(), "too short");
    assert!(editing.tool_finished(ToolOutcome::Cancel).is_none());
    assert_eq!(editing.tool_kind, ToolKind::Select);
    assert!(editing.tool.is_none());
}

#[test]
fn history_drops_picks_and_files_too() {
    let mut editing = at_work(ToolKind::Fillet);
    editing.after_history_change(&vec![]);
    assert!(editing.tool.unwrap().fresh);
    let mut editing = at_work(ToolKind::Line);
    editing.cancel_placement_for_file_op();
    assert!(!editing.tool.unwrap().fresh);
}

#[test]
fn frames_reach_the_tool_as_it_wants() {
    let input = ToolInput {
        hovering: true,
        clicked: true,
        space_down: false,
        snap_enabled: true,
        wants_circle_pick: false,
        wants_shape_pick: false,
        snaps_shape_pick: false,
    };
    let frame = tool_frame(input);
    assert_eq!(frame.marker, MarkerSource::Drawing);
    assert_eq!(frame.click, ClickUse::EnterPoint);
    assert!(pick_missed(frame.click).is_none());
    let circle = tool_frame(ToolInput {
        wants_circle_pick: true,
        ..input
    });
    assert_eq!(
        pick_missed(circle.click),
        Some("Radial dim: click a circle or arc")
    );
    let trim = tool_frame(ToolInput {
        wants_shape_pick: true,
        ..input
    });
    assert_eq!(trim.marker, MarkerSource::PointerOnly);
    assert_eq!(trim.click, ClickUse::PickShape { snap_position: false });
    assert_eq!(
        pick_missed(trim.click),
        Some("Pick: click a line, arc, circle, or polyline")
    );
    let split = tool_frame(ToolInput {
        wants_shape_pick: true,
        snaps_shape_pick: true,
        ..input
    });
    assert_eq!(split.marker, MarkerSource::ShapeUnderPointer);
    assert_eq!(split.click, ClickUse::PickShape { snap_position: true });
    let panning = tool_frame(ToolInput {
        hovering: false,
        space_down: true,
        ..input
    });
    assert_eq!(panning.marker, MarkerSource::Nowhere);
    assert_eq!(panning.click, ClickUse::Nothing);
}

type P = (f64, f64);

fn constrain(origin: P, raw: P) -> P {
    let (dx, dy) = (raw.0 - origin.0, raw.1 - origin.1);
    if dx.abs() >= dy.abs() {
        (raw.0, origin.1)
    } else {
        (origin.0, raw.1)
    }
}

#[test]
fn snap_wins_over_ortho() {
    let raw = (10.0, 0.5);
    let constrained = Some(constrain((0.0, 0.0), raw));
    assert_eq!(
        resolve_click_point(Some((9.0, 9.0)), raw, true, constrained),
        (9.0, 9.0)
    );
}

#[test]
fn no_snap_ortho_on_with_origin_constrains() {
    let raw = (10.0, 0.5);
    let constrained = Some(constrain((0.0, 0.0), raw));
    assert_eq!(
        resolve_click_point(None, raw, true, constrained),
        (10.0, 0.0)
    );
}

#[test]
fn ortho_off_returns_raw() {
    let raw = (10.0, 0.5);
    let constrained = Some(constrain((0.0, 0.0), raw));
    assert_eq!(resolve_click_point(None, raw, false, constrained), raw);
}

#[test]
fn no_origin_returns_raw_even_if_ortho_on() {
    let raw = (10.0, 0.5);
    assert_eq!(resolve_click_point(None, raw, true, None), raw);
}

#[test]
fn snapping_off_returns_raw() {
    assert_eq!(apply_snap(true, 1, Some(2)), (2, Some(2)));
    assert_eq!(apply_snap(false, 1, Some(2)), (1, None));
    assert_eq!(apply_snap(true, 1, None), (1, None));
}

#[test]
fn select_canvas_key_shortcuts_disabled_while_a_text_field_is_focused() {
    assert!(select_canvas_key_shortcuts_enabled(false));
    assert!(!select_canvas_key_shortcuts_enabled(true));
}

fn select_keys() -> SelectKeys {
    SelectKeys {
        command: false,
        shift: false,
        m: false,
        r: false,
        o: false,
        delete: false,
        escape: false,
        space_down: false,
        text_focused: false,
    }
}

fn message_of(frame: SelectFrame) -> &'static str {
    match frame {
        SelectFrame::Message(m) => m,
        _ => panic!("a message was expected"),
    }
}

fn steps_of(frame: SelectFrame) -> Vec<SelectStep> {
    match frame {
        SelectFrame::Steps(steps) => steps,
        _ => panic!("steps were expected"),
    }
}

#[test]
fn keys_start_modes_of_the_selection() {
    let nothing = PointerEvent::Nothing;
    let m = SelectKeys { m: true, ..select_keys() };
    let shift_m = SelectKeys { shift: true, ..m };
    let r = SelectKeys { r: true, ..select_keys() };
    let o = SelectKeys { o: true, ..select_keys() };
    let mut tool = SelectTool::default();
    for (keys, text) in [
        (m, "Select entities to move"),
        (shift_m, "Select entities to mirror"),
        (r, "Select entities to rotate"),
        (o, "Select exactly one entity to offset"),
    ] {
        assert_eq!(
            message_of(tool.handle_select_input(keys, nothing, false)),
            text
        );
        assert_eq!(tool.mode, SelectMode::Idle);
    }
    for (keys, kind, text) in [
        (m, PlacementKind::Move, "Move: click base point"),
        (shift_m, PlacementKind::Mirror, "Mirror: click first axis point"),
        (r, PlacementKind::Rotate, "Rotate: click pivot point"),
    ] {
        let mut tool = SelectTool::default();
        tool.selection = vec![1, 2];
        assert_eq!(
            message_of(tool.handle_select_input(keys, nothing, true)),
            text
        );
        assert_eq!(tool.mode, SelectMode::Placing(kind));
        assert!(matches!(
            tool.handle_select_input(select_keys(), nothing, true),
            SelectFrame::Placement
        ));
    }
    let mut tool = SelectTool::default();
    tool.selection = vec![1];
    assert_eq!(
        message_of(tool.handle_select_input(o, nothing, false)),
        "Offset supports lines, circles, arcs, and polylines only"
    );
    assert_eq!(
        message_of(tool.handle_select_input(o, nothing, true)),
        "Offset: click through point (or type distance)"
    );
    assert!(matches!(
        tool.handle_select_input(m, nothing, true),
        SelectFrame::Offset
    ));
    tool.mode = SelectMode::Idle;
    let ctrl_m = SelectKeys { command: true, ..m };
    assert!(steps_of(tool.handle_select_input(ctrl_m, nothing, true)).is_empty());
}

#[test]
fn frames_of_selecting_take_their_steps_in_order() {
    let mut tool = SelectTool::default();
    tool.selection = vec![1];
    let keys = SelectKeys {
        delete: true,
        escape: true,
        shift: true,
        ..select_keys()
    };
    assert_eq!(
        steps_of(tool.handle_select_input(keys, PointerEvent::Clicked, true)),
        [
            SelectStep::DeleteSelection,
            SelectStep::Cancel,
            SelectStep::Click { shift: true }
        ]
    );
    let typing = SelectKeys { text_focused: true, ..keys };
    assert_eq!(
        steps_of(tool.handle_select_input(typing, PointerEvent::DragStarted, true)),
        [SelectStep::BeginDrag]
    );
    let panning = SelectKeys { space_down: true, ..select_keys() };
    assert!(steps_of(tool.handle_select_input(panning, PointerEvent::Dragged, true)).is_empty());
    tool.selection = vec![];
    let delete = SelectKeys { delete: true, ..select_keys() };
    assert_eq!(
        steps_of(tool.handle_select_input(delete, PointerEvent::DragStopped, true)),
        [SelectStep::EndDrag]
    );
}

#[test]
fn deleting_empties_the_selection_unless_refused() {
    let mut tool = SelectTool::default();
    tool.selection = vec![1, 2];
    let message = tool.deletion_finished(Err("locked".to_owned()));
    assert_eq!(message.unwrap(), "Delete failed: locked");
    assert_eq!(tool.selection, [1, 2]);
    assert!(tool.deletion_finished(Ok(())).is_none());
    assert!(tool.selection.is_empty());
}

#[test]
fn cancelling_gives_up_the_drag_before_the_selection() {
    let mut tool = SelectTool::default();
    tool.selection = vec![1];
    tool.mode = SelectMode::RectDrag;
    tool.on_cancel();
    assert_eq!(tool.selection, [1]);
    assert_eq!(tool.mode, SelectMode::Idle);
    tool.on_cancel();
    assert!(tool.selection.is_empty());
}

fn mode_input() -> ModeInput {
    ModeInput {
        escape: false,
        typing: false,
        space_down: false,
        hovering: true,
        clicked: true,
    }
}

#[test]
fn placements_end_with_escape_and_take_clicks() {
    let mut tool = SelectTool::default();
    tool.selection = vec![1];
    tool.mode = SelectMode::Placing(PlacementKind::Move);
    let frame = tool.handle_placement_input(mode_input());
    assert!(!frame.left && frame.follow && frame.click);
    let frame = tool.handle_placement_input(ModeInput {
        space_down: true,
        hovering: false,
        ..mode_input()
    });
    assert!(!frame.follow && !frame.click);
    let frame = tool.handle_placement_input(ModeInput {
        escape: true,
        typing: true,
        ..mode_input()
    });
    assert!(frame.left && !frame.click);
    assert_eq!(tool.mode, SelectMode::Idle);
    assert_eq!(tool.selection, [1]);
}

#[test]
fn offsets_leave_escape_to_a_text_field() {
    let mut tool = SelectTool::default();
    tool.mode = SelectMode::Offsetting;
    let escape = ModeInput { escape: true, ..mode_input() };
    let frame = tool.handle_offset_input(ModeInput { typing: true, ..escape });
    assert!(!frame.left && frame.click);
    assert!(tool.is_offsetting());
    let frame = tool.handle_offset_input(escape);
    assert!(frame.left);
    assert!(!tool.is_offsetting());
}

#[test]
fn placements_report_how_they_went() {
    let mut tool = SelectTool::default();
    tool.selection = vec![1, 2];
    let placing = SelectMode::Placing(PlacementKind::Duplicate);
    tool.mode = placing;
    assert!(tool
        .placement_clicked(PlacementKind::Duplicate, PlacementOutcome::Continue)
        .is_none());
    assert_eq!(tool.mode, placing);
    let message = tool.placement_clicked(
        PlacementKind::Duplicate,
        PlacementOutcome::Applied(vec![7, 8, 9]),
    );
    assert_eq!(message.unwrap(), "Duplicated 3 entities");
    assert_eq!(tool.selection, [7, 8, 9]);
    assert_eq!(tool.mode, SelectMode::Idle);
    for (kind, done, failed) in [
        (PlacementKind::Move, "Moved 3 entities", "Move failed: e"),
        (PlacementKind::Rotate, "Rotated 3 entities", "Rotate failed: e"),
        (PlacementKind::Mirror, "Mirrored 3 entities", "Mirror failed: e"),
    ] {
        let message = tool.placement_clicked(kind, PlacementOutcome::Applied(vec![]));
        assert_eq!(message.unwrap(), done);
        let message = tool.placement_clicked(kind, PlacementOutcome::Refused("e".to_owned()));
        assert_eq!(message.unwrap(), failed);
        assert_eq!(tool.selection, [7, 8, 9]);
    }
    let message = tool.placement_clicked(
        PlacementKind::Duplicate,
        PlacementOutcome::Refused("e".to_owned()),
    );
    assert_eq!(message.unwrap(), "Duplicate failed: e");
    let message = tool.placement_clicked(
        PlacementKind::Move,
        PlacementOutcome::Cancelled("zero".to_owned()),
    );
    assert_eq!(message.unwrap(), "zero");
}

#[test]
fn offsets_report_how_they_went() {
    let mut tool = SelectTool::default();
    tool.mode = SelectMode::Offsetting;
    assert_eq!(tool.offset_clicked(None, Ok(())), "Offset created");
    assert_eq!(tool.mode, SelectMode::Idle);
    assert_eq!(
        tool.offset_clicked(None, Err("locked".to_owned())),
        "Offset failed: locked"
    );
    assert_eq!(
        tool.offset_clicked(Some("on the line".to_owned()), Ok(())),
        "on the line"
    );
}

#[test]
fn labels_are_hit_in_the_order_of_selection() {
    let c = |id, layer_visible, hit| LabelCandidate { id, layer_visible, hit };
    assert_eq!(dim_label_hit(&vec![]), None);
    assert_eq!(
        dim_label_hit(&vec![c(1, false, true), c(2, true, false)]),
        None
    );
    assert_eq!(
        dim_label_hit(&vec![c(1, false, true), c(2, true, true), c(3, true, true)]),
        Some(2)
    );
}

#[test]
fn previews_show_what_moves_only_where_it_goes() {
    let moving = selection_overlay(SelectMode::Placing(PlacementKind::Move), true);
    assert!(!moving.highlight);
    assert_eq!(
        moving.extra,
        OverlayExtra::PlacementGhost(PlacementKind::Move)
    );
    let copying = selection_overlay(SelectMode::Placing(PlacementKind::Duplicate), true);
    assert!(copying.highlight);
    let waiting = selection_overlay(SelectMode::Placing(PlacementKind::Move), false);
    assert!(waiting.highlight);
    assert_eq!(waiting.extra, OverlayExtra::Nothing);
    let offset = selection_overlay(SelectMode::Offsetting, true);
    assert_eq!(offset.extra, OverlayExtra::OffsetGhost);
    assert_eq!(
        selection_overlay(SelectMode::Offsetting, false).extra,
        OverlayExtra::Nothing
    );
    assert_eq!(
        selection_overlay(SelectMode::RectDrag, true).extra,
        OverlayExtra::SelectionRect
    );
    assert_eq!(
        selection_overlay(SelectMode::TextDrag, true).extra,
        OverlayExtra::LabelGhost
    );
    assert!(selection_overlay(SelectMode::Idle, true).highlight);
}

#[test]
fn clicks_accumulate_and_shift_takes_out() {
    let mut tool = SelectTool::default();
    tool.on_click(Some(4), false);
    tool.on_click(Some(7), false);
    tool.on_click(Some(4), false);
    assert_eq!(tool.selection, vec![4, 7]);
    tool.on_click(None, false);
    tool.on_click(None, true);
    tool.on_click(Some(9), true);
    assert_eq!(tool.selection, vec![4, 7]);
    tool.on_click(Some(4), true);
    assert_eq!(tool.selection, vec![7]);
    assert_eq!(tool.mode, SelectMode::Idle);
}
