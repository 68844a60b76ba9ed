//! Layers: the set of a new drawing, the layer of a new entity, the layer panel,
//! the style panel and the order of drawing.

use crate::sheet::SheetMeta;
use crate::stacking::{
    back_order_plan, front_order_plan, is_back_plan, is_front_plan, is_greatest, sort_by_order,
    stable_sort_of,
};
use crate::text::{decimal, decimal_text, same_text};
use crate::tools::ToolKind;
use vstd::prelude::*;
use vstd::string::*;

verus! {

/// A colour.
#[derive(Clone, Copy, Debug, PartialEq, Eq, Structural)]
pub struct Rgb {
    pub r: u8,
    pub g: u8,
    pub b: u8,
}

/// The line types.
#[derive(Clone, Copy, Debug, PartialEq, Eq, Structural)]
pub enum Linetype {
    Continuous,
    Dashed,
    DashDot,
    DashDotDot,
    /// A line type without a label of its own, by a number.
    Other(u32),
}

/// The label of a line type.
pub fn linetype_label(linetype: Linetype) -> (r: &'static str)
    ensures
        r@ == match linetype {
            Linetype::Continuous => "実線"@,
            Linetype::Dashed => "破線"@,
            Linetype::DashDot => "一点鎖線"@,
            Linetype::DashDotDot => "二点鎖線"@,
            Linetype::Other(_) => "実線"@,
        },
{
    match linetype {
        Linetype::Continuous => "実線",
        Linetype::Dashed => "破線",
        Linetype::DashDot => "一点鎖線",
        Linetype::DashDotDot => "二点鎖線",
        Linetype::Other(_) => "実線",
    }
}

/// A layer without its identity.
pub struct Layer {
    pub name: String,
    pub color: Rgb,
    pub visible: bool,
    pub locked: bool,
    pub linetype: Linetype,
    /// Line width in micrometres.
    pub width_um: u32,
    pub order: i32,
}

/// The contents of a layer.
#[verifier::ext_equal]
pub struct LayerView {
    pub name: Seq<char>,
    pub color: Rgb,
    pub visible: bool,
    pub locked: bool,
    pub linetype: Linetype,
    pub width_um: u32,
    pub order: i32,
}

impl View for Layer {
    type V = LayerView;

    open spec fn view(&self) -> LayerView {
        LayerView {
            name: self.name@,
            color: self.color,
            visible: self.visible,
            locked: self.locked,
            linetype: self.linetype,
            width_um: self.width_um,
            order: self.order,
        }
    }
}

impl Layer {
    /// A layer with the same contents.
    pub fn copied(&self) -> (r: Layer)
        ensures
            r@ == self@,
    {
        Layer {
            name: self.name.clone(),
            color: self.color,
            visible: self.visible,
            locked: self.locked,
            linetype: self.linetype,
            width_um: self.width_um,
            order: self.order,
        }
    }
}

/// The colours that new layers take in turn.
pub open spec fn palette(i: int) -> Rgb {
    if i == 0 {
        Rgb { r: 230, g: 80, b: 80 }
    } else if i == 1 {
        Rgb { r: 80, g: 200, b: 120 }
    } else if i == 2 {
        Rgb { r: 90, g: 140, b: 255 }
    } else if i == 3 {
        Rgb { r: 230, g: 200, b: 60 }
    } else if i == 4 {
        Rgb { r: 200, g: 90, b: 220 }
    } else {
        Rgb { r: 70, g: 210, b: 210 }
    }
}

fn palette_color(i: usize) -> (r: Rgb)
    ensures
        r == palette(i as int),
{
    match i {
        0 => Rgb { r: 230, g: 80, b: 80 },
        1 => Rgb { r: 80, g: 200, b: 120 },
        2 => Rgb { r: 90, g: 140, b: 255 },
        3 => Rgb { r: 230, g: 200, b: 60 },
        4 => Rgb { r: 200, g: 90, b: 220 },
        _ => Rgb { r: 70, g: 210, b: 210 },
    }
}

/// A visible, unlocked layer.
pub open spec fn plain_layer(
    name: Seq<char>,
    color: Rgb,
    linetype: Linetype,
    width_um: u32,
    order: i32,
) -> LayerView {
    LayerView { name, color, visible: true, locked: false, linetype, width_um, order }
}

/// The layers that a new drawing has besides layer 0, from the back.
pub open spec fn default_layers() -> Seq<LayerView> {
    seq![
        plain_layer("中心線"@, palette(0), Linetype::DashDot, 130, 1),
        plain_layer("破線"@, palette(1), Linetype::Dashed, 350, 2),
        plain_layer("外形線"@, palette(2), Linetype::Continuous, 350, 3),
        plain_layer("寸法線"@, palette(4), Linetype::Continuous, 180, 4),
        plain_layer("文字"@, palette(3), Linetype::Continuous, 180, 5),
    ]
}

/// The contents of a sequence of layers.
pub open spec fn layer_views(layers: Seq<Layer>) -> Seq<LayerView> {
    Seq::new(layers.len(), |i: int| layers[i]@)
}

fn make_layer(
    name: &str,
    color: Rgb,
    linetype: Linetype,
    width_um: u32,
    order: i32,
) -> (r: Layer)
    ensures
        r@ == plain_layer(name@, color, linetype, width_um, order),
{
    Layer {
        name: name.to_owned(),
        color,
        visible: true,
        locked: false,
        linetype,
        width_um,
        order,
    }
}

/// The layers that a new drawing has besides layer 0, from the back.
pub fn default_extra_layers() -> (r: Vec<Layer>)
    ensures
        layer_views(r@) == default_layers(),
{
    let mut r: Vec<Layer> = Vec::new();
    r.push(make_layer("中心線", palette_color(0), Linetype::DashDot, 130, 1));
    r.push(make_layer("破線", palette_color(1), Linetype::Dashed, 350, 2));
    r.push(make_layer("外形線", palette_color(2), Linetype::Continuous, 350, 3));
    r.push(make_layer("寸法線", palette_color(4), Linetype::Continuous, 180, 4));
    r.push(make_layer("文字", palette_color(3), Linetype::Continuous, 180, 5));
    assert(layer_views(r@) =~= default_layers());
    r
}

/// Exactly one of the layers of a new drawing is the one it draws on, one is for
/// dimensions and one for texts; no two have the same name, and they lie in
/// front of layer 0 in the order of their list.
pub proof fn lemma_default_layers()
    ensures
        forall|i: int, j: int|
            0 <= i < j < default_layers().len() ==> (#[trigger] default_layers()[i]).name != (
            #[trigger] default_layers()[j]).name,
        forall|i: int|
            0 <= i < default_layers().len() ==> (#[trigger] default_layers()[i]).order == i + 1,
        default_layers()[2].name == "外形線"@,
        default_layers()[3].name == "寸法線"@,
        default_layers()[4].name == "文字"@,
{
    reveal_strlit("中心線");
    reveal_strlit("破線");
    reveal_strlit("外形線");
    reveal_strlit("寸法線");
    reveal_strlit("文字");
    assert("中心線"@[0] == '中');
    assert("破線"@[0] == '破');
    assert("外形線"@[0] == '外');
    assert("寸法線"@[0] == '寸');
    assert("文字"@[0] == '文');
}

/// A layer of the drawing: its identity and its contents.
pub struct LayerEntry {
    pub id: u64,
    pub layer: Layer,
}

/// The layer with the given name that comes first.
pub open spec fn first_named(layers: Seq<LayerEntry>, name: Seq<char>) -> Option<u64>
    decreases layers.len(),
{
    if layers.len() == 0 {
        None
    } else {
        match first_named(layers.drop_last(), name) {
            Some(id) => Some(id),
            None => if layers.last().layer.name@ == name {
                Some(layers.last().id)
            } else {
                None
            },
        }
    }
}

/// The first layer whose name is exactly the given one.
pub fn layer_named(layers: &Vec<LayerEntry>, name: &str) -> (r: Option<u64>)
    ensures
        r == first_named(layers@, name@),
{
    let mut found: Option<u64> = None;
    let mut i: usize = 0;
    while i < layers.len()
        invariant
            i <= layers@.len(),
            found == first_named(layers@.take(i as int), name@),
        decreases layers@.len() - i,
    {
        assert(layers@.take(i + 1).drop_last() =~= layers@.take(i as int));
        if found.is_none() && same_text(layers[i].layer.name.as_str(), name) {
            found = Some(layers[i].id);
        }
        i = i + 1;
    }
    assert(layers@.take(layers@.len() as int) =~= layers@);
    found
}

/// The name of the layer that the entities of a tool go to, if there is one.
pub open spec fn tool_layer_name(kind: ToolKind) -> Option<Seq<char>> {
    match kind {
        ToolKind::DimLinear => Some("寸法線"@),
        ToolKind::DimRadial => Some("寸法線"@),
        ToolKind::DimDiameter => Some("寸法線"@),
        ToolKind::Text => Some("文字"@),
        _ => None,
    }
}

/// The layer that the entities of a tool go to: the one named for it, and where
/// the drawing has none the current layer.
pub open spec fn tool_layer(layers: Seq<LayerEntry>, current: u64, kind: ToolKind) -> u64 {
    match tool_layer_name(kind) {
        Some(name) => match first_named(layers, name) {
            Some(id) => id,
            None => current,
        },
        None => current,
    }
}

/// The layer that the entities of a tool go to: the one named for it, and where
/// the drawing has none the current layer. No layer is ever added for it.
pub fn resolve_tool_layer(layers: &Vec<LayerEntry>, current: u64, kind: ToolKind) -> (r: u64)
    ensures
        r == tool_layer(layers@, current, kind),
{
    let name = match kind {
        ToolKind::DimLinear => "寸法線",
        ToolKind::DimRadial => "寸法線",
        ToolKind::DimDiameter => "寸法線",
        ToolKind::Text => "文字",
        _ => {
            return current;
        },
    };
    match layer_named(layers, name) {
        Some(id) => id,
        None => current,
    }
}

/// A request of the layer panel.
#[derive(Clone, Copy, Debug, PartialEq, Eq, Structural)]
pub enum LayerEvent {
    Add,
    MakeCurrent(u64),
    SetColor(u64, Rgb),
    SetVisible(u64, bool),
    SetLocked(u64, bool),
    SetWidth(u64, u32),
    SetLinetype(u64, Linetype),
    ToFront(u64),
    ToBack(u64),
    Remove(u64),
}

/// A change of the drawing's layers, undone as one.
pub enum LayerCommand {
    AddLayer(Layer),
    SetCurrentLayer(u64),
    SetLayerProps(u64, Layer),
    /// New orders of several layers.
    SetOrders(Vec<(u64, i32)>),
    RemoveLayer(u64),
}

/// The identities and orders of layers.
pub open spec fn orders_of(layers: Seq<LayerEntry>) -> Seq<(u64, i32)> {
    Seq::new(layers.len(), |i: int| (layers[i].id, layers[i].layer.order))
}

/// Whether `rows` are the rows of the layer panel: the layers with the foremost
/// on top. In rising order they are sorted with layers of equal order as they
/// stand in the drawing.
pub open spec fn is_panel(layers: Seq<LayerEntry>, rows: Seq<(u64, i32)>) -> bool {
    stable_sort_of(orders_of(layers), rows.reverse())
}

/// Whether `order` is in front of all layers: zero where there is none, and not
/// beyond what the type holds.
pub open spec fn is_next_order(layers: Seq<LayerEntry>, order: i32) -> bool {
    if layers.len() == 0 {
        order == 0
    } else {
        exists|max: i32| #[trigger]
            is_greatest(orders_of(layers), max) && order == if max == i32::MAX {
                i32::MAX as int
            } else {
                max + 1
            }
    }
}

/// The contents of the first layer with the given identity.
pub open spec fn layer_at(layers: Seq<LayerEntry>, id: u64) -> Option<LayerView>
    decreases layers.len(),
{
    if layers.len() == 0 {
        None
    } else {
        match layer_at(layers.drop_last(), id) {
            Some(layer) => Some(layer),
            None => if layers.last().id == id {
                Some(layers.last().layer@)
            } else {
                None
            },
        }
    }
}

/// Whether a command is the change of one layer to the given contents, where
/// the drawing has that layer.
pub open spec fn changes_layer(
    command: Option<LayerCommand>,
    id: u64,
    changed: Option<LayerView>,
) -> bool {
    match changed {
        Some(layer) => command matches Some(LayerCommand::SetLayerProps(cid, props)) && cid == id
            && props@ == layer,
        None => command is None,
    }
}

/// Whether a command gives layers the orders of a plan; an empty plan needs no
/// command.
pub open spec fn sets_orders(command: Option<LayerCommand>, plan: Seq<(u64, i32)>) -> bool {
    if plan.len() == 0 {
        command is None
    } else {
        command matches Some(LayerCommand::SetOrders(updates)) && updates@ == plan
    }
}

/// Whether a command is what an event of the layer panel asks for.
pub open spec fn is_layer_command(
    layers: Seq<LayerEntry>,
    current: u64,
    default_layer: u64,
    event: LayerEvent,
    command: Option<LayerCommand>,
) -> bool {
    match event {
        LayerEvent::Add => command matches Some(LayerCommand::AddLayer(layer)) && layer.name@
            == "Layer "@ + decimal_text(layers.len()) && layer.color == palette(
            (layers.len() % 6) as int,
        ) && layer.visible && !layer.locked && layer.linetype == Linetype::Continuous
            && layer.width_um == 350 && is_next_order(layers, layer.order),
        LayerEvent::MakeCurrent(id) => if id == current {
            command is None
        } else {
            command == Some(LayerCommand::SetCurrentLayer(id))
        },
        LayerEvent::SetColor(id, color) => changes_layer(
            command,
            id,
            match layer_at(layers, id) {
                Some(layer) => Some(LayerView { color, ..layer }),
                None => None,
            },
        ),
        LayerEvent::SetVisible(id, visible) => changes_layer(
            command,
            id,
            match layer_at(layers, id) {
                Some(layer) => Some(LayerView { visible, ..layer }),
                None => None,
            },
        ),
        LayerEvent::SetLocked(id, locked) => changes_layer(
            command,
            id,
            match layer_at(layers, id) {
                Some(layer) => Some(LayerView { locked, ..layer }),
                None => None,
            },
        ),
        LayerEvent::SetWidth(id, width_um) => changes_layer(
            command,
            id,
            match layer_at(layers, id) {
                Some(layer) => Some(LayerView { width_um, ..layer }),
                None => None,
            },
        ),
        LayerEvent::SetLinetype(id, linetype) => changes_layer(
            command,
            id,
            match layer_at(layers, id) {
                Some(layer) => Some(LayerView { linetype, ..layer }),
                None => None,
            },
        ),
        LayerEvent::ToFront(id) => exists|rows: Seq<(u64, i32)>, plan: Seq<(u64, i32)>|
            is_panel(layers, rows) && #[trigger] is_front_plan(rows, id, plan) && sets_orders(
                command,
                plan,
            ),
        LayerEvent::ToBack(id) => exists|rows: Seq<(u64, i32)>, plan: Seq<(u64, i32)>|
            is_panel(layers, rows) && #[trigger] is_back_plan(rows, id, plan) && sets_orders(
                command,
                plan,
            ),
        LayerEvent::Remove(id) => if id == default_layer {
            command is None
        } else {
            command == Some(LayerCommand::RemoveLayer(id))
        },
    }
}

fn find_layer(layers: &Vec<LayerEntry>, id: u64) -> (r: Option<Layer>)
    ensures
        match r {
            Some(layer) => layer_at(layers@, id) == Some(layer@),
            None => layer_at(layers@, id) is None,
        },
{
    let mut found: Option<usize> = None;
    let mut i: usize = 0;
    while i < layers.len()
        invariant
            i <= layers@.len(),
            match found {
                Some(k) => k < i && layer_at(layers@.take(i as int), id) == Some(
                    layers@[k as int].layer@,
                ),
                None => layer_at(layers@.take(i as int), id) is None,
            },
        decreases layers@.len() - i,
    {
        assert(layers@.take(i + 1).drop_last() =~= layers@.take(i as int));
        if found.is_none() && layers[i].id == id {
            found = Some(i);
        }
        i = i + 1;
    }
    assert(layers@.take(layers@.len() as int) =~= layers@);
    match found {
        Some(k) => Some(layers[k].layer.copied()),
        None => None,
    }
}

fn orders(layers: &Vec<LayerEntry>) -> (r: Vec<(u64, i32)>)
    ensures
        r@ == orders_of(layers@),
{
    let mut r: Vec<(u64, i32)> = Vec::new();
    let mut i: usize = 0;
    while i < layers.len()
        invariant
            i <= layers@.len(),
            r@.len() == i,
            forall|j: int| 0 <= j < i ==> r@[j] == (layers@[j].id, layers@[j].layer.order),
        decreases layers@.len() - i,
    {
        r.push((layers[i].id, layers[i].layer.order));
        i = i + 1;
    }
    assert(r@ =~= orders_of(layers@));
    r
}

fn next_order(layers: &Vec<LayerEntry>) -> (r: i32)
    ensures
        is_next_order(layers@, r),
{
    if layers.len() == 0 {
        return 0;
    }
    let items = orders(layers);
    let mut max: i32 = items[0].1;
    let mut i: usize = 1;
    while i < items.len()
        invariant
            1 <= i <= items@.len(),
            exists|j: int| 0 <= j < i && (#[trigger] items@[j]).1 == max,
            forall|j: int| 0 <= j < i ==> (#[trigger] items@[j]).1 <= max,
        decreases items@.len() - i,
    {
        if items[i].1 > max {
            max = items[i].1;
        }
        i = i + 1;
    }
    assert(is_greatest(orders_of(layers@), max));
    if max == i32::MAX {
        i32::MAX
    } else {
        max + 1
    }
}

/// The rows of the layer panel: the identities and orders of the layers, with
/// the foremost on top.
pub fn layer_rows(layers: &Vec<LayerEntry>) -> (r: Vec<(u64, i32)>)
    ensures
        is_panel(layers@, r@),
{
    let sorted = sort_by_order(&orders(layers));
    let mut r: Vec<(u64, i32)> = Vec::new();
    let mut i: usize = sorted.len();
    while i > 0
        invariant
            i <= sorted@.len(),
            r@.len() == sorted@.len() - i,
            forall|j: int| 0 <= j < r@.len() ==> r@[j] == sorted@[sorted@.len() - 1 - j],
        decreases i,
    {
        i = i - 1;
        r.push(sorted[i]);
    }
    assert(r@.reverse() =~= sorted@);
    r
}

/// The change that an event of the layer panel asks for; `None` where nothing
/// changes.
pub fn layer_command(
    layers: &Vec<LayerEntry>,
    current: u64,
    default_layer: u64,
    event: LayerEvent,
) -> (r: Option<LayerCommand>)
    requires
        layers@.len() < i32::MAX,
    ensures
        is_layer_command(layers@, current, default_layer, event, r),
{
    match event {
        LayerEvent::Add => {
            let n: usize = layers.len();
            let name = "Layer ".to_owned().concat(decimal(n as u64).as_str());
            Some(
                LayerCommand::AddLayer(
                    Layer {
                        name,
                        color: palette_color(n % 6),
                        visible: true,
                        locked: false,
                        linetype: Linetype::Continuous,
                        width_um: 350,
                        order: next_order(layers),
                    },
                ),
            )
        },
        LayerEvent::MakeCurrent(id) => if id == current {
            None
        } else {
            Some(LayerCommand::SetCurrentLayer(id))
        },
        LayerEvent::SetColor(id, color) => match find_layer(layers, id) {
            Some(layer) => Some(LayerCommand::SetLayerProps(id, Layer { color, ..layer })),
            None => None,
        },
        LayerEvent::SetVisible(id, visible) => match find_layer(layers, id) {
            Some(layer) => Some(LayerCommand::SetLayerProps(id, Layer { visible, ..layer })),
            None => None,
        },
        LayerEvent::SetLocked(id, locked) => match find_layer(layers, id) {
            Some(layer) => Some(LayerCommand::SetLayerProps(id, Layer { locked, ..layer })),
            None => None,
        },
        LayerEvent::SetWidth(id, width_um) => match find_layer(layers, id) {
            Some(layer) => Some(LayerCommand::SetLayerProps(id, Layer { width_um, ..layer })),
            None => None,
        },
        LayerEvent::SetLinetype(id, linetype) => match find_layer(layers, id) {
            Some(layer) => Some(LayerCommand::SetLayerProps(id, Layer { linetype, ..layer })),
            None => None,
        },
        LayerEvent::ToFront(id) => {
            let rows = layer_rows(layers);
            assert(rows@.reverse().len() == layers@.len());
            let plan = front_order_plan(id, &rows);
            assert(is_front_plan(rows@, id, plan@));
            if plan.len() > 0 {
                Some(LayerCommand::SetOrders(plan))
            } else {
                None
            }
        },
        LayerEvent::ToBack(id) => {
            let rows = layer_rows(layers);
            assert(rows@.reverse().len() == layers@.len());
            let plan = back_order_plan(id, &rows);
            assert(is_back_plan(rows@, id, plan@));
            if plan.len() > 0 {
                Some(LayerCommand::SetOrders(plan))
            } else {
                None
            }
        },
        LayerEvent::Remove(id) => if id == default_layer {
            None
        } else {
            Some(LayerCommand::RemoveLayer(id))
        },
    }
}

/// The message on a change of the layers that the drawing refused.
pub fn layer_failure(command: &LayerCommand, reason: &str) -> (r: String)
    ensures
        r@ == if command is AddLayer {
            "レイヤーの追加に失敗しました: "@ + reason@
        } else {
            "レイヤー操作に失敗しました: "@ + reason@
        },
{
    match command {
        LayerCommand::AddLayer(_) => "レイヤーの追加に失敗しました: ".to_owned().concat(reason),
        _ => "レイヤー操作に失敗しました: ".to_owned().concat(reason),
    }
}

/// How many line widths are offered.
pub const LINE_WIDTH_PRESET_COUNT: usize = 9;

/// The line widths that are offered, in micrometres.
pub open spec fn offered_width(i: int) -> u32 {
    if i == 0 {
        130
    } else if i == 1 {
        180
    } else if i == 2 {
        250
    } else if i == 3 {
        350
    } else if i == 4 {
        500
    } else if i == 5 {
        700
    } else if i == 6 {
        1000
    } else if i == 7 {
        1400
    } else {
        2000
    }
}

/// The line width, in micrometres, that is offered in the given place.
pub fn line_width_preset(i: usize) -> (r: u32)
    requires
        i < LINE_WIDTH_PRESET_COUNT,
    ensures
        r == offered_width(i as int),
{
    match i {
        0 => 130,
        1 => 180,
        2 => 250,
        3 => 350,
        4 => 500,
        5 => 700,
        6 => 1000,
        7 => 1400,
        _ => 2000,
    }
}

/// The line width that a click on an offered one asks for: none where it is the
/// width at hand.
pub fn choose_width(current_um: u32, i: usize) -> (r: Option<u32>)
    requires
        i < LINE_WIDTH_PRESET_COUNT,
    ensures
        r == if offered_width(i as int) == current_um {
            None
        } else {
            Some(offered_width(i as int))
        },
{
    let preset: u32 = line_width_preset(i);
    if preset == current_um {
        None
    } else {
        Some(preset)
    }
}

/// The line type that a click asks for: none where it is the one at hand.
pub fn choose_linetype(current: Linetype, clicked: Linetype) -> (r: Option<Linetype>)
    ensures
        r == if clicked == current {
            None
        } else {
            Some(clicked)
        },
{
    if clicked == current {
        None
    } else {
        Some(clicked)
    }
}

/// The line widths that are offered rise, so no two are the same; all new layers
/// have one of them.
pub proof fn lemma_offered_widths()
    ensures
        forall|i: int, j: int|
            0 <= i < j < LINE_WIDTH_PRESET_COUNT ==> #[trigger] offered_width(i)
                < #[trigger] offered_width(j),
        forall|k: int|
            0 <= k < default_layers().len() ==> exists|i: int|
                0 <= i < LINE_WIDTH_PRESET_COUNT && #[trigger] offered_width(i) == (
                #[trigger] default_layers()[k]).width_um,
{
    assert(offered_width(0) == 130);
    assert(offered_width(1) == 180);
    assert(offered_width(3) == 350);
}

/// An entity that might be drawn.
#[derive(Clone, Copy, Debug, PartialEq, Eq, Structural)]
pub struct DrawCandidate {
    pub id: u64,
    pub layer: u64,
    /// Whether its bounds meet the visible part of the drawing.
    pub in_view: bool,
}

/// Whether a candidate is drawn: it is in view and its layer exists and shows.
pub open spec fn is_drawn(layers: Seq<LayerEntry>, candidate: DrawCandidate) -> bool {
    candidate.in_view && (layer_at(layers, candidate.layer) matches Some(layer) && layer.visible)
}

/// The entities that are drawn, with the orders of their layers, in the order in
/// which they were added.
pub open spec fn drawn(layers: Seq<LayerEntry>, candidates: Seq<DrawCandidate>) -> Seq<(u64, i32)>
    decreases candidates.len(),
{
    if candidates.len() == 0 {
        Seq::empty()
    } else {
        let before = drawn(layers, candidates.drop_last());
        let last = candidates.last();
        if is_drawn(layers, last) {
            before.push((last.id, layer_at(layers, last.layer)->0.order))
        } else {
            before
        }
    }
}

/// The entities to draw from the back to the front: by the order of their
/// layers, and on layers of equal order as they were added.
pub fn entities_in_draw_order(layers: &Vec<LayerEntry>, candidates: &Vec<DrawCandidate>) -> (r: Vec<
    (u64, i32),
>)
    ensures
        stable_sort_of(drawn(layers@, candidates@), r@),
{
    let mut shown: Vec<(u64, i32)> = Vec::new();
    let mut i: usize = 0;
    assert(candidates@.take(0) =~= Seq::empty());
    while i < candidates.len()
        invariant
            i <= candidates@.len(),
            shown@ == drawn(layers@, candidates@.take(i as int)),
        decreases candidates@.len() - i,
    {
        assert(candidates@.take(i + 1).drop_last() =~= candidates@.take(i as int));
        let candidate = candidates[i];
        if candidate.in_view {
            match find_layer(layers, candidate.layer) {
                Some(layer) => {
                    if layer.visible {
                        shown.push((candidate.id, layer.order));
                    }
                },
                None => {},
            }
        }
        i = i + 1;
    }
    assert(candidates@.take(candidates@.len() as int) =~= candidates@);
    sort_by_order(&shown)
}

/// The style of an entity; what is not set comes from its layer.
#[derive(Clone, Copy, Debug, PartialEq, Eq, Structural)]
pub struct Style {
    pub color: Option<Rgb>,
    pub width_um: Option<u32>,
    pub linetype: Option<Linetype>,
}

/// What an entity is drawn with.
#[derive(Clone, Copy, Debug, PartialEq, Eq, Structural)]
pub struct Pen {
    pub color: Rgb,
    pub width_um: u32,
    pub linetype: Linetype,
}

/// What an entity is drawn with: what its style sets, and else what its layer has.
/// Only shapes are drawn in other line types than the continuous one.
pub open spec fn pen_of(style: Style, layer: LayerView, is_shape: bool) -> Pen {
    Pen {
        color: match style.color {
            Some(color) => color,
            None => layer.color,
        },
        width_um: match style.width_um {
            Some(width) => width,
            None => layer.width_um,
        },
        linetype: if !is_shape {
            Linetype::Continuous
        } else {
            match style.linetype {
                Some(linetype) => linetype,
                None => layer.linetype,
            }
        },
    }
}

/// What an entity is drawn with.
pub fn entity_pen(style: Style, layer: &Layer, is_shape: bool) -> (r: Pen)
    ensures
        r == pen_of(style, layer@, is_shape),
{
    let color = match style.color {
        Some(color) => color,
        None => layer.color,
    };
    let width_um: u32 = match style.width_um {
        Some(width) => width,
        None => layer.width_um,
    };
    let linetype = match style.linetype {
        Some(linetype) => linetype,
        None => layer.linetype,
    };
    Pen {
        color,
        width_um,
        linetype: if is_shape {
            linetype
        } else {
            Linetype::Continuous
        },
    }
}

/// A selected entity, with what the style panel shows of it.
#[derive(Clone, Copy, Debug, PartialEq, Eq, Structural)]
pub struct StyledEntity {
    pub id: u64,
    pub layer: u64,
    pub style: Style,
}

/// What the style panel shows of the selection: the style in effect on the first
/// entity, and the common layer or that there are several.
pub struct StyleSummary {
    pub width_um: u32,
    pub linetype: Linetype,
    /// Whether the width can be given back to the layer.
    pub width_is_overridden: bool,
    /// Whether the line type can be given back to the layer.
    pub linetype_is_overridden: bool,
    /// Whether all entities are on the layer of the first.
    pub layer_is_uniform: bool,
    pub layer_label: String,
}

/// Whether all entities are on the layer of the first.
pub open spec fn on_one_layer(live: Seq<StyledEntity>) -> bool {
    forall|i: int| 0 <= i < live.len() ==> (#[trigger] live[i]).layer == live[0].layer
}

/// Whether a summary is that of the selection: there is none for an empty one, nor
/// where the first entity's layer is unknown.
pub open spec fn sums_up(
    layers: Seq<LayerEntry>,
    live: Seq<StyledEntity>,
    r: Option<StyleSummary>,
) -> bool {
    match r {
        None => live.len() == 0 || layer_at(layers, live[0].layer) is None,
        Some(summary) => live.len() > 0 && (layer_at(layers, live[0].layer) matches Some(layer)
            && {
            let style = live[0].style;
            let pen = pen_of(style, layer, true);
            &&& summary.width_um == pen.width_um
            &&& summary.linetype == pen.linetype
            &&& summary.width_is_overridden == (style.width_um is Some)
            &&& summary.linetype_is_overridden == (style.linetype is Some)
            &&& summary.layer_is_uniform == on_one_layer(live)
            &&& summary.layer_label@ == if on_one_layer(live) {
                layer.name
            } else {
                "混在"@
            }
        }),
    }
}

/// What the style panel shows of the selection. There is nothing to show for an
/// empty selection, nor where the first entity's layer is unknown.
pub fn style_summary(layers: &Vec<LayerEntry>, live: &Vec<StyledEntity>) -> (r: Option<
    StyleSummary,
>)
    ensures
        sums_up(layers@, live@, r),
{
    if live.len() == 0 {
        return None;
    }
    let first = live[0];
    let layer = match find_layer(layers, first.layer) {
        Some(layer) => layer,
        None => {
            return None;
        },
    };
    let mut uniform: bool = true;
    let mut i: usize = 0;
    while i < live.len()
        invariant
            i <= live@.len(),
            live@.len() > 0,
            first == live@[0],
            uniform == (forall|j: int|
                0 <= j < i ==> (#[trigger] live@[j]).layer == live@[0].layer),
        decreases live@.len() - i,
    {
        if live[i].layer != first.layer {
            uniform = false;
        }
        i = i + 1;
    }
    let pen = entity_pen(first.style, &layer, true);
    let layer_label = if uniform {
        layer.name
    } else {
        "混在".to_owned()
    };
    Some(
        StyleSummary {
            width_um: pen.width_um,
            linetype: pen.linetype,
            width_is_overridden: first.style.width_um.is_some(),
            linetype_is_overridden: first.style.linetype.is_some(),
            layer_is_uniform: uniform,
            layer_label,
        },
    )
}

/// The moves to a layer: one for each entity that is on another.
pub open spec fn moves_to(live: Seq<StyledEntity>, layer: u64) -> Seq<(u64, u64)>
    decreases live.len(),
{
    if live.len() == 0 {
        Seq::empty()
    } else {
        let before = moves_to(live.drop_last(), layer);
        if live.last().layer != layer {
            before.push((live.last().id, layer))
        } else {
            before
        }
    }
}

/// The moves that put the selected entities on a layer, as identities of entity
/// and layer; entities that are on it already do not move.
pub fn move_to_layer(live: &Vec<StyledEntity>, layer: u64) -> (r: Vec<(u64, u64)>)
    ensures
        r@ == moves_to(live@, layer),
{
    let mut r: Vec<(u64, u64)> = Vec::new();
    let mut i: usize = 0;
    assert(live@.take(0) =~= Seq::empty());
    while i < live.len()
        invariant
            i <= live@.len(),
            r@ == moves_to(live@.take(i as int), layer),
        decreases live@.len() - i,
    {
        assert(live@.take(i + 1).drop_last() =~= live@.take(i as int));
        if live[i].layer != layer {
            r.push((live[i].id, layer));
        }
        i = i + 1;
    }
    assert(live@.take(live@.len() as int) =~= live@);
    r
}

/// The styles of entities with the line width set, or left to the layers.
pub open spec fn with_width(live: Seq<StyledEntity>, width_um: Option<u32>) -> Seq<(u64, Style)> {
    Seq::new(live.len(), |i: int| (live[i].id, (Style { width_um, ..live[i].style })))
}

/// The styles of entities with the line type set, or left to the layers.
pub open spec fn with_linetype(live: Seq<StyledEntity>, linetype: Option<Linetype>) -> Seq<
    (u64, Style),
> {
    Seq::new(live.len(), |i: int| (live[i].id, (Style { linetype, ..live[i].style })))
}

/// The styles that give all selected entities a line width, or give it back to
/// their layers; nothing else of a style changes.
pub fn restyle_width(live: &Vec<StyledEntity>, width_um: Option<u32>) -> (r: Vec<(u64, Style)>)
    ensures
        r@ == with_width(live@, width_um),
{
    let mut r: Vec<(u64, Style)> = Vec::new();
    let mut i: usize = 0;
    while i < live.len()
        invariant
            i <= live@.len(),
            r@ == Seq::new(i as nat, |j: int| (live@[j].id, (Style { width_um, ..live@[j].style }))),
        decreases live@.len() - i,
    {
        r.push((live[i].id, Style { width_um, ..live[i].style }));
        i = i + 1;
        assert(r@ =~= Seq::new(
            i as nat,
            |j: int| (live@[j].id, (Style { width_um, ..live@[j].style })),
        ));
    }
    assert(r@ =~= with_width(live@, width_um));
    r
}

/// The styles that give all selected entities a line type, or give it back to
/// their layers; nothing else of a style changes.
pub fn restyle_linetype(live: &Vec<StyledEntity>, linetype: Option<Linetype>) -> (r: Vec<
    (u64, Style),
>)
    ensures
        r@ == with_linetype(live@, linetype),
{
    let mut r: Vec<(u64, Style)> = Vec::new();
    let mut i: usize = 0;
    while i < live.len()
        invariant
            i <= live@.len(),
            r@ == Seq::new(i as nat, |j: int| (live@[j].id, (Style { linetype, ..live@[j].style }))),
        decreases live@.len() - i,
    {
        r.push((live[i].id, Style { linetype, ..live[i].style }));
        i = i + 1;
        assert(r@ =~= Seq::new(
            i as nat,
            |j: int| (live@[j].id, (Style { linetype, ..live@[j].style })),
        ));
    }
    assert(r@ =~= with_linetype(live@, linetype));
    r
}

/// The message on a change of styles that the drawing refused.
pub fn style_failure(reason: &str) -> (r: String)
    ensures
        r@ == "スタイルの変更に失敗しました: "@ + reason@,
{
    "スタイルの変更に失敗しました: ".to_owned().concat(reason)
}

/// A drawing with the layers of a new drawing sends dimensions and texts to the
/// layers named for them, and draws on the outline layer otherwise.
pub proof fn lemma_new_drawing_tool_layers(layers: Seq<LayerEntry>, kind: ToolKind)
    requires
        layers.len() == 5,
        forall|i: int| 0 <= i < 5 ==> (#[trigger] layers[i]).layer@ == default_layers()[i],
    ensures
        match tool_layer_name(kind) {
            Some(name) => first_named(layers, name) == Some(
                if kind == ToolKind::Text {
                    layers[4].id
                } else {
                    layers[3].id
                },
            ),
            None => first_named(layers, "外形線"@) == Some(layers[2].id),
        },
{
    lemma_default_layers();
    reveal_with_fuel(first_named, 6);
    assert(layers[0].layer@ == default_layers()[0]);
    assert(layers[1].layer@ == default_layers()[1]);
    assert(layers[2].layer@ == default_layers()[2]);
    assert(layers[3].layer@ == default_layers()[3]);
    assert(layers[4].layer@ == default_layers()[4]);
    let l4 = layers.drop_last();
    let l3 = l4.drop_last();
    let l2 = l3.drop_last();
    let l1 = l2.drop_last();
    assert(l4.last() == layers[3]);
    assert(l3.last() == layers[2]);
    assert(l2.last() == layers[1]);
    assert(l1.last() == layers[0]);
    assert(l1.drop_last().len() == 0);
}

/// What a new drawing starts with besides its layer 0.
pub struct NewDrawing {
    /// The layers to be added, from the back.
    pub layers: Vec<Layer>,
    /// The place in `layers` of the layer that is drawn on.
    pub current: usize,
    pub sheet: SheetMeta,
}

/// What a new drawing starts with: the default layers, the outline layer to draw
/// on, and the given sheet.
pub fn fresh_document(sheet: SheetMeta) -> (r: NewDrawing)
    ensures
        layer_views(r.layers@) == default_layers(),
        r.current == 2,
        default_layers()[r.current as int].name == "外形線"@,
        r.sheet == sheet,
{
    proof {
        lemma_default_layers();
    }
    NewDrawing { layers: default_extra_layers(), current: 2, sheet }
}

proof fn lemma_layer_at_first(layers: Seq<LayerEntry>, id: u64, k: int)
    requires
        0 <= k < layers.len(),
        layers[k].id == id,
        forall|i: int| 0 <= i < k ==> (#[trigger] layers[i]).id != id,
    ensures
        layer_at(layers, id) == Some(layers[k].layer@),
    decreases layers.len(),
{
    let head = layers.drop_last();
    if k < head.len() {
        assert(head[k] == layers[k]);
        assert forall|i: int| 0 <= i < k implies (#[trigger] head[i]).id != id by {
            assert(head[i] == layers[i]);
        }
        lemma_layer_at_first(head, id, k);
    } else {
        assert forall|i: int| 0 <= i < head.len() implies (#[trigger] head[i]).id != id by {
            assert(head[i] == layers[i]);
        }
        lemma_layer_at_none(head, id);
    }
}

proof fn lemma_layer_at_none(layers: Seq<LayerEntry>, id: u64)
    ensures
        layer_at(layers, id) is None <==> forall|i: int|
            0 <= i < layers.len() ==> (#[trigger] layers[i]).id != id,
    decreases layers.len(),
{
    if layers.len() > 0 {
        let head = layers.drop_last();
        lemma_layer_at_none(head, id);
        assert(layers[layers.len() - 1] == layers.last());
        if layer_at(layers, id) is None {
            assert forall|i: int| 0 <= i < layers.len() implies (#[trigger] layers[i]).id != id by {
                if i < head.len() {
                    assert(head[i] == layers[i]);
                }
            }
        }
        if forall|i: int| 0 <= i < layers.len() ==> (#[trigger] layers[i]).id != id {
            assert forall|i: int| 0 <= i < head.len() implies (#[trigger] head[i]).id != id by {
                assert(head[i] == layers[i]);
            }
        }
    }
}

/// An identity leads to the first layer that has it, and to none exactly where no
/// layer has it.
pub proof fn lemma_layer_found(layers: Seq<LayerEntry>, id: u64)
    ensures
        match layer_at(layers, id) {
            Some(layer) => exists|k: int|
                0 <= k < layers.len() && (#[trigger] layers[k]).id == id && layers[k].layer@
                    == layer && forall|i: int| 0 <= i < k ==> (#[trigger] layers[i]).id != id,
            None => forall|i: int| 0 <= i < layers.len() ==> (#[trigger] layers[i]).id != id,
        },
    decreases layers.len(),
{
    lemma_layer_at_none(layers, id);
    if layers.len() > 0 && layer_at(layers, id) is Some {
        let head = layers.drop_last();
        lemma_layer_found(head, id);
        lemma_layer_at_none(head, id);
        let k = match layer_at(head, id) {
            Some(layer) => choose|k: int|
                0 <= k < head.len() && (#[trigger] head[k]).id == id && head[k].layer@ == layer
                    && forall|i: int| 0 <= i < k ==> (#[trigger] head[i]).id != id,
            None => head.len() as int,
        };
        assert(layers[k].id == id);
        assert forall|i: int| 0 <= i < k implies (#[trigger] layers[i]).id != id by {
            assert(layers[i] == head[i]);
        }
    }
}

/// A name leads to the first layer that has it, and to none exactly where no layer
/// has it.
pub proof fn lemma_name_found(layers: Seq<LayerEntry>, name: Seq<char>)
    ensures
        match first_named(layers, name) {
            Some(id) => exists|k: int|
                0 <= k < layers.len() && (#[trigger] layers[k]).layer.name@ == name && layers[k].id
                    == id && forall|i: int|
                    0 <= i < k ==> (#[trigger] layers[i]).layer.name@ != name,
            None => forall|i: int|
                0 <= i < layers.len() ==> (#[trigger] layers[i]).layer.name@ != name,
        },
    decreases layers.len(),
{
    if layers.len() > 0 {
        let head = layers.drop_last();
        lemma_name_found(head, name);
        assert forall|i: int| 0 <= i < head.len() implies head[i] == #[trigger] layers[i] by {}
        match first_named(head, name) {
            Some(id) => {
                let k = choose|k: int|
                    0 <= k < head.len() && (#[trigger] head[k]).layer.name@ == name && head[k].id
                        == id && forall|i: int|
                        0 <= i < k ==> (#[trigger] head[i]).layer.name@ != name;
                assert(layers[k].layer.name@ == name);
                assert forall|i: int| 0 <= i < k implies (#[trigger] layers[i]).layer.name@
                    != name by {
                    assert(layers[i] == head[i]);
                }
            },
            None => {
                assert forall|i: int| 0 <= i < head.len() implies (#[trigger] layers[i]).layer.name@
                    != name by {
                    assert(layers[i] == head[i]);
                }
                assert(layers[layers.len() - 1] == layers.last());
            },
        }
    }
}

proof fn lemma_drawn_has(layers: Seq<LayerEntry>, candidates: Seq<DrawCandidate>, k: int)
    requires
        0 <= k < candidates.len(),
        candidates[k].in_view,
        layer_at(layers, candidates[k].layer) matches Some(layer) && layer.visible,
    ensures
        drawn(layers, candidates).contains(
            (candidates[k].id, layer_at(layers, candidates[k].layer)->0.order),
        ),
    decreases candidates.len(),
{
    let before = drawn(layers, candidates.drop_last());
    let all = drawn(layers, candidates);
    let item = (candidates[k].id, layer_at(layers, candidates[k].layer)->0.order);
    if k < candidates.len() - 1 {
        lemma_drawn_has(layers, candidates.drop_last(), k);
        let i = before.index_of(item);
        assert(all[i] == before[i]);
    } else {
        assert(all[before.len() as int] == item);
    }
}

proof fn lemma_drawn_from(layers: Seq<LayerEntry>, candidates: Seq<DrawCandidate>, i: int) -> (k: int)
    requires
        0 <= i < drawn(layers, candidates).len(),
    ensures
        0 <= k < candidates.len(),
        candidates[k].in_view,
        drawn(layers, candidates)[i].0 == candidates[k].id,
        layer_at(layers, candidates[k].layer) matches Some(layer) && layer.visible && layer.order
            == drawn(layers, candidates)[i].1,
    decreases candidates.len(),
{
    let before = drawn(layers, candidates.drop_last());
    if i < before.len() {
        lemma_drawn_from(layers, candidates.drop_last(), i)
    } else {
        candidates.len() - 1
    }
}

/// Whether a visible layer with the given identity is the first with it.
pub open spec fn shows_at(layers: Seq<LayerEntry>, id: u64, j: int) -> bool {
    &&& 0 <= j < layers.len()
    &&& layers[j].id == id
    &&& layers[j].layer.visible
    &&& forall|i: int| 0 <= i < j ==> (#[trigger] layers[i]).id != id
}

/// Whatever is in view and on a visible layer is drawn, at the place of that layer
/// in the stack, whatever else the layer is; a locked layer shows like any other.
pub proof fn lemma_visible_is_drawn(
    layers: Seq<LayerEntry>,
    candidates: Seq<DrawCandidate>,
    r: Seq<(u64, i32)>,
    k: int,
    j: int,
)
    requires
        stable_sort_of(drawn(layers, candidates), r),
        0 <= k < candidates.len(),
        candidates[k].in_view,
        shows_at(layers, candidates[k].layer, j),
    ensures
        r.contains((candidates[k].id, layers[j].layer.order)),
{
    lemma_layer_at_first(layers, candidates[k].layer, j);
    lemma_drawn_has(layers, candidates, k);
    let s = drawn(layers, candidates);
    let item = (candidates[k].id, layers[j].layer.order);
    s.to_multiset_ensures();
    r.to_multiset_ensures();
    assert(s.to_multiset().count(item) > 0);
}

/// Nothing else is drawn: each item that is drawn is a candidate in view, on a
/// visible layer of the order that it is drawn at. The items come from the back to
/// the front, and those at one place as they were added.
pub proof fn lemma_only_visible_is_drawn(
    layers: Seq<LayerEntry>,
    candidates: Seq<DrawCandidate>,
    r: Seq<(u64, i32)>,
    i: int,
)
    requires
        stable_sort_of(drawn(layers, candidates), r),
        0 <= i < r.len(),
    ensures
        exists|k: int, j: int|
            0 <= k < candidates.len() && candidates[k].in_view && (#[trigger] candidates[k]).id
                == r[i].0 && shows_at(layers, candidates[k].layer, j) && (
            #[trigger] layers[j]).layer.order == r[i].1,
        forall|j: int| i < j < r.len() ==> r[i].1 <= (#[trigger] r[j]).1,
        r.len() <= candidates.len(),
{
    let s = drawn(layers, candidates);
    s.to_multiset_ensures();
    r.to_multiset_ensures();
    assert(r.contains(r[i]));
    assert(s.to_multiset().count(r[i]) > 0);
    assert(s.contains(r[i]));
    let k = lemma_drawn_from(layers, candidates, s.index_of(r[i]));
    lemma_layer_found(layers, candidates[k].layer);
    let layer = layer_at(layers, candidates[k].layer)->0;
    let j = choose|j: int|
        0 <= j < layers.len() && (#[trigger] layers[j]).id == candidates[k].layer
            && layers[j].layer@ == layer && forall|i: int|
            0 <= i < j ==> (#[trigger] layers[i]).id != candidates[k].layer;
    assert(shows_at(layers, candidates[k].layer, j));
    assert(candidates[k].id == r[i].0 && layers[j].layer.order == r[i].1);
    lemma_drawn_is_short(layers, candidates);
}

proof fn lemma_drawn_is_short(layers: Seq<LayerEntry>, candidates: Seq<DrawCandidate>)
    ensures
        drawn(layers, candidates).len() <= candidates.len(),
    decreases candidates.len(),
{
    if candidates.len() > 0 {
        lemma_drawn_is_short(layers, candidates.drop_last());
    }
}

/// Each candidate is drawn or not on its own: more candidates add what they would
/// draw alone, and take nothing away.
pub proof fn lemma_drawn_in_turn(
    layers: Seq<LayerEntry>,
    first: Seq<DrawCandidate>,
    second: Seq<DrawCandidate>,
)
    ensures
        drawn(layers, first + second) == drawn(layers, first) + drawn(layers, second),
    decreases second.len(),
{
    if second.len() == 0 {
        assert(first + second =~= first);
        assert(drawn(layers, first) + drawn(layers, second) =~= drawn(layers, first));
    } else {
        lemma_drawn_in_turn(layers, first, second.drop_last());
        assert((first + second).drop_last() =~= first + second.drop_last());
        assert((first + second).last() == second.last());
        assert(drawn(layers, first + second) =~= drawn(layers, first) + drawn(layers, second));
    }
}

/// Whether two lists have the same layers, as far as identity, visibility and
/// order go.
pub open spec fn alike_to_draw(a: Seq<LayerEntry>, b: Seq<LayerEntry>) -> bool {
    a.len() == b.len() && forall|i: int|
        0 <= i < a.len() ==> (#[trigger] a[i]).id == b[i].id && a[i].layer.visible
            == b[i].layer.visible && a[i].layer.order == b[i].layer.order
}

/// What is drawn, and in which order, depends on nothing of a layer but that it
/// shows and its order: name, colour, line type, width and lock do not matter.
pub proof fn lemma_drawing_ignores_other_properties(
    a: Seq<LayerEntry>,
    b: Seq<LayerEntry>,
    candidates: Seq<DrawCandidate>,
)
    requires
        alike_to_draw(a, b),
    ensures
        drawn(a, candidates) == drawn(b, candidates),
    decreases candidates.len(),
{
    if candidates.len() > 0 {
        let last = candidates.last();
        lemma_drawing_ignores_other_properties(a, b, candidates.drop_last());
        lemma_layer_at_none(a, last.layer);
        lemma_layer_at_none(b, last.layer);
        lemma_layer_found(a, last.layer);
        match layer_at(a, last.layer) {
            Some(layer) => {
                let k = choose|k: int|
                    0 <= k < a.len() && (#[trigger] a[k]).id == last.layer && a[k].layer@ == layer
                        && forall|i: int| 0 <= i < k ==> (#[trigger] a[i]).id != last.layer;
                assert(b[k].id == a[k].id);
                assert forall|i: int| 0 <= i < k implies (#[trigger] b[i]).id != last.layer by {
                    assert(a[i].id == b[i].id);
                }
                lemma_layer_at_first(b, last.layer, k);
            },
            None => {
                assert forall|i: int| 0 <= i < b.len() implies (#[trigger] b[i]).id
                    != last.layer by {
                    assert(a[i].id == b[i].id);
                }
            },
        }
    }
}

/// A change of one layer sets what was asked for on the layer that was meant, and
/// keeps all else of it; a layer that the drawing does not have is not changed.
pub proof fn lemma_layer_change(
    layers: Seq<LayerEntry>,
    current: u64,
    default_layer: u64,
    event: LayerEvent,
    command: Option<LayerCommand>,
    id: u64,
)
    requires
        is_layer_command(layers, current, default_layer, event, command),
        match event {
            LayerEvent::SetColor(e, _) => e == id,
            LayerEvent::SetVisible(e, _) => e == id,
            LayerEvent::SetLocked(e, _) => e == id,
            LayerEvent::SetWidth(e, _) => e == id,
            LayerEvent::SetLinetype(e, _) => e == id,
            _ => false,
        },
    ensures
        command is None <==> forall|i: int|
            0 <= i < layers.len() ==> (#[trigger] layers[i]).id != id,
        command matches Some(c) ==> (c matches LayerCommand::SetLayerProps(cid, new) && cid == id
            && exists|k: int|
            0 <= k < layers.len() && (#[trigger] layers[k]).id == id && {
                let old = layers[k].layer;
                &&& new.name@ == old.name@
                &&& new.order == old.order
                &&& event matches LayerEvent::SetColor(_, color) ==> new.color == color
                &&& event matches LayerEvent::SetVisible(_, visible) ==> new.visible == visible
                &&& event matches LayerEvent::SetLocked(_, locked) ==> new.locked == locked
                &&& event matches LayerEvent::SetWidth(_, width) ==> new.width_um == width
                &&& event matches LayerEvent::SetLinetype(_, linetype) ==> new.linetype == linetype
                &&& !(event is SetColor) ==> new.color == old.color
                &&& !(event is SetVisible) ==> new.visible == old.visible
                &&& !(event is SetLocked) ==> new.locked == old.locked
                &&& !(event is SetWidth) ==> new.width_um == old.width_um
                &&& !(event is SetLinetype) ==> new.linetype == old.linetype
            }),
{
    lemma_layer_found(layers, id);
    lemma_layer_at_none(layers, id);
    match layer_at(layers, id) {
        Some(layer) => {
            let k = choose|k: int|
                0 <= k < layers.len() && (#[trigger] layers[k]).id == id && layers[k].layer@
                    == layer;
            assert(layers[k].id == id);
        },
        None => {},
    }
}

/// A layer that is added shows, can be edited, and lies in front of all others,
/// unless one is at the very front already.
pub proof fn lemma_added_layer_is_in_front(
    layers: Seq<LayerEntry>,
    current: u64,
    default_layer: u64,
    command: Option<LayerCommand>,
    i: int,
)
    requires
        is_layer_command(layers, current, default_layer, LayerEvent::Add, command),
        0 <= i < layers.len(),
    ensures
        command matches Some(LayerCommand::AddLayer(new)) && new.visible && !new.locked && (
        new.order > layers[i].layer.order || new.order == i32::MAX),
        command matches Some(LayerCommand::AddLayer(new)) && (new.order == i32::MAX
            || exists|j: int|
            0 <= j < layers.len() && (#[trigger] layers[j]).layer.order == new.order - 1),
        command matches Some(LayerCommand::AddLayer(new)) && new.linetype == Linetype::Continuous
            && new.width_um == 350 && new.name@.len() > 6 && new.name@.subrange(
            6,
            new.name@.len() as int,
        ) == decimal_text(layers.len()),
{
    let order = command->0->AddLayer_0.order;
    let name = command->0->AddLayer_0.name@;
    reveal_strlit("Layer ");
    crate::text::lemma_decimal_text(layers.len());
    assert(name.subrange(6, name.len() as int) =~= decimal_text(layers.len()));
    let items = orders_of(layers);
    let max = choose|max: i32| #[trigger]
        is_greatest(items, max) && order == if max == i32::MAX {
            i32::MAX as int
        } else {
            max + 1
        };
    assert(items[i].1 == layers[i].layer.order);
    let j = choose|j: int| 0 <= j < items.len() && (#[trigger] items[j]).1 == max;
    assert(layers[j].layer.order == max);
}

/// The default layer is never removed, and what is current already is not made so
/// again; every other layer is removed or made current when that is asked for.
pub proof fn lemma_layer_requests(
    layers: Seq<LayerEntry>,
    current: u64,
    default_layer: u64,
    id: u64,
    removed: Option<LayerCommand>,
    made: Option<LayerCommand>,
)
    requires
        is_layer_command(layers, current, default_layer, LayerEvent::Remove(id), removed),
        is_layer_command(layers, current, default_layer, LayerEvent::MakeCurrent(id), made),
    ensures
        removed != Some(LayerCommand::RemoveLayer(default_layer)),
        id != default_layer ==> removed == Some(LayerCommand::RemoveLayer(id)),
        made != Some(LayerCommand::SetCurrentLayer(current)),
        id != current ==> made == Some(LayerCommand::SetCurrentLayer(id)),
{
}

/// What a style sets is drawn, whatever the layer has; what it does not set follows
/// the layer. Only shapes are drawn in a line type.
pub proof fn lemma_style_over_layer(style: Style, layer: LayerView, is_shape: bool)
    ensures
        style.color matches Some(color) ==> pen_of(style, layer, is_shape).color == color,
        style.width_um matches Some(width) ==> pen_of(style, layer, is_shape).width_um == width,
        style.linetype matches Some(linetype) ==> pen_of(style, layer, true).linetype == linetype,
        style.color is None ==> pen_of(style, layer, is_shape).color == layer.color,
        style.width_um is None ==> pen_of(style, layer, is_shape).width_um == layer.width_um,
        style.linetype is None ==> pen_of(style, layer, true).linetype == layer.linetype,
        pen_of(style, layer, false).linetype == Linetype::Continuous,
        pen_of(style, layer, false).color == pen_of(style, layer, true).color,
        pen_of(style, layer, false).width_um == pen_of(style, layer, true).width_um,
{
}

/// Every entity that is on another layer is moved to the given one, in turn, and no
/// other entity is.
pub proof fn lemma_all_are_moved(live: Seq<StyledEntity>, layer: u64)
    ensures
        forall|i: int|
            0 <= i < live.len() && (#[trigger] live[i]).layer != layer ==> moves_to(
                live,
                layer,
            ).contains((live[i].id, layer)),
        forall|k: int|
            0 <= k < moves_to(live, layer).len() ==> (#[trigger] moves_to(live, layer)[k]).1
                == layer && exists|i: int|
                0 <= i < live.len() && (#[trigger] live[i]).id == moves_to(live, layer)[k].0
                    && live[i].layer != layer,
        moves_to(live, layer).len() <= live.len(),
    decreases live.len(),
{
    if live.len() > 0 {
        let head = live.drop_last();
        let before = moves_to(head, layer);
        let all = moves_to(live, layer);
        lemma_all_are_moved(head, layer);
        assert forall|i: int| 0 <= i < live.len() && (#[trigger] live[i]).layer
            != layer implies all.contains((live[i].id, layer)) by {
            if i < head.len() {
                assert(head[i] == live[i]);
                let k = before.index_of((live[i].id, layer));
                assert(all[k] == before[k]);
            } else {
                assert(all[before.len() as int] == (live[i].id, layer));
            }
        }
        assert forall|k: int| 0 <= k < all.len() implies (#[trigger] all[k]).1 == layer && exists|
            i: int,
        |
            0 <= i < live.len() && (#[trigger] live[i]).id == all[k].0 && live[i].layer != layer by {
            if k < before.len() {
                assert(all[k] == before[k]);
                let i = choose|i: int|
                    0 <= i < head.len() && (#[trigger] head[i]).id == before[k].0 && head[i].layer
                        != layer;
                assert(live[i] == head[i]);
            } else {
                assert(live[live.len() - 1].id == all[k].0);
            }
        }
    }
}

/// Giving a width or a line type to the selection reaches every entity of it, in
/// turn: what it is drawn with then has it, whatever its layer has, and nothing else
/// changes. Giving it back lets the layer decide.
pub proof fn lemma_restyling_reaches_all(
    live: Seq<StyledEntity>,
    width_um: Option<u32>,
    linetype: Option<Linetype>,
    layer: LayerView,
    i: int,
)
    requires
        0 <= i < live.len(),
    ensures
        with_width(live, width_um).len() == live.len(),
        with_linetype(live, linetype).len() == live.len(),
        with_width(live, width_um)[i].0 == live[i].id,
        with_linetype(live, linetype)[i].0 == live[i].id,
        ({
            let before = pen_of(live[i].style, layer, true);
            let wide = pen_of(with_width(live, width_um)[i].1, layer, true);
            let typed = pen_of(with_linetype(live, linetype)[i].1, layer, true);
            &&& wide.width_um == (match width_um {
                Some(width) => width,
                None => layer.width_um,
            })
            &&& wide.color == before.color
            &&& wide.linetype == before.linetype
            &&& typed.linetype == (match linetype {
                Some(chosen) => chosen,
                None => layer.linetype,
            })
            &&& typed.color == before.color
            &&& typed.width_um == before.width_um
        }),
        with_width(live, width_um)[i].1.color == live[i].style.color,
        with_linetype(live, linetype)[i].1.color == live[i].style.color,
{
}

/// The panel shows what the first entity is drawn with, says whether that is its own,
/// and names its layer where all entities are on it. It shows something exactly where
/// something is selected whose layer exists.
pub proof fn lemma_summary_tells(
    layers: Seq<LayerEntry>,
    live: Seq<StyledEntity>,
    r: Option<StyleSummary>,
    k: int,
)
    requires
        sums_up(layers, live, r),
        live.len() > 0,
        0 <= k < layers.len(),
        layers[k].id == live[0].layer,
        forall|i: int| 0 <= i < k ==> (#[trigger] layers[i]).id != live[0].layer,
    ensures
        r matches Some(s) && {
            let layer = layers[k].layer;
            let style = live[0].style;
            &&& style.width_um matches Some(width) ==> s.width_um == width && s.width_is_overridden
            &&& style.width_um is None ==> s.width_um == layer.width_um && !s.width_is_overridden
            &&& style.linetype matches Some(own) ==> s.linetype == own && s.linetype_is_overridden
            &&& style.linetype is None ==> s.linetype == layer.linetype
                && !s.linetype_is_overridden
            &&& (forall|i: int| 0 <= i < live.len() ==> (#[trigger] live[i]).layer
                == layers[k].id) ==> s.layer_is_uniform && s.layer_label@ == layer.name@
            &&& (exists|i: int| 0 <= i < live.len() && (#[trigger] live[i]).layer
                != layers[k].id) ==> !s.layer_is_uniform && s.layer_label@ == "混在"@
        },
{
    lemma_layer_at_first(layers, live[0].layer, k);
}

/// Dimensions and texts go to the first layer named for them, and to the current one
/// where there is none; everything else goes to the current layer.
pub proof fn lemma_tool_layer(layers: Seq<LayerEntry>, current: u64, kind: ToolKind, k: int)
    requires
        0 <= k < layers.len(),
    ensures
        !(kind is DimLinear || kind is DimRadial || kind is DimDiameter || kind is Text)
            ==> tool_layer(layers, current, kind) == current,
        (kind is DimLinear || kind is DimRadial || kind is DimDiameter) && layers[k].layer.name@
            == "寸法線"@ && (forall|i: int|
            0 <= i < k ==> (#[trigger] layers[i]).layer.name@ != "寸法線"@) ==> tool_layer(
            layers,
            current,
            kind,
        ) == layers[k].id,
        kind is Text && layers[k].layer.name@ == "文字"@ && (forall|i: int|
            0 <= i < k ==> (#[trigger] layers[i]).layer.name@ != "文字"@) ==> tool_layer(
            layers,
            current,
            kind,
        ) == layers[k].id,
        kind is Text && (forall|i: int|
            0 <= i < layers.len() ==> (#[trigger] layers[i]).layer.name@ != "文字"@) ==> tool_layer(
            layers,
            current,
            kind,
        ) == current,
        (kind is DimLinear || kind is DimRadial || kind is DimDiameter) && (forall|i: int|
            0 <= i < layers.len() ==> (#[trigger] layers[i]).layer.name@ != "寸法線"@)
            ==> tool_layer(layers, current, kind) == current,
{
    lemma_name_found(layers, "寸法線"@);
    lemma_name_found(layers, "文字"@);
    if layers[k].layer.name@ == "寸法線"@ {
        if let Some(id) = first_named(layers, "寸法線"@) {
            let j = choose|j: int|
                0 <= j < layers.len() && (#[trigger] layers[j]).layer.name@ == "寸法線"@
                    && layers[j].id == id && forall|i: int|
                    0 <= i < j ==> (#[trigger] layers[i]).layer.name@ != "寸法線"@;
            if j > k {
                assert(layers[k].layer.name@ != "寸法線"@);
            }
        }
    }
    if layers[k].layer.name@ == "文字"@ {
        if let Some(id) = first_named(layers, "文字"@) {
            let j = choose|j: int|
                0 <= j < layers.len() && (#[trigger] layers[j]).layer.name@ == "文字"@
                    && layers[j].id == id && forall|i: int|
                    0 <= i < j ==> (#[trigger] layers[i]).layer.name@ != "文字"@;
            if j > k {
                assert(layers[k].layer.name@ != "文字"@);
            }
        }
    }
}

/// New layers take the colours in turn: six in a row have different ones, and the
/// next takes the first again.
pub proof fn lemma_colours_in_turn(i: int, j: int)
    ensures
        0 <= i < j < 6 ==> palette(i) != palette(j),
        i >= 0 && j == i + 6 ==> palette(i % 6) == palette(j % 6),
{
}

} // verus!
