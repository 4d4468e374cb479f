//! Switching the panel's settings tab: the options each tab lists, and
//! the form each tab (and each attribute) opens.

use vstd::prelude::*;
use crate::editor_attributes::{MapAttribute, InsertTypes, attribute_name, MAX_ATTRIBUTE, spec_int, spec_uint, spec_text};
use crate::interface::button::{Button, idle_button};
use crate::interface::panel::{Interface, MAX_TAB_LABEL, BUTTON_COUNT};
use crate::interface::scrollbar::{reset_scrollbar, track_of};
use crate::interface::selection_box::SelectionBox;
use crate::interface::tabtext::TabText;
use crate::interface::textbox::Textbox;
use crate::interface::tool_button::{ButtonState, after_state};
use crate::map_view::{MapView, zone_color, on_map_extent};
use crate::map_view::tools::{TAB_LAYER, TAB_ATTRIBUTE, TAB_ZONE, TAB_PROPERTIES};
use crate::map_view::zone_edit::{zone_covers, no_zone_color};
use crate::text::{decimal, signed_decimal, push_decimal, push_signed_decimal};

verus! {

/// The label giving the tab's options a header.
pub const LABEL_OPT_HEADER_TEXT: usize = 4;

/// How many layers a map has.
pub const LAYER_COUNT: usize = 8;

/// How many zones a map has.
pub const ZONE_COUNT: usize = 5;

/// The options a tab lists: the layers by name, the attribute kinds that
/// can be placed, or the zones.
pub open spec fn tab_options(tab: usize, layer_names: Seq<Seq<char>>) -> Seq<Seq<char>> {
    if tab == TAB_LAYER {
        layer_names.take(LAYER_COUNT as int)
    } else if tab == TAB_ATTRIBUTE {
        Seq::new((MAX_ATTRIBUTE - 1) as nat, |i: int| attribute_name((i + 1) as u32))
    } else if tab == TAB_ZONE {
        Seq::new(ZONE_COUNT as nat, |i: int| "Zone "@ + decimal((i + 1) as nat))
    } else {
        Seq::empty()
    }
}

/// The width of a tab's option buttons.
pub open spec fn option_width(tab: usize) -> u32 {
    if tab == TAB_ATTRIBUTE { 180 } else { 194 }
}

/// A hidden option is neither selected nor hovered, and shows its
/// first row.
pub open spec fn options_wf(labels: Seq<TabText>) -> bool {
    forall|i: int| 0 <= i < labels.len() ==> !(#[trigger] labels[i]).is_visible
        ==> !labels[i].is_selected && !labels[i].is_hover && labels[i].button_uv_y == 0
}

/// Option `t` shows `name` at width `width`, selected exactly when
/// `first`.
pub open spec fn option_shown(t: TabText, name: Seq<char>, width: u32, first: bool) -> bool {
    &&& t.is_visible
    &&& t.text@ == name
    &&& t.button_width == width
    &&& t.is_selected == first
    &&& !t.is_hover
    &&& t.button_uv_y == (if first { 40u32 } else { 0u32 })
}

/// Option `t` is hidden, cleared if it was shown (`was`).
pub open spec fn option_hidden(t: TabText, was: TabText) -> bool {
    &&& !t.is_visible
    &&& !t.is_selected
    &&& !t.is_hover
    &&& t.button_uv_y == 0
    &&& was.is_visible ==> t.text@ == Seq::<char>::empty()
    &&& !was.is_visible ==> t == was
}

/// The labels of the zone tab's form.
pub open spec fn zone_form_labels() -> Seq<Seq<char>> {
    seq!["Max NPC"@, "NPC ID"@, "1"@, "2"@, "3"@, "4"@, "5"@]
}

/// The weathers a map can have.
pub open spec fn weather_names() -> Seq<Seq<char>> {
    seq!["None"@, "Rain"@, "Snow"@]
}

/// The labels of the warp attribute's form.
pub open spec fn warp_form_labels() -> Seq<Seq<char>> {
    seq!["Map Location"@, "X"@, "Y"@, "Group"@, "Tile Location"@, "X"@, "Y"@]
}

/// Hides every option of the list, unselected.
fn close_options(labels: &mut Vec<TabText>)
    requires
        old(labels)@.len() == MAX_TAB_LABEL,
        options_wf(old(labels)@),
    ensures
        final(labels)@.len() == MAX_TAB_LABEL,
        forall|i: int| 0 <= i < MAX_TAB_LABEL ==> option_hidden(#[trigger] final(labels)@[i], old(labels)@[i]),
{
    let mut index: usize = 0;
    while index < MAX_TAB_LABEL
        invariant
            index <= MAX_TAB_LABEL,
            labels@.len() == MAX_TAB_LABEL,
            old(labels)@.len() == MAX_TAB_LABEL,
            options_wf(old(labels)@),
            forall|i: int| 0 <= i < index ==> option_hidden(#[trigger] labels@[i], old(labels)@[i]),
            forall|i: int| index <= i < MAX_TAB_LABEL ==> #[trigger] labels@[i] == old(labels)@[i],
        decreases MAX_TAB_LABEL - index,
    {
        labels[index].close();
        labels[index].set_select(false);
        assert(option_hidden(labels@[index as int], old(labels)@[index as int]));
        index = index + 1;
    }
}

/// Shows the first options of a hidden list with `names`, at width
/// `width`, the first one selected.
fn show_options(labels: &mut Vec<TabText>, names: &Vec<String>, width: u32)
    requires
        old(labels)@.len() == MAX_TAB_LABEL,
        0 < names@.len() <= MAX_TAB_LABEL,
        forall|i: int| 0 <= i < MAX_TAB_LABEL ==> !(#[trigger] old(labels)@[i]).is_visible
            && !old(labels)@[i].is_selected && !old(labels)@[i].is_hover && old(labels)@[i].button_uv_y == 0,
    ensures
        final(labels)@.len() == MAX_TAB_LABEL,
        forall|i: int| 0 <= i < names@.len() ==> option_shown(#[trigger] final(labels)@[i], names@[i]@, width, i == 0),
        forall|i: int| names@.len() <= i < MAX_TAB_LABEL ==> #[trigger] final(labels)@[i] == old(labels)@[i],
{
    let mut index: usize = 0;
    while index < names.len()
        invariant
            index <= names@.len(),
            names@.len() <= MAX_TAB_LABEL,
            labels@.len() == MAX_TAB_LABEL,
            forall|i: int| 0 <= i < MAX_TAB_LABEL ==> !(#[trigger] old(labels)@[i]).is_visible
                && !old(labels)@[i].is_selected && !old(labels)@[i].is_hover && old(labels)@[i].button_uv_y == 0,
            forall|i: int| 0 <= i < index ==> option_shown(#[trigger] labels@[i], names@[i]@, width, false),
            forall|i: int| index <= i < MAX_TAB_LABEL ==> #[trigger] labels@[i] == old(labels)@[i],
        decreases names@.len() - index,
    {
        labels[index].init(names[index].as_str(), width);
        index = index + 1;
    }
    labels[0].set_select(true);
}

/// The text "Zone n".
fn zone_name(n: u64) -> (s: String)
    ensures
        s@ == "Zone "@ + decimal(n as nat),
{
    let mut s = String::from_str("Zone ");
    push_decimal(&mut s, n);
    s
}

/// The names of a tab's options (see `tab_options`).
fn option_names(tab: usize, layer_names: &Vec<String>) -> (names: Vec<String>)
    requires
        layer_names@.len() >= LAYER_COUNT,
    ensures
        names@.len() == tab_options(tab, Seq::new(layer_names@.len(), |i: int| layer_names@[i]@)).len(),
        forall|i: int| 0 <= i < names@.len() ==> #[trigger] names@[i]@
            == tab_options(tab, Seq::new(layer_names@.len(), |i: int| layer_names@[i]@))[i],
{
    let ghost shown = Seq::new(layer_names@.len(), |i: int| layer_names@[i]@);
    let mut names: Vec<String> = Vec::new();
    if tab == TAB_LAYER {
        let mut i: usize = 0;
        while i < LAYER_COUNT
            invariant
                tab == TAB_LAYER,
                i <= LAYER_COUNT,
                layer_names@.len() >= LAYER_COUNT,
                shown == Seq::new(layer_names@.len(), |i: int| layer_names@[i]@),
                names@.len() == i,
                forall|j: int| 0 <= j < i ==> #[trigger] names@[j]@ == tab_options(tab, shown)[j],
            decreases LAYER_COUNT - i,
        {
            names.push(layer_names[i].clone());
            i = i + 1;
        }
    } else if tab == TAB_ATTRIBUTE {
        let mut i: usize = 0;
        while i < MAX_ATTRIBUTE - 1
            invariant
                tab == TAB_ATTRIBUTE,
                i <= MAX_ATTRIBUTE - 1,
                names@.len() == i,
                forall|j: int| 0 <= j < i ==> #[trigger] names@[j]@ == tab_options(tab, shown)[j],
            decreases MAX_ATTRIBUTE - 1 - i,
        {
            names.push(String::from_str(MapAttribute::as_str((i + 1) as u32)));
            i = i + 1;
        }
    } else if tab == TAB_ZONE {
        let mut i: usize = 0;
        while i < ZONE_COUNT
            invariant
                tab == TAB_ZONE,
                i <= ZONE_COUNT,
                names@.len() == i,
                forall|j: int| 0 <= j < i ==> #[trigger] names@[j]@ == tab_options(tab, shown)[j],
            decreases ZONE_COUNT - i,
        {
            names.push(zone_name((i + 1) as u64));
            i = i + 1;
        }
    }
    names
}

/// The panel and the map view after settings tab `tab_index` is opened
/// (see `Interface::set_tab`).
pub open spec fn tab_opened(before: Interface, after: Interface, view_before: MapView, view_after: MapView, tab_index: usize,
    layer_names: Seq<String>, selected_size: (u32, u32)) -> bool {
    &&& before.current_tab == tab_index ==> after == before && view_after == view_before
    &&& before.current_tab != tab_index ==> {
        let opts = tab_options(tab_index, Seq::new(layer_names.len(), |i: int| layer_names[i]@));
        &&& after.current_tab == tab_index
        &&& after.buttons@ == before.buttons@
            .update(before.current_tab as int, after_state(before.buttons@[before.current_tab as int], ButtonState::Normal))
            .update(tab_index as int, after_state(before.buttons@
                .update(before.current_tab as int, after_state(before.buttons@[before.current_tab as int], ButtonState::Normal))
                [tab_index as int], ButtonState::Selected))
        &&& after.tab_labels@.len() == MAX_TAB_LABEL
        &&& options_wf(after.tab_labels@)
        &&& forall|i: int| 0 <= i < opts.len() ==> option_shown(#[trigger] after.tab_labels@[i], opts[i],
            option_width(tab_index), i == 0)
        &&& forall|i: int| opts.len() <= i < MAX_TAB_LABEL ==> option_hidden(#[trigger] after.tab_labels@[i],
            before.tab_labels@[i])
        &&& after.current_tab_data == 0
        &&& after.current_selected_area == 0
        &&& after.start_view == (if tab_index == TAB_ATTRIBUTE { 0 } else { before.start_view })
        &&& after.scrollbar.visible == (tab_index == TAB_ATTRIBUTE)
        &&& tab_index == TAB_ATTRIBUTE ==> after.scrollbar.cur_value == 0
        &&& track_of(before.scrollbar, before.scrollbar.max_value)
            ==> track_of(after.scrollbar, before.scrollbar.max_value)
        &&& after.labels@.len() == before.labels@.len()
        &&& after.labels@[LABEL_OPT_HEADER_TEXT as int]@ == (
            if tab_index == TAB_ATTRIBUTE { "Attribute Properties"@ }
            else if tab_index == TAB_ZONE { "Zone Settings"@ }
            else { before.labels@[LABEL_OPT_HEADER_TEXT as int]@ })
        &&& forall|i: int| 0 <= i < before.labels@.len() && i != LABEL_OPT_HEADER_TEXT
            ==> #[trigger] after.labels@[i] == before.labels@[i]
        &&& tab_index == TAB_ZONE ==> {
            &&& after.editor_label@.len() == 7
            &&& forall|i: int| 0 <= i < 7 ==> #[trigger] after.editor_label@[i]@ == zone_form_labels()[i]
            &&& after.editor_textbox@.len() == 6
            &&& after.editor_textbox@[0].data@ == decimal(view_before.map_zone_setting@[0].max_npc as nat)
            &&& forall|i: int| 1 <= i < 6 ==> #[trigger] after.editor_textbox@[i].data@ == (
                match view_before.map_zone_setting@[0].npc_id[i - 1] {
                    Some(id) => decimal(id as nat),
                    None => Seq::<char>::empty(),
                })
            &&& forall|i: int| 0 <= i < 6 ==> !(#[trigger] after.editor_textbox@[i]).is_selected
            &&& view_after.map_zone@.len() == 1024
            &&& forall|i: int| 0 <= i < 1024 ==> #[trigger] view_after.map_zone@[i] == (
                if zone_covers(view_before.map_zone_loc@[0].pos@, i) { zone_color(0) } else { no_zone_color() })
        }
        &&& tab_index == TAB_LAYER ==> view_after == (MapView {
            preview_size: selected_size,
            preview_extent: (on_map_extent(view_before.preview_pos.0, selected_size.0),
                on_map_extent(view_before.preview_pos.1, selected_size.1)),
            ..view_before
        })
        &&& tab_index == TAB_ATTRIBUTE || tab_index == TAB_ZONE ==> view_after == (MapView {
            map_zone: view_after.map_zone,
            preview_size: (1u32, 1u32),
            preview_extent: (on_map_extent(view_before.preview_pos.0, 1), on_map_extent(view_before.preview_pos.1, 1)),
            ..view_before
        })
        &&& tab_index == TAB_ATTRIBUTE ==> view_after.map_zone == view_before.map_zone
        &&& tab_index != TAB_ZONE && tab_index != TAB_LAYER && tab_index != TAB_ATTRIBUTE ==> view_after == view_before
        &&& tab_index == TAB_PROPERTIES ==> {
            &&& after.editor_button@.len() == 3
            &&& idle_button(after.editor_button@[0], "Save All Map"@)
            &&& idle_button(after.editor_button@[1], "Reset All Map"@)
            &&& idle_button(after.editor_button@[2], "Preference"@)
            &&& after.editor_label@.len() == 1
            &&& after.editor_label@[0]@ == "Weather"@
            &&& after.editor_selectionbox@.len() == 1
            &&& after.editor_selectionbox@[0].wf()
            &&& after.editor_selectionbox@[0].list@.len() == 3
            &&& forall|i: int| 0 <= i < 3 ==> #[trigger] after.editor_selectionbox@[0].list@[i]@ == weather_names()[i]
            &&& after.editor_selectionbox@[0].selected_index == view_before.fixed_weather
            &&& after.editor_selectionbox@[0].text@ == weather_names()[view_before.fixed_weather as int]
            &&& after.editor_textbox@.len() == 0
        }
        &&& tab_index != TAB_ZONE && tab_index != TAB_PROPERTIES ==> after.editor_label@.len() == 0
            && after.editor_textbox@.len() == 0
        &&& tab_index != TAB_PROPERTIES ==> after.editor_button@.len() == 0
            && after.editor_selectionbox@.len() == 0
        &&& after.current_tool == before.current_tool
        &&& after.selected_textbox == before.selected_textbox
        &&& after.dialog == before.dialog
        &&& after.preference == before.preference
        &&& after.tileset_list == before.tileset_list
        &&& after.reset_tool_button == before.reset_tool_button
        &&& after.reset_button == before.reset_button
        &&& after.reset_selectionbox == before.reset_selectionbox
        &&& after.selected_dropbox == before.selected_dropbox
    }
}

impl Interface {
    /// Opens settings tab `tab_index`, unless it is open already: every
    /// option is hidden and the form cleared; the tab's button shows
    /// selected instead of the old one's; then the tab lists its options
    /// (see `tab_options`), the first one chosen, and fills its form. The
    /// attribute tab shows its scrollbar, at the top; the zone tab shows
    /// zone 1 on the map and its settings in a form; the properties tab
    /// offers its three buttons and a drop-down list of the weathers,
    /// showing the map's; the layer tab sizes the map's selection preview
    /// to the tiles selected, `selected_size`, the attribute and zone tabs
    /// to a single tile.
    #[verifier::rlimit(60)]
    pub fn set_tab(&mut self, tab_index: usize, layer_names: &Vec<String>, mapview: &mut MapView,
        list_scrollbar_start: usize, selected_size: (u32, u32))
        requires
            old(self).buttons@.len() == BUTTON_COUNT,
            old(self).current_tab < BUTTON_COUNT,
            tab_index < BUTTON_COUNT,
            old(self).tab_labels@.len() == MAX_TAB_LABEL,
            options_wf(old(self).tab_labels@),
            old(self).labels@.len() > LABEL_OPT_HEADER_TEXT,
            layer_names@.len() >= LAYER_COUNT,
            old(mapview).wf(),
            old(self).current_tab != tab_index && tab_index == TAB_PROPERTIES ==> old(mapview).fixed_weather < 3,
            list_scrollbar_start >= 90,
            old(mapview).preview_pos.0 < 32 && old(mapview).preview_pos.1 < 32,
        ensures
            tab_opened(*old(self), *final(self), *old(mapview), *final(mapview), tab_index, layer_names@, selected_size),
    {
        if self.current_tab == tab_index {
            return;
        }
        close_options(&mut self.tab_labels);
        self.editor_label = Vec::new();
        self.editor_textbox = Vec::new();
        self.editor_button = Vec::new();
        self.editor_selectionbox = Vec::new();
        self.scrollbar.hide_scrollbar();
        self.current_tab_data = 0;
        self.current_selected_area = 0;

        let cur = self.current_tab;
        self.buttons[cur].set_state(ButtonState::Normal);
        self.buttons[tab_index].set_state(ButtonState::Selected);
        self.current_tab = tab_index;

        let names = option_names(tab_index, layer_names);
        if names.len() > 0 {
            show_options(&mut self.tab_labels, &names, if tab_index == TAB_ATTRIBUTE { 180 } else { 194 });
        }
        if tab_index == TAB_LAYER {
            mapview.change_selection_preview_size(selected_size);
        } else if tab_index == TAB_ATTRIBUTE {
            self.start_view = 0;
            reset_scrollbar(&mut self.scrollbar);
            self.scrollbar.show();
            self.labels.set(LABEL_OPT_HEADER_TEXT, String::from_str("Attribute Properties"));
            mapview.change_selection_preview_size((1, 1));
        } else if tab_index == TAB_ZONE {
            self.labels.set(LABEL_OPT_HEADER_TEXT, String::from_str("Zone Settings"));
            mapview.update_map_zone(0);
            mapview.change_selection_preview_size((1, 1));
            let mut editor_label: Vec<String> = Vec::new();
            editor_label.push(String::from_str("Max NPC"));
            editor_label.push(String::from_str("NPC ID"));
            editor_label.push(String::from_str("1"));
            editor_label.push(String::from_str("2"));
            editor_label.push(String::from_str("3"));
            editor_label.push(String::from_str("4"));
            editor_label.push(String::from_str("5"));
            self.editor_label = editor_label;
            let mut fields: Vec<Textbox> = Vec::new();
            let mut i: usize = 0;
            while i < 6
                invariant
                    i <= 6,
                    fields@.len() == i,
                    forall|j: int| 0 <= j < i ==> (#[trigger] fields@[j]).data@.len() == 0 && !fields@[j].is_selected,
                decreases 6 - i,
            {
                fields.push(Textbox::new());
                i = i + 1;
            }
            self.editor_textbox = fields;
            self.open_zone_settings(&mapview.map_zone_setting[0]);
        } else if tab_index == TAB_PROPERTIES {
            let mut editor_button: Vec<Button> = Vec::new();
            editor_button.push(Button::new("Save All Map"));
            editor_button.push(Button::new("Reset All Map"));
            editor_button.push(Button::new("Preference"));
            self.editor_button = editor_button;
            let mut editor_label: Vec<String> = Vec::new();
            editor_label.push(String::from_str("Weather"));
            self.editor_label = editor_label;
            let mut list: Vec<String> = Vec::new();
            list.push(String::from_str("None"));
            list.push(String::from_str("Rain"));
            list.push(String::from_str("Snow"));
            let mut selectionbox = SelectionBox::new(list, list_scrollbar_start);
            selectionbox.switch_list(mapview.fixed_weather as usize);
            let mut boxes: Vec<SelectionBox> = Vec::new();
            boxes.push(selectionbox);
            self.editor_selectionbox = boxes;
        }
    }
}

/// The text of an inserted value read as the form shows it: integers in
/// decimal.
fn int_text(v: i64) -> (s: String)
    ensures
        s@ == signed_decimal(v as int),
{
    let mut s = String::new();
    push_signed_decimal(&mut s, v);
    assert(s@ =~= signed_decimal(v as int));
    s
}

/// The decimal text of an unsigned value.
fn uint_text(v: u64) -> (s: String)
    ensures
        s@ == decimal(v as nat),
{
    let mut s = String::new();
    push_decimal(&mut s, v);
    assert(s@ =~= decimal(v as nat));
    s
}

/// The panel after the form of attribute kind `attribute` is opened
/// filled from `data` (see `open_attribute_settings`).
pub open spec fn attribute_form_opened(before: Interface, after: Interface, attribute: u32, data: Seq<InsertTypes>) -> bool {
    &&& after.selected_textbox == -1
    &&& after.selected_dropbox == -1
    &&& attribute == 2 ==> {
        &&& after.editor_label@.len() == 7
        &&& forall|i: int| 0 <= i < 7 ==> #[trigger] after.editor_label@[i]@ == warp_form_labels()[i]
        &&& after.editor_textbox@.len() == 5
        &&& forall|i: int| 0 <= i < 5 ==> !(#[trigger] after.editor_textbox@[i]).is_selected
        &&& data.len() == 0 ==> forall|i: int| 0 <= i < 5 ==> #[trigger] after.editor_textbox@[i].data@ == "0"@
        &&& data.len() > 0 ==> {
            &&& after.editor_textbox@[0].data@ == signed_decimal(spec_int(data[0]) as int)
            &&& after.editor_textbox@[1].data@ == signed_decimal(spec_int(data[1]) as int)
            &&& after.editor_textbox@[2].data@ == decimal(spec_uint(data[2]) as nat)
            &&& after.editor_textbox@[3].data@ == decimal(spec_uint(data[3]) as nat)
            &&& after.editor_textbox@[4].data@ == decimal(spec_uint(data[4]) as nat)
        }
    }
    &&& attribute == 3 ==> {
        &&& after.editor_label@.len() == 1
        &&& after.editor_label@[0]@ == "Sign Text"@
        &&& after.editor_textbox@.len() == 1
        &&& !after.editor_textbox@[0].is_selected
        &&& data.len() == 0 ==> after.editor_textbox@[0].data@ == Seq::<char>::empty()
        &&& data.len() > 0 ==> after.editor_textbox@[0].data@ == spec_text(data[0])
    }
    &&& attribute != 2 && attribute != 3 ==> after.editor_label@.len() == 0 && after.editor_textbox@.len() == 0
    &&& after == (Interface {
        selected_textbox: -1i32,
        selected_dropbox: -1i32,
        editor_label: after.editor_label,
        editor_textbox: after.editor_textbox,
        ..before
    })
}

/// Opens the form of attribute kind `attribute` on the panel, filled from
/// `data` when it has values (else with zeros, or an empty text): the
/// warp's map location (x, y, group) and tile location (x, y), or the
/// sign's text. Any other kind has no form. No field or list is in use
/// afterwards.
pub fn open_attribute_settings(gui: &mut Interface, attribute: u32, data: &Vec<InsertTypes>)
    requires
        attribute == 2 && data@.len() > 0 ==> data@.len() >= 5,
    ensures
        attribute_form_opened(*old(gui), *final(gui), attribute, data@),
{
    gui.selected_textbox = -1;
    gui.selected_dropbox = -1;
    if attribute == 2 {
        let mut labels: Vec<String> = Vec::new();
        labels.push(String::from_str("Map Location"));
        labels.push(String::from_str("X"));
        labels.push(String::from_str("Y"));
        labels.push(String::from_str("Group"));
        labels.push(String::from_str("Tile Location"));
        labels.push(String::from_str("X"));
        labels.push(String::from_str("Y"));
        gui.editor_label = labels;
        let mut fields: Vec<Textbox> = Vec::new();
        let mut i: usize = 0;
        while i < 5
            invariant
                i <= 5,
                fields@.len() == i,
                forall|j: int| 0 <= j < i ==> (#[trigger] fields@[j]).data@.len() == 0 && !fields@[j].is_selected,
            decreases 5 - i,
        {
            fields.push(Textbox::new());
            i = i + 1;
        }
        if data.len() > 0 {
            fields[0].input_text(int_text(data[0].get_int()));
            fields[1].input_text(int_text(data[1].get_int()));
            fields[2].input_text(uint_text(data[2].get_uint()));
            fields[3].input_text(uint_text(data[3].get_uint()));
            fields[4].input_text(uint_text(data[4].get_uint()));
        } else {
            let mut j: usize = 0;
            while j < 5
                invariant
                    j <= 5,
                    fields@.len() == 5,
                    forall|k: int| 0 <= k < 5 ==> !(#[trigger] fields@[k]).is_selected,
                    forall|k: int| 0 <= k < j ==> #[trigger] fields@[k].data@ == "0"@,
                decreases 5 - j,
            {
                fields[j].input_text(String::from_str("0"));
                j = j + 1;
            }
        }
        gui.editor_textbox = fields;
    } else if attribute == 3 {
        let mut labels: Vec<String> = Vec::new();
        labels.push(String::from_str("Sign Text"));
        gui.editor_label = labels;
        let mut field = Textbox::new();
        if data.len() > 0 {
            field.input_text(data[0].get_string());
        } else {
            field.input_text(String::new());
        }
        let mut fields: Vec<Textbox> = Vec::new();
        fields.push(field);
        gui.editor_textbox = fields;
    } else {
        gui.editor_label = Vec::new();
        gui.editor_textbox = Vec::new();
    }
}

} // verus!
