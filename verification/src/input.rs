use vstd::prelude::*;
use crate::clicks::ClickAction;
use crate::colorpicker::{ColorPicker, PickerView, TextFocus};
use crate::grid::{Coord, CoordMap};
use crate::strutil::chars_to_string;
use crate::textarea::TextArea;

verus! {

/// A hit map from screen coordinates to the action a click there takes.
pub type ClickLayer = CoordMap<ClickAction>;

/// A rectangular screen region: its top-left corner and extent.
#[derive(Clone, Copy, Debug, PartialEq, Eq, Structural)]
pub struct Region {
    pub x: u16,
    pub y: u16,
    pub width: u16,
    pub height: u16,
}

/// The coordinates a region covers.
pub open spec fn region_coords(a: Region) -> Set<Coord> {
    Set::new(
        |c: Coord| a.x <= c.0 < a.x + a.width && a.y <= c.1 < a.y + a.height,
    )
}

/// Which overlay currently owns the keyboard.
#[derive(Clone, Copy, Debug, PartialEq, Eq, Structural)]
pub enum InputMode {
    Normal,
    Rename,
    Color,
    Help,
    Export,
    Save,
    Exit,
    TooSmall,
}

impl Default for InputMode {
    fn default() -> (m: InputMode)
        ensures
            m == InputMode::Normal,
    {
        InputMode::Normal
    }
}

/// Where a pointer interaction stands: idle, pressed, or dragging.
#[derive(Clone, Copy, Debug, PartialEq, Eq, Structural)]
pub enum MouseMode {
    Normal,
    Click,
    Drag,
}

impl Default for MouseMode {
    fn default() -> (m: MouseMode)
        ensures
            m == MouseMode::Normal,
    {
        MouseMode::Normal
    }
}

/// The input front door: the mode, the hit maps for the normal screen and
/// the open popup, the text box, the color picker, the last file name and
/// the pointer state.
pub struct InputCapture {
    pub mode: InputMode,
    pub normal_input: ClickLayer,
    pub popup_layer: ClickLayer,
    pub text_area: TextArea,
    pub color_picker: ColorPicker,
    pub last_file_name: Option<String>,
    pub mouse_mode: MouseMode,
}

impl Default for InputCapture {
    fn default() -> (r: InputCapture)
        ensures
            r.mode == InputMode::Normal,
            r.normal_input.as_map() == Map::<Coord, ClickAction>::empty(),
            r.popup_layer.as_map() == Map::<Coord, ClickAction>::empty(),
            r.text_area.buffer@ == Seq::<char>::empty(),
            r.text_area.pos == 0,
            r.text_area.error is None,
            r.color_picker@ == (PickerView {
                r: 0,
                g: 0,
                b: 0,
                buffer: Seq::<char>::empty(),
                pos: 0,
                error: Option::None,
                focus: TextFocus::Hex,
            }),
            r.last_file_name is None,
            r.mouse_mode == MouseMode::Normal,
    {
        InputCapture {
            mode: InputMode::Normal,
            normal_input: CoordMap::new(),
            popup_layer: CoordMap::new(),
            text_area: TextArea::default(),
            color_picker: ColorPicker::default(),
            last_file_name: Option::None,
            mouse_mode: MouseMode::Normal,
        }
    }
}

fn fill_region(map: &mut ClickLayer, area: &Region, action: ClickAction)
    requires
        area.x + area.width <= u16::MAX as int,
        area.y + area.height <= u16::MAX as int,
    ensures
        final(map).as_map() == old(map).as_map().union_prefer_right(
            Map::new(|c: Coord| region_coords(*area).contains(c), |c: Coord| action),
        ),
{
    let ghost target = Map::new(
        |c: Coord| region_coords(*area).contains(c),
        |c: Coord| action,
    );
    let left = area.x;
    let top = area.y;
    let right = left + area.width;
    let bottom = top + area.height;
    for y in top..bottom
        invariant
            left == area.x && top == area.y,
            right == area.x + area.width,
            bottom == area.y + area.height,
            map.as_map() == old(map).as_map().union_prefer_right(
                Map::new(
                    |c: Coord|
                        area.x <= c.0 < area.x + area.width && area.y <= c.1 < y,
                    |c: Coord| action,
                ),
            ),
    {
        for x in left..right
            invariant
                left == area.x && top == area.y,
                right == area.x + area.width,
                bottom == area.y + area.height,
                top <= y < bottom,
                map.as_map() == old(map).as_map().union_prefer_right(
                    Map::new(
                        |c: Coord|
                            (area.x <= c.0 < area.x + area.width && area.y <= c.1 < y) || (c.1
                                == y && area.x <= c.0 < x),
                        |c: Coord| action,
                    ),
                ),
        {
            map.insert((x, y), action);
            proof {
                assert(map.as_map() =~= old(map).as_map().union_prefer_right(
                    Map::new(
                        |c: Coord|
                            (area.x <= c.0 < area.x + area.width && area.y <= c.1 < y) || (c.1
                                == y && area.x <= c.0 < x + 1),
                        |c: Coord| action,
                    ),
                ));
            }
        }
        proof {
            assert(map.as_map() =~= old(map).as_map().union_prefer_right(
                Map::new(
                    |c: Coord|
                        area.x <= c.0 < area.x + area.width && area.y <= c.1 < y + 1,
                    |c: Coord| action,
                ),
            ));
        }
    }
    proof {
        assert(old(map).as_map().union_prefer_right(
            Map::new(
                |c: Coord|
                    area.x <= c.0 < area.x + area.width && area.y <= c.1 < bottom,
                |c: Coord| action,
            ),
        ) =~= old(map).as_map().union_prefer_right(target));
    }
}

impl InputCapture {
    /// Empties both hit maps and the text box.
    pub fn clear(&mut self)
        ensures
            final(self).normal_input.as_map() == Map::<Coord, ClickAction>::empty(),
            final(self).popup_layer.as_map() == Map::<Coord, ClickAction>::empty(),
            final(self).text_area.buffer@ == Seq::<char>::empty(),
            final(self).text_area.pos == 0,
            final(self).text_area.error is None,
            final(self).mode == old(self).mode,
            final(self).color_picker == old(self).color_picker,
            final(self).last_file_name == old(self).last_file_name,
            final(self).mouse_mode == old(self).mouse_mode,
    {
        self.normal_input.clear();
        self.popup_layer.clear();
        self.text_area.clear();
    }

    /// The action a click at the coordinate takes in the current mode:
    /// popups shadow the normal screen.
    pub fn get(&self, x: u16, y: u16) -> (r: Option<ClickAction>)
        ensures
            r == (match self.mode {
                InputMode::Normal | InputMode::Help => self.normal_input.spec_get((x, y)),
                _ => self.popup_layer.spec_get((x, y)),
            }),
    {
        match self.mode {
            InputMode::Normal | InputMode::Help => self.normal_input.get((x, y)),
            _ => self.popup_layer.get((x, y)),
        }
    }

    /// Binds every coordinate of `area` to `action` on the normal screen.
    pub fn click_mode_normal(&mut self, area: &Region, action: ClickAction)
        requires
            area.x + area.width <= u16::MAX as int,
            area.y + area.height <= u16::MAX as int,
        ensures
            final(self).normal_input.as_map() == old(self).normal_input.as_map()
                .union_prefer_right(
                Map::new(|c: Coord| region_coords(*area).contains(c), |c: Coord| action),
            ),
            final(self).popup_layer == old(self).popup_layer,
            final(self).mode == old(self).mode,
            final(self).text_area == old(self).text_area,
            final(self).color_picker == old(self).color_picker,
            final(self).last_file_name == old(self).last_file_name,
            final(self).mouse_mode == old(self).mouse_mode,
    {
        fill_region(&mut self.normal_input, area, action);
    }

    /// Binds every coordinate of `area` to `action` on the open popup.
    pub fn click_mode_popup(&mut self, area: &Region, action: ClickAction)
        requires
            area.x + area.width <= u16::MAX as int,
            area.y + area.height <= u16::MAX as int,
        ensures
            final(self).popup_layer.as_map() == old(self).popup_layer.as_map()
                .union_prefer_right(
                Map::new(|c: Coord| region_coords(*area).contains(c), |c: Coord| action),
            ),
            final(self).normal_input == old(self).normal_input,
            final(self).mode == old(self).mode,
            final(self).text_area == old(self).text_area,
            final(self).color_picker == old(self).color_picker,
            final(self).last_file_name == old(self).last_file_name,
            final(self).mouse_mode == old(self).mouse_mode,
    {
        fill_region(&mut self.popup_layer, area, action);
    }

    /// Opens the help overlay, or closes it when it is already open.
    pub fn toggle_help(&mut self)
        ensures
            final(self).mode == if old(self).mode == InputMode::Help {
                InputMode::Normal
            } else {
                InputMode::Help
            },
            final(self).normal_input == old(self).normal_input,
            final(self).popup_layer == old(self).popup_layer,
            final(self).text_area == old(self).text_area,
            final(self).color_picker == old(self).color_picker,
            final(self).last_file_name == old(self).last_file_name,
            final(self).mouse_mode == old(self).mouse_mode,
    {
        if self.mode == InputMode::Help {
            self.mode = InputMode::Normal;
        } else {
            self.mode = InputMode::Help;
        }
    }

    /// Switches overlays; entering any popup starts it from a clean text
    /// box, picker and hit map.
    pub fn change_mode(&mut self, new_mode: InputMode)
        requires
            old(self).color_picker.text.wf(),
        ensures
            final(self).color_picker.text.wf(),
            final(self).mode == new_mode,
            old(self).mode == new_mode ==> *final(self) == *old(self),
            old(self).mode != new_mode && (new_mode == InputMode::Normal || new_mode
                == InputMode::Help) ==> *final(self) == (InputCapture {
                mode: new_mode,
                ..*old(self)
            }),
            old(self).mode != new_mode && !(new_mode == InputMode::Normal || new_mode
                == InputMode::Help) ==> {
                &&& final(self).text_area.buffer@ == Seq::<char>::empty()
                &&& final(self).text_area.pos == 0
                &&& final(self).text_area.error is None
                &&& final(self).color_picker@ == (PickerView {
                    r: 0,
                    g: 0,
                    b: 0,
                    buffer: Seq::<char>::empty(),
                    pos: 0,
                    error: Option::None,
                    focus: TextFocus::Hex,
                })
                &&& final(self).popup_layer.as_map() == Map::<Coord, ClickAction>::empty()
                &&& final(self).normal_input == old(self).normal_input
                &&& final(self).last_file_name == old(self).last_file_name
                &&& final(self).mouse_mode == old(self).mouse_mode
            },
    {
        if self.mode == new_mode {
            return ;
        }
        match new_mode {
            InputMode::Normal | InputMode::Help => {},
            _ => {
                self.text_area.clear();
                self.color_picker.reset();
                self.popup_layer.clear();
            },
        }
        self.mode = new_mode;
    }

    /// Abandons the open popup: clean text box, picker and hit map, back
    /// to the normal screen.
    pub fn exit(&mut self)
        ensures
            final(self).mode == InputMode::Normal,
            final(self).text_area.buffer@ == Seq::<char>::empty(),
            final(self).text_area.pos == 0,
            final(self).text_area.error is None,
            final(self).color_picker@ == (PickerView {
                r: 0,
                g: 0,
                b: 0,
                buffer: Seq::<char>::empty(),
                pos: 0,
                error: Option::None,
                focus: TextFocus::Hex,
            }),
            final(self).popup_layer.as_map() == Map::<Coord, ClickAction>::empty(),
            final(self).normal_input == old(self).normal_input,
            final(self).last_file_name == old(self).last_file_name,
            final(self).mouse_mode == old(self).mouse_mode,
    {
        self.text_area.clear();
        self.color_picker.reset();
        self.popup_layer.clear();
        self.mode = InputMode::Normal;
    }

    /// Confirms the open popup's text: the first twenty characters of a
    /// non-empty buffer, with the popup closed; an empty buffer refuses.
    pub fn accept(&mut self) -> (r: Option<String>)
        ensures
            old(self).text_area.buffer@.len() == 0 ==> r is None && *final(self) == *old(self),
            old(self).text_area.buffer@.len() > 0 ==> {
                &&& r is Some
                &&& (r matches Option::Some(s) ==> s@ == if old(self).text_area.buffer@.len()
                    <= 20 {
                    old(self).text_area.buffer@
                } else {
                    old(self).text_area.buffer@.take(20)
                })
                &&& final(self).mode == InputMode::Normal
                &&& final(self).text_area.buffer@ == Seq::<char>::empty()
                &&& final(self).popup_layer.as_map() == Map::<Coord, ClickAction>::empty()
                &&& final(self).normal_input == old(self).normal_input
                &&& final(self).last_file_name == old(self).last_file_name
            },
    {
        if self.text_area.buffer.len() == 0 {
            return Option::None;
        }
        let n = if self.text_area.buffer.len() <= 20 {
            self.text_area.buffer.len()
        } else {
            20
        };
        let mut head: Vec<char> = Vec::new();
        for i in 0..n
            invariant
                n <= self.text_area.buffer@.len(),
                self.text_area == old(self).text_area,
                head@ == self.text_area.buffer@.take(i as int),
        {
            head.push(self.text_area.buffer[i]);
            proof {
                assert(head@ =~= self.text_area.buffer@.take(i + 1));
            }
        }
        let out = chars_to_string(&head);
        proof {
            if old(self).text_area.buffer@.len() <= 20 {
                assert(old(self).text_area.buffer@.take(n as int) =~= old(
                    self,
                ).text_area.buffer@);
            }
        }
        self.exit();
        Option::Some(out)
    }
}

} // verus!
