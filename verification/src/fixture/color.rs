//! Colors of fixtures: the color property names, the color layout of a
//! fixture type, and the color state of a fixture.
//!
//! A fixture outputs its color in one model (RGB, CMY or HSV) on up to three
//! channels, but keeps the color in all three models. Converting between RGB
//! and HSV is done in floating point by the caller: [`Color::prepare_set`]
//! says which conversion a property change needs, and [`Color::set_rgb`] /
//! [`Color::set_hsv`] take its results and update the state and the channels.
use vstd::prelude::*;
use crate::fixture::{ChannelInUniverse, ChannelIndex, ChannelValue, UniverseIndex, FixtureError};
use crate::fixture::channel::{Channel, ChannelParameter, PropertyType, can_move, moved, output_of, all_shiftable, all_can_move,
    all_within_universe, all_stay_in_universe};
use crate::text::{chars_of, eq_lit, join};

verus! {

/// The color model a fixture outputs.
#[derive(Debug, PartialEq, Eq, Structural, Copy, Clone)]
pub enum OutputType {
    RGB,
    HSV,
    CMY,
}

/// One component of a color in one of the models.
#[derive(Debug, PartialEq, Eq, Structural, Copy, Clone, Hash)]
pub enum ColorPropertyType {
    Red,
    Green,
    Blue,
    Cyan,
    Magenta,
    Yellow,
    Hue,
    Saturation,
    Value,
}

/// The color property with the given name, if `s` names one.
pub open spec fn color_property_of(s: Seq<char>) -> Option<ColorPropertyType> {
    if s == "red"@ { Some(ColorPropertyType::Red) }
    else if s == "green"@ { Some(ColorPropertyType::Green) }
    else if s == "blue"@ { Some(ColorPropertyType::Blue) }
    else if s == "cyan"@ { Some(ColorPropertyType::Cyan) }
    else if s == "magenta"@ { Some(ColorPropertyType::Magenta) }
    else if s == "yellow"@ { Some(ColorPropertyType::Yellow) }
    else if s == "hue"@ { Some(ColorPropertyType::Hue) }
    else if s == "saturation"@ { Some(ColorPropertyType::Saturation) }
    else if s == "value"@ { Some(ColorPropertyType::Value) }
    else { None }
}

/// The name of a color property.
pub open spec fn color_property_name(c: ColorPropertyType) -> Seq<char> {
    match c {
        ColorPropertyType::Red => "red"@,
        ColorPropertyType::Green => "green"@,
        ColorPropertyType::Blue => "blue"@,
        ColorPropertyType::Cyan => "cyan"@,
        ColorPropertyType::Magenta => "magenta"@,
        ColorPropertyType::Yellow => "yellow"@,
        ColorPropertyType::Hue => "hue"@,
        ColorPropertyType::Saturation => "saturation"@,
        ColorPropertyType::Value => "value"@,
    }
}

/// The slot (1 to 3) and model of a color property.
pub open spec fn slot_and_model(c: ColorPropertyType) -> (u8, OutputType) {
    match c {
        ColorPropertyType::Red => (1u8, OutputType::RGB),
        ColorPropertyType::Green => (2u8, OutputType::RGB),
        ColorPropertyType::Blue => (3u8, OutputType::RGB),
        ColorPropertyType::Cyan => (1u8, OutputType::CMY),
        ColorPropertyType::Magenta => (2u8, OutputType::CMY),
        ColorPropertyType::Yellow => (3u8, OutputType::CMY),
        ColorPropertyType::Hue => (1u8, OutputType::HSV),
        ColorPropertyType::Saturation => (2u8, OutputType::HSV),
        ColorPropertyType::Value => (3u8, OutputType::HSV),
    }
}

/// The color property in slot `n` of model `t`, if `n` is 1, 2 or 3.
pub open spec fn property_in_slot(n: u8, t: OutputType) -> Option<ColorPropertyType> {
    match (n, t) {
        (1, OutputType::RGB) => Some(ColorPropertyType::Red),
        (2, OutputType::RGB) => Some(ColorPropertyType::Green),
        (3, OutputType::RGB) => Some(ColorPropertyType::Blue),
        (1, OutputType::CMY) => Some(ColorPropertyType::Cyan),
        (2, OutputType::CMY) => Some(ColorPropertyType::Magenta),
        (3, OutputType::CMY) => Some(ColorPropertyType::Yellow),
        (1, OutputType::HSV) => Some(ColorPropertyType::Hue),
        (2, OutputType::HSV) => Some(ColorPropertyType::Saturation),
        (3, OutputType::HSV) => Some(ColorPropertyType::Value),
        _ => None,
    }
}

/// The name `Debug` gives a color model.
pub open spec fn model_name(t: OutputType) -> Seq<char> {
    match t {
        OutputType::RGB => "RGB"@,
        OutputType::HSV => "HSV"@,
        OutputType::CMY => "CMY"@,
    }
}

impl OutputType {
    /// The name `Debug` gives the model.
    pub fn name(&self) -> (r: String)
        ensures
            r@ == model_name(*self),
    {
        match self {
            OutputType::RGB => "RGB".to_owned(),
            OutputType::HSV => "HSV".to_owned(),
            OutputType::CMY => "CMY".to_owned(),
        }
    }
}

impl ColorPropertyType {
    /// The color property in slot `color_number` of `output_type`.
    pub fn new(color_number: u8, output_type: OutputType) -> (r: Option<ColorPropertyType>)
        ensures
            r == property_in_slot(color_number, output_type),
    {
        match (color_number, output_type) {
            (1, OutputType::RGB) => Some(ColorPropertyType::Red),
            (2, OutputType::RGB) => Some(ColorPropertyType::Green),
            (3, OutputType::RGB) => Some(ColorPropertyType::Blue),
            (1, OutputType::CMY) => Some(ColorPropertyType::Cyan),
            (2, OutputType::CMY) => Some(ColorPropertyType::Magenta),
            (3, OutputType::CMY) => Some(ColorPropertyType::Yellow),
            (1, OutputType::HSV) => Some(ColorPropertyType::Hue),
            (2, OutputType::HSV) => Some(ColorPropertyType::Saturation),
            (3, OutputType::HSV) => Some(ColorPropertyType::Value),
            _ => None,
        }
    }

    /// The slot and model of this property.
    pub fn to_output_type(&self) -> (r: (u8, OutputType))
        ensures
            r == slot_and_model(*self),
    {
        match self {
            ColorPropertyType::Red => (1, OutputType::RGB),
            ColorPropertyType::Green => (2, OutputType::RGB),
            ColorPropertyType::Blue => (3, OutputType::RGB),
            ColorPropertyType::Cyan => (1, OutputType::CMY),
            ColorPropertyType::Magenta => (2, OutputType::CMY),
            ColorPropertyType::Yellow => (3, OutputType::CMY),
            ColorPropertyType::Hue => (1, OutputType::HSV),
            ColorPropertyType::Saturation => (2, OutputType::HSV),
            ColorPropertyType::Value => (3, OutputType::HSV),
        }
    }

    /// Parses a color property name such as `red` or `saturation`.
    pub fn from_string(property: &str) -> (r: Result<ColorPropertyType, FixtureError>)
        ensures
            color_property_of(property@) is Some ==> r == Ok::<ColorPropertyType, FixtureError>(color_property_of(property@)->0),
            color_property_of(property@) is None ==> (r matches Err(FixtureError::InvalidPropertyType(x)) && x@ == property@),
    {
        let v = chars_of(property);
        if eq_lit(&v, "red") { Ok(ColorPropertyType::Red) }
        else if eq_lit(&v, "green") { Ok(ColorPropertyType::Green) }
        else if eq_lit(&v, "blue") { Ok(ColorPropertyType::Blue) }
        else if eq_lit(&v, "cyan") { Ok(ColorPropertyType::Cyan) }
        else if eq_lit(&v, "magenta") { Ok(ColorPropertyType::Magenta) }
        else if eq_lit(&v, "yellow") { Ok(ColorPropertyType::Yellow) }
        else if eq_lit(&v, "hue") { Ok(ColorPropertyType::Hue) }
        else if eq_lit(&v, "saturation") { Ok(ColorPropertyType::Saturation) }
        else if eq_lit(&v, "value") { Ok(ColorPropertyType::Value) }
        else { Err(FixtureError::InvalidPropertyType(property.to_owned())) }
    }

    /// The property's name.
    pub fn name(&self) -> (r: String)
        ensures
            r@ == color_property_name(*self),
    {
        match self {
            ColorPropertyType::Red => "red".to_owned(),
            ColorPropertyType::Green => "green".to_owned(),
            ColorPropertyType::Blue => "blue".to_owned(),
            ColorPropertyType::Cyan => "cyan".to_owned(),
            ColorPropertyType::Magenta => "magenta".to_owned(),
            ColorPropertyType::Yellow => "yellow".to_owned(),
            ColorPropertyType::Hue => "hue".to_owned(),
            ColorPropertyType::Saturation => "saturation".to_owned(),
            ColorPropertyType::Value => "value".to_owned(),
        }
    }
}

/// The color layout of a fixture type: its model and the channel layout of
/// each of the three slots.
pub struct ColorType {
    output_type: Option<OutputType>,
    color1: Option<ChannelParameter>,
    color2: Option<ChannelParameter>,
    color3: Option<ChannelParameter>,
}

pub open spec fn param_view(p: Option<ChannelParameter>) -> Option<Seq<ChannelInUniverse>> {
    match p {
        Some(c) => Some(c@),
        None => None,
    }
}

/// The abstract color layout: model and the three slots' channels.
pub struct ColorTypeView {
    pub output_type: Option<OutputType>,
    pub color1: Option<Seq<ChannelInUniverse>>,
    pub color2: Option<Seq<ChannelInUniverse>>,
    pub color3: Option<Seq<ChannelInUniverse>>,
}

impl View for ColorType {
    type V = ColorTypeView;

    closed spec fn view(&self) -> ColorTypeView {
        ColorTypeView {
            output_type: self.output_type,
            color1: param_view(self.color1),
            color2: param_view(self.color2),
            color3: param_view(self.color3),
        }
    }
}

/// The message of the error for mixing color models: the new property is
/// incompatible with the model already in use.
pub open spec fn mixed_models_message(s: ColorPropertyType, old: OutputType) -> Seq<char> {
    color_property_name(s) + " is incompatible with "@ + model_name(old)
}

/// The layout after adding `value` in the slot of `s` (the model becomes that of `s`).
pub open spec fn with_slot(t: ColorTypeView, s: ColorPropertyType, value: Seq<ChannelInUniverse>) -> ColorTypeView {
    let (slot, model) = slot_and_model(s);
    ColorTypeView {
        output_type: Some(model),
        color1: if slot == 1 { Some(value) } else { t.color1 },
        color2: if slot == 2 { Some(value) } else { t.color2 },
        color3: if slot == 3 { Some(value) } else { t.color3 },
    }
}

/// Whether adding a property of `s`'s model to the layout mixes models.
pub open spec fn mixes_models(t: ColorTypeView, s: ColorPropertyType) -> bool {
    t.output_type is Some && t.output_type->0 != slot_and_model(s).1
}

impl ColorType {
    /// An empty layout: no model, no channels.
    pub fn new() -> (r: Self)
        ensures
            r@ == (ColorTypeView { output_type: None, color1: None, color2: None, color3: None }),
    {
        ColorType { output_type: None, color1: None, color2: None, color3: None }
    }

    /// Sets the channel layout of the slot of `s`; fails, leaving the layout
    /// unchanged, if `s` belongs to another model than one already set.
    pub fn checked_add_channel(&mut self, s: ColorPropertyType, value: ChannelParameter) -> (r: Result<(), FixtureError>)
        ensures
            mixes_models(old(self)@, s) ==> (r matches Err(FixtureError::MultipleColorOutputTypes(m))
                && m@ == mixed_models_message(s, old(self)@.output_type->0)),
            mixes_models(old(self)@, s) ==> final(self)@ == old(self)@,
            !mixes_models(old(self)@, s) ==> r is Ok && final(self)@ == with_slot(old(self)@, s, value@),
    {
        let (slot, new_type) = s.to_output_type();
        if let Some(old_type) = self.output_type {
            if old_type != new_type {
                let m = join(join(s.name(), " is incompatible with "), old_type.name().as_str());
                return Err(FixtureError::MultipleColorOutputTypes(m));
            }
        }
        self.output_type = Some(new_type);
        if slot == 1 {
            self.color1 = Some(value);
        } else if slot == 2 {
            self.color2 = Some(value);
        } else {
            self.color3 = Some(value);
        }
        Ok(())
    }

    /// Whether a color channel has been set.
    pub fn color_exists(&self) -> (r: bool)
        ensures
            r == self@.output_type is Some,
    {
        self.output_type.is_some()
    }

    pub(crate) fn output_type(&self) -> (r: Option<OutputType>)
        ensures
            r == self@.output_type,
    {
        self.output_type
    }
}

/// The abstract color state of a fixture: its output model, the three output
/// channels (value and addresses) and the color in all three models.
pub struct ColorView {
    pub output_type: OutputType,
    pub color1: Option<(ChannelValue, Seq<ChannelInUniverse>)>,
    pub color2: Option<(ChannelValue, Seq<ChannelInUniverse>)>,
    pub color3: Option<(ChannelValue, Seq<ChannelInUniverse>)>,
    pub red: ChannelValue,
    pub green: ChannelValue,
    pub blue: ChannelValue,
    pub cyan: ChannelValue,
    pub magenta: ChannelValue,
    pub yellow: ChannelValue,
    pub hue: ChannelValue,
    pub saturation: ChannelValue,
    pub value: ChannelValue,
}

pub open spec fn channel_view(c: Option<Channel>) -> Option<(ChannelValue, Seq<ChannelInUniverse>)> {
    match c {
        Some(ch) => Some(ch@),
        None => None,
    }
}

/// The color state of a fixture.
pub struct Color {
    output_type: OutputType,
    color1: Option<Channel>,
    color2: Option<Channel>,
    color3: Option<Channel>,
    red: ChannelValue,
    green: ChannelValue,
    blue: ChannelValue,
    cyan: ChannelValue,
    magenta: ChannelValue,
    yellow: ChannelValue,
    hue: ChannelValue,
    saturation: ChannelValue,
    value: ChannelValue,
}

impl View for Color {
    type V = ColorView;

    closed spec fn view(&self) -> ColorView {
        ColorView {
            output_type: self.output_type,
            color1: channel_view(self.color1),
            color2: channel_view(self.color2),
            color3: channel_view(self.color3),
            red: self.red,
            green: self.green,
            blue: self.blue,
            cyan: self.cyan,
            magenta: self.magenta,
            yellow: self.yellow,
            hue: self.hue,
            saturation: self.saturation,
            value: self.value,
        }
    }
}

fn clone_channel(c: &Option<Channel>) -> (r: Option<Channel>)
    ensures
        channel_view(r) == channel_view(*c),
{
    match c {
        Some(ch) => Some(ch.clone()),
        None => None,
    }
}

impl Clone for Color {
    fn clone(&self) -> (r: Self)
        ensures
            r@ == self@,
    {
        Color {
            output_type: self.output_type,
            color1: clone_channel(&self.color1),
            color2: clone_channel(&self.color2),
            color3: clone_channel(&self.color3),
            red: self.red,
            green: self.green,
            blue: self.blue,
            cyan: self.cyan,
            magenta: self.magenta,
            yellow: self.yellow,
            hue: self.hue,
            saturation: self.saturation,
            value: self.value,
        }
    }
}

/// Whether every channel of the layout can be placed at `start`.
pub open spec fn fits_at(p: Option<Seq<ChannelInUniverse>>, start: ChannelInUniverse) -> bool {
    match p {
        Some(s) => all_can_move(s, (0u16, 0usize), start),
        None => true,
    }
}

/// A channel layout placed at `start`, holding `value`.
pub open spec fn placed(p: Option<Seq<ChannelInUniverse>>, value: ChannelValue, start: ChannelInUniverse)
    -> Option<(ChannelValue, Seq<ChannelInUniverse>)> {
    match p {
        Some(s) => Some((value, s.map_values(|c: ChannelInUniverse| moved(c, (0u16, 0usize), start)))),
        None => None,
    }
}

/// The value the color channels of a model start at: full for CMY, else 0.
pub open spec fn initial_channel_value(t: OutputType) -> ChannelValue {
    if t == OutputType::CMY { ChannelValue::MAX } else { 0 }
}

/// An output channel moved along with the fixture's start.
pub open spec fn shifted(c: Option<(ChannelValue, Seq<ChannelInUniverse>)>, old_start: ChannelInUniverse, new_start: ChannelInUniverse)
    -> Option<(ChannelValue, Seq<ChannelInUniverse>)> {
    match c {
        Some(ch) => Some((ch.0, ch.1.map_values(|x: ChannelInUniverse| moved(x, old_start, new_start)))),
        None => None,
    }
}

/// Whether every address of the output channel can be moved.
pub open spec fn can_shift(c: Option<(ChannelValue, Seq<ChannelInUniverse>)>, old_start: ChannelInUniverse, new_start: ChannelInUniverse) -> bool {
    c matches Some(ch) ==> forall|i: int| 0 <= i < ch.1.len() ==> can_move(#[trigger] ch.1[i], old_start, new_start)
}

/// The (property, channel) pairs of the output channels, slot 1 first.
pub open spec fn color_channels(c: ColorView) -> Seq<(PropertyType, (ChannelValue, Seq<ChannelInUniverse>))> {
    let s1 = match c.color1 {
        Some(ch) => seq![(PropertyType::Color(property_in_slot(1, c.output_type)->0), ch)],
        None => Seq::empty(),
    };
    let s2 = match c.color2 {
        Some(ch) => seq![(PropertyType::Color(property_in_slot(2, c.output_type)->0), ch)],
        None => Seq::empty(),
    };
    let s3 = match c.color3 {
        Some(ch) => seq![(PropertyType::Color(property_in_slot(3, c.output_type)->0), ch)],
        None => Seq::empty(),
    };
    s1 + s2 + s3
}

/// The bytes the output channels write, slot 1 first.
pub open spec fn color_output(c: ColorView) -> Seq<(ChannelInUniverse, u8)> {
    let o1 = match c.color1 { Some(ch) => output_of(ch), None => Seq::empty() };
    let o2 = match c.color2 { Some(ch) => output_of(ch), None => Seq::empty() };
    let o3 = match c.color3 { Some(ch) => output_of(ch), None => Seq::empty() };
    o1 + o2 + o3
}

/// The conversion a color change needs: the new color in the model to
/// convert from.
#[derive(Debug, PartialEq, Eq, Structural, Copy, Clone)]
pub enum ColorModelInput {
    /// Convert from this red, green and blue.
    Rgb(ChannelValue, ChannelValue, ChannelValue),
    /// Convert from this hue, saturation and value.
    Hsv(ChannelValue, ChannelValue, ChannelValue),
}

/// The three components of model `t` in the color state.
pub open spec fn model_values(c: ColorView, t: OutputType) -> (ChannelValue, ChannelValue, ChannelValue) {
    match t {
        OutputType::RGB => (c.red, c.green, c.blue),
        OutputType::CMY => (c.cyan, c.magenta, c.yellow),
        OutputType::HSV => (c.hue, c.saturation, c.value),
    }
}

/// The conversion that setting `property` to `value` needs: the property's
/// model with that component replaced; CMY is converted through RGB
/// (`MAX - component`).
pub open spec fn conversion_for(c: ColorView, property: ColorPropertyType, value: ChannelValue) -> ColorModelInput {
    let (slot, model) = slot_and_model(property);
    let (v1, v2, v3) = model_values(c, model);
    let w1 = if slot == 1 { value } else { v1 };
    let w2 = if slot == 2 { value } else { v2 };
    let w3 = if slot == 3 { value } else { v3 };
    match model {
        OutputType::RGB => ColorModelInput::Rgb(w1, w2, w3),
        OutputType::HSV => ColorModelInput::Hsv(w1, w2, w3),
        OutputType::CMY => ColorModelInput::Rgb(
            (ChannelValue::MAX - w1) as ChannelValue,
            (ChannelValue::MAX - w2) as ChannelValue,
            (ChannelValue::MAX - w3) as ChannelValue,
        ),
    }
}

/// The output channels after a color change: each slot's value is taken from
/// the output model.
pub open spec fn with_outputs(c: ColorView) -> ColorView {
    let (v1, v2, v3) = match c.output_type {
        OutputType::RGB => (c.red, c.green, c.blue),
        OutputType::HSV => (c.hue, c.saturation, c.value),
        OutputType::CMY => (c.cyan, c.magenta, c.yellow),
    };
    ColorView {
        color1: match c.color1 { Some(ch) => Some((v1, ch.1)), None => None },
        color2: match c.color2 { Some(ch) => Some((v2, ch.1)), None => None },
        color3: match c.color3 { Some(ch) => Some((v3, ch.1)), None => None },
        ..c
    }
}

pub open spec fn max3(a: ChannelValue, b: ChannelValue, c: ChannelValue) -> ChannelValue {
    if a >= b && a >= c { a } else if b >= c { b } else { c }
}

/// The color state after setting the color from red, green and blue, with the
/// hue and saturation of that color given.
pub open spec fn after_rgb(c: ColorView, red: ChannelValue, green: ChannelValue, blue: ChannelValue,
    hue: ChannelValue, saturation: ChannelValue) -> ColorView {
    with_outputs(ColorView {
        red,
        green,
        blue,
        cyan: (ChannelValue::MAX - red) as ChannelValue,
        magenta: (ChannelValue::MAX - green) as ChannelValue,
        yellow: (ChannelValue::MAX - blue) as ChannelValue,
        value: max3(red, green, blue),
        saturation,
        hue,
        ..c
    })
}

/// The color state after setting the color from hue, saturation and value,
/// with the red, green and blue of that color given.
pub open spec fn after_hsv(c: ColorView, hue: ChannelValue, saturation: ChannelValue, value: ChannelValue,
    red: ChannelValue, green: ChannelValue, blue: ChannelValue) -> ColorView {
    with_outputs(ColorView {
        hue,
        saturation,
        value,
        red,
        green,
        blue,
        cyan: (ChannelValue::MAX - red) as ChannelValue,
        magenta: (ChannelValue::MAX - green) as ChannelValue,
        yellow: (ChannelValue::MAX - blue) as ChannelValue,
        ..c
    })
}

fn place(p: &Option<ChannelParameter>, value: ChannelValue, device_channel: ChannelIndex, universe: UniverseIndex)
    -> (r: Option<Channel>)
    requires
        fits_at(param_view(*p), (device_channel, universe)),
    ensures
        channel_view(r) == placed(param_view(*p), value, (device_channel, universe)),
{
    match p {
        Some(c) => {
            let ch = Channel::new(c.clone(), value, device_channel, universe);
            assert(ch@.1 =~= c@.map_values(|x: ChannelInUniverse| moved(x, (0u16, 0usize), (device_channel, universe))));
            Some(ch)
        }
        None => None,
    }
}

fn shift(c: &mut Option<Channel>, old_start: ChannelInUniverse, new_start: ChannelInUniverse)
    requires
        can_shift(channel_view(*old(c)), old_start, new_start),
    ensures
        channel_view(*final(c)) == shifted(channel_view(*old(c)), old_start, new_start),
{
    match c {
        Some(ch) => {
            ch.move_channels(old_start, new_start);
            assert(ch@.1 =~= old(c)->0@.1.map_values(|x: ChannelInUniverse| moved(x, old_start, new_start)));
        }
        None => {}
    }
}

fn set_output(c: &mut Option<Channel>, v: ChannelValue)
    ensures
        channel_view(*final(c)) == match channel_view(*old(c)) { Some(ch) => Some((v, ch.1)), None => None },
{
    match c {
        Some(ch) => ch.set_value(v),
        None => {}
    }
}

impl Color {
    /// The color state of a new fixture with color layout `color_type` placed
    /// at `(device_channel, universe)`: the output channels start at the
    /// model's initial value; red, green, blue and hue, saturation, value
    /// start at 0, cyan, magenta, yellow at `MAX`.
    pub fn new(color_type: &ColorType, device_channel: ChannelIndex, universe: UniverseIndex) -> (r: Self)
        requires
            color_type@.output_type is Some,
            fits_at(color_type@.color1, (device_channel, universe)),
            fits_at(color_type@.color2, (device_channel, universe)),
            fits_at(color_type@.color3, (device_channel, universe)),
        ensures
            r@ == initial_color(color_type@, (device_channel, universe)),
    {
        let output_type = color_type.output_type.unwrap();
        let default_value: ChannelValue = if output_type == OutputType::CMY { ChannelValue::MAX } else { 0 };
        let color1 = place(&color_type.color1, default_value, device_channel, universe);
        let color2 = place(&color_type.color2, default_value, device_channel, universe);
        let color3 = place(&color_type.color3, default_value, device_channel, universe);
        Color {
            output_type,
            color1,
            color2,
            color3,
            red: 0,
            green: 0,
            blue: 0,
            cyan: ChannelValue::MAX,
            magenta: ChannelValue::MAX,
            yellow: ChannelValue::MAX,
            hue: 0,
            saturation: 0,
            value: 0,
        }
    }

    /// The output channels with their properties, slot 1 first.
    pub fn get_channels(&self) -> (r: Vec<(PropertyType, Channel)>)
        ensures
            r@.len() == color_channels(self@).len(),
            forall|i: int| 0 <= i < r@.len() ==> (#[trigger] r@[i]).0 == color_channels(self@)[i].0
                && r@[i].1@ == color_channels(self@)[i].1,
    {
        let mut out: Vec<(PropertyType, Channel)> = Vec::new();
        let ghost s1 = match self@.color1 {
            Some(ch) => seq![(PropertyType::Color(property_in_slot(1, self@.output_type)->0), ch)],
            None => Seq::<(PropertyType, (ChannelValue, Seq<ChannelInUniverse>))>::empty(),
        };
        let ghost s2 = match self@.color2 {
            Some(ch) => seq![(PropertyType::Color(property_in_slot(2, self@.output_type)->0), ch)],
            None => Seq::<(PropertyType, (ChannelValue, Seq<ChannelInUniverse>))>::empty(),
        };
        if let Some(c) = &self.color1 {
            out.push((PropertyType::Color(ColorPropertyType::new(1, self.output_type).unwrap()), c.clone()));
        }
        assert(out@.len() == s1.len());
        if let Some(c) = &self.color2 {
            out.push((PropertyType::Color(ColorPropertyType::new(2, self.output_type).unwrap()), c.clone()));
        }
        assert(out@.len() == (s1 + s2).len());
        if let Some(c) = &self.color3 {
            out.push((PropertyType::Color(ColorPropertyType::new(3, self.output_type).unwrap()), c.clone()));
        }
        out
    }

    /// Moves the output channels along with the fixture's start.
    pub fn move_channels(&mut self, old_start: ChannelInUniverse, new_start: ChannelInUniverse)
        requires
            can_shift(old(self)@.color1, old_start, new_start),
            can_shift(old(self)@.color2, old_start, new_start),
            can_shift(old(self)@.color3, old_start, new_start),
        ensures
            final(self)@ == (ColorView {
                color1: shifted(old(self)@.color1, old_start, new_start),
                color2: shifted(old(self)@.color2, old_start, new_start),
                color3: shifted(old(self)@.color3, old_start, new_start),
                ..old(self)@
            }),
    {
        shift(&mut self.color1, old_start, new_start);
        shift(&mut self.color2, old_start, new_start);
        shift(&mut self.color3, old_start, new_start);
    }

    /// The first half of setting one color component: which conversion the
    /// new color needs (see [`conversion_for`]). The state is not changed;
    /// [`Color::set_rgb`] or [`Color::set_hsv`] completes the change.
    pub fn prepare_set(&self, property: ColorPropertyType, value: ChannelValue) -> (r: ColorModelInput)
        ensures
            r == conversion_for(self@, property, value),
    {
        let (color_number, output_type) = property.to_output_type();
        let (mut value1, mut value2, mut value3) = match output_type {
            OutputType::RGB => (self.red, self.green, self.blue),
            OutputType::CMY => (self.cyan, self.magenta, self.yellow),
            OutputType::HSV => (self.hue, self.saturation, self.value),
        };
        if color_number == 1 {
            value1 = value;
        } else if color_number == 2 {
            value2 = value;
        } else {
            value3 = value;
        }
        match output_type {
            OutputType::RGB => ColorModelInput::Rgb(value1, value2, value3),
            OutputType::HSV => ColorModelInput::Hsv(value1, value2, value3),
            OutputType::CMY => ColorModelInput::Rgb(
                ChannelValue::MAX - value1,
                ChannelValue::MAX - value2,
                ChannelValue::MAX - value3,
            ),
        }
    }

    /// Writes the output model's components to the output channels.
    fn set_color(&mut self)
        ensures
            final(self)@ == with_outputs(old(self)@),
    {
        let (v1, v2, v3) = match self.output_type {
            OutputType::RGB => (self.red, self.green, self.blue),
            OutputType::HSV => (self.hue, self.saturation, self.value),
            OutputType::CMY => (self.cyan, self.magenta, self.yellow),
        };
        set_output(&mut self.color1, v1);
        set_output(&mut self.color2, v2);
        set_output(&mut self.color3, v3);
    }

    /// Sets the color from red, green and blue; `hue` and `saturation` are
    /// those of this color, converted by the caller. Cyan, magenta and yellow
    /// are the complements, value is the largest component.
    pub fn set_rgb(&mut self, red: ChannelValue, green: ChannelValue, blue: ChannelValue,
        hue: ChannelValue, saturation: ChannelValue)
        ensures
            final(self)@ == after_rgb(old(self)@, red, green, blue, hue, saturation),
    {
        self.red = red;
        self.green = green;
        self.blue = blue;
        self.cyan = ChannelValue::MAX - red;
        self.magenta = ChannelValue::MAX - green;
        self.yellow = ChannelValue::MAX - blue;
        let max = if red >= green && red >= blue { red } else if green >= blue { green } else { blue };
        self.value = max;
        self.saturation = saturation;
        self.hue = hue;
        self.set_color();
    }

    /// Sets the color from hue, saturation and value; `red`, `green` and
    /// `blue` are those of this color, converted by the caller. Cyan, magenta
    /// and yellow are the complements of red, green and blue.
    pub fn set_hsv(&mut self, hue: ChannelValue, saturation: ChannelValue, value: ChannelValue,
        red: ChannelValue, green: ChannelValue, blue: ChannelValue)
        ensures
            final(self)@ == after_hsv(old(self)@, hue, saturation, value, red, green, blue),
    {
        self.hue = hue;
        self.saturation = saturation;
        self.value = value;
        self.red = red;
        self.green = green;
        self.blue = blue;
        self.cyan = ChannelValue::MAX - red;
        self.magenta = ChannelValue::MAX - green;
        self.yellow = ChannelValue::MAX - blue;
        self.set_color();
    }

    /// The bytes the output channels write, slot 1 first.
    pub fn get_values(&self) -> (r: Vec<(ChannelInUniverse, u8)>)
        ensures
            r@ == color_output(self@),
    {
        let mut output: Vec<(ChannelInUniverse, u8)> = Vec::new();
        if let Some(c) = &self.color1 {
            let mut v = c.get_all_values();
            output.append(&mut v);
        }
        if let Some(c) = &self.color2 {
            let mut v = c.get_all_values();
            output.append(&mut v);
        }
        if let Some(c) = &self.color3 {
            let mut v = c.get_all_values();
            output.append(&mut v);
        }
        proof {
            let c = self@;
            let o1 = match c.color1 { Some(ch) => output_of(ch), None => Seq::<(ChannelInUniverse, u8)>::empty() };
            assert(Seq::<(ChannelInUniverse, u8)>::empty() + o1 =~= o1);
        }
        output
    }
}

/// The color state of a new fixture; see [`Color::new`].
pub open spec fn initial_color(t: ColorTypeView, start: ChannelInUniverse) -> ColorView {
    let v = initial_channel_value(t.output_type->0);
    ColorView {
        output_type: t.output_type->0,
        color1: placed(t.color1, v, start),
        color2: placed(t.color2, v, start),
        color3: placed(t.color3, v, start),
        red: 0,
        green: 0,
        blue: 0,
        cyan: ChannelValue::MAX,
        magenta: ChannelValue::MAX,
        yellow: ChannelValue::MAX,
        hue: 0,
        saturation: 0,
        value: 0,
    }
}


/// Whether every address of an optional output channel keeps fitting when moved.
pub open spec fn opt_shiftable(c: Option<(ChannelValue, Seq<ChannelInUniverse>)>, old_start: ChannelInUniverse,
    new_start: ChannelInUniverse) -> bool {
    c matches Some(ch) ==> all_shiftable(ch.1, old_start, new_start)
}

fn param_fits(p: &Option<ChannelParameter>, start: ChannelInUniverse) -> (r: bool)
    ensures
        r == fits_at(param_view(*p), start),
{
    match p {
        Some(c) => {
            let r = c.can_move_all((0u16, 0usize), start);
            assert(param_view(*p) == Some(c@));
            r
        }
        None => true,
    }
}

fn channel_shiftable(c: &Option<Channel>, old_start: ChannelInUniverse, new_start: ChannelInUniverse) -> (r: bool)
    ensures
        r == opt_shiftable(channel_view(*c), old_start, new_start),
{
    match c {
        Some(ch) => ch.all_shiftable(old_start, new_start),
        None => true,
    }
}

impl ColorType {
    /// Whether every color channel can be placed at `start`.
    pub fn fits_at_start(&self, start: ChannelInUniverse) -> (r: bool)
        ensures
            r == (fits_at(self@.color1, start) && fits_at(self@.color2, start) && fits_at(self@.color3, start)),
    {
        param_fits(&self.color1, start) && param_fits(&self.color2, start) && param_fits(&self.color3, start)
    }
}

impl Color {
    /// Whether every output channel keeps fitting when moved from `old_start` to `new_start`.
    pub fn shiftable(&self, old_start: ChannelInUniverse, new_start: ChannelInUniverse) -> (r: bool)
        ensures
            r == (opt_shiftable(self@.color1, old_start, new_start) && opt_shiftable(self@.color2, old_start, new_start)
                && opt_shiftable(self@.color3, old_start, new_start)),
    {
        channel_shiftable(&self.color1, old_start, new_start) && channel_shiftable(&self.color2, old_start, new_start)
            && channel_shiftable(&self.color3, old_start, new_start)
    }
}

/// Whether every channel of an optional layout, placed at channel `sc`, stays inside its universe.
pub open spec fn opt_within_universe(p: Option<Seq<ChannelInUniverse>>, sc: ChannelIndex) -> bool {
    p matches Some(s) ==> all_within_universe(s, sc)
}

/// Whether every address of an optional output channel stays inside the new
/// start's universe when moved.
pub open spec fn opt_stay_in_universe(c: Option<(ChannelValue, Seq<ChannelInUniverse>)>, old_start: ChannelInUniverse,
    new_start: ChannelInUniverse) -> bool {
    c matches Some(ch) ==> all_stay_in_universe(ch.1, old_start, new_start)
}

fn param_within_universe(p: &Option<ChannelParameter>, sc: ChannelIndex) -> (r: bool)
    ensures
        r == opt_within_universe(param_view(*p), sc),
{
    match p {
        Some(c) => c.all_within_universe(sc),
        None => true,
    }
}

fn channel_stays_in_universe(c: &Option<Channel>, old_start: ChannelInUniverse, new_start: ChannelInUniverse) -> (r: bool)
    ensures
        r == opt_stay_in_universe(channel_view(*c), old_start, new_start),
{
    match c {
        Some(ch) => ch.all_stay_in_universe(old_start, new_start),
        None => true,
    }
}

impl ColorType {
    /// Whether every color channel, placed at channel `sc`, stays inside its universe.
    pub fn within_universe_at(&self, sc: ChannelIndex) -> (r: bool)
        ensures
            r == (opt_within_universe(self@.color1, sc) && opt_within_universe(self@.color2, sc)
                && opt_within_universe(self@.color3, sc)),
    {
        param_within_universe(&self.color1, sc) && param_within_universe(&self.color2, sc)
            && param_within_universe(&self.color3, sc)
    }
}

impl Color {
    /// Whether every output channel stays inside the new start's universe when
    /// moved from `old_start` to `new_start`.
    pub fn stays_in_universe(&self, old_start: ChannelInUniverse, new_start: ChannelInUniverse) -> (r: bool)
        ensures
            r == (opt_stay_in_universe(self@.color1, old_start, new_start)
                && opt_stay_in_universe(self@.color2, old_start, new_start)
                && opt_stay_in_universe(self@.color3, old_start, new_start)),
    {
        channel_stays_in_universe(&self.color1, old_start, new_start)
            && channel_stays_in_universe(&self.color2, old_start, new_start)
            && channel_stays_in_universe(&self.color3, old_start, new_start)
    }
}

/// Law: after a color is set from red, green and blue, it holds them, each
/// subtractive component is the complement of its own additive one (cyan of
/// red, magenta of green, yellow of blue), the output channels keep their
/// addresses, and they carry red, green and blue on an RGB fixture, cyan,
/// magenta and yellow on a CMY one, and hue, saturation and value (the largest
/// of red, green and blue) on an HSV one.
pub proof fn law_rgb_sets_complements(c: ColorView, red: ChannelValue, green: ChannelValue, blue: ChannelValue,
    hue: ChannelValue, saturation: ChannelValue)
    ensures
        ({
            let d = after_rgb(c, red, green, blue, hue, saturation);
            &&& d.red == red && d.green == green && d.blue == blue
            &&& d.cyan == ChannelValue::MAX - red
            &&& d.magenta == ChannelValue::MAX - green
            &&& d.yellow == ChannelValue::MAX - blue
            &&& d.hue == hue && d.saturation == saturation
            &&& d.value >= red && d.value >= green && d.value >= blue
            &&& (d.value == red || d.value == green || d.value == blue)
            &&& d.output_type == c.output_type
            &&& (d.color1 is Some <==> c.color1 is Some) && (d.color1 matches Some(x) ==> x.1 == (c.color1->0).1)
            &&& (d.color2 is Some <==> c.color2 is Some) && (d.color2 matches Some(x) ==> x.1 == (c.color2->0).1)
            &&& (d.color3 is Some <==> c.color3 is Some) && (d.color3 matches Some(x) ==> x.1 == (c.color3->0).1)
            &&& c.output_type == OutputType::RGB ==> {
                &&& (d.color1 matches Some(x) ==> x.0 == red)
                &&& (d.color2 matches Some(x) ==> x.0 == green)
                &&& (d.color3 matches Some(x) ==> x.0 == blue)
            }
            &&& c.output_type == OutputType::CMY ==> {
                &&& (d.color1 matches Some(x) ==> x.0 == ChannelValue::MAX - red)
                &&& (d.color2 matches Some(x) ==> x.0 == ChannelValue::MAX - green)
                &&& (d.color3 matches Some(x) ==> x.0 == ChannelValue::MAX - blue)
            }
            &&& c.output_type == OutputType::HSV ==> {
                &&& (d.color1 matches Some(x) ==> x.0 == hue)
                &&& (d.color2 matches Some(x) ==> x.0 == saturation)
                &&& (d.color3 matches Some(x) ==> x.0 == d.value)
            }
        }),
{
}

/// Law: after a color is set from hue, saturation and value, with its red,
/// green and blue given, it holds all six, each subtractive component is the
/// complement of its own additive one, the output channels keep their
/// addresses, and they carry hue, saturation and value on an HSV fixture, red,
/// green and blue on an RGB one, and cyan, magenta and yellow on a CMY one.
pub proof fn law_hsv_sets_complements(c: ColorView, hue: ChannelValue, saturation: ChannelValue, value: ChannelValue,
    red: ChannelValue, green: ChannelValue, blue: ChannelValue)
    ensures
        ({
            let d = after_hsv(c, hue, saturation, value, red, green, blue);
            &&& d.hue == hue && d.saturation == saturation && d.value == value
            &&& d.red == red && d.green == green && d.blue == blue
            &&& d.cyan == ChannelValue::MAX - red
            &&& d.magenta == ChannelValue::MAX - green
            &&& d.yellow == ChannelValue::MAX - blue
            &&& d.output_type == c.output_type
            &&& (d.color1 is Some <==> c.color1 is Some) && (d.color1 matches Some(x) ==> x.1 == (c.color1->0).1)
            &&& (d.color2 is Some <==> c.color2 is Some) && (d.color2 matches Some(x) ==> x.1 == (c.color2->0).1)
            &&& (d.color3 is Some <==> c.color3 is Some) && (d.color3 matches Some(x) ==> x.1 == (c.color3->0).1)
            &&& c.output_type == OutputType::HSV ==> {
                &&& (d.color1 matches Some(x) ==> x.0 == hue)
                &&& (d.color2 matches Some(x) ==> x.0 == saturation)
                &&& (d.color3 matches Some(x) ==> x.0 == value)
            }
            &&& c.output_type == OutputType::RGB ==> {
                &&& (d.color1 matches Some(x) ==> x.0 == red)
                &&& (d.color2 matches Some(x) ==> x.0 == green)
                &&& (d.color3 matches Some(x) ==> x.0 == blue)
            }
            &&& c.output_type == OutputType::CMY ==> {
                &&& (d.color1 matches Some(x) ==> x.0 == ChannelValue::MAX - red)
                &&& (d.color2 matches Some(x) ==> x.0 == ChannelValue::MAX - green)
                &&& (d.color3 matches Some(x) ==> x.0 == ChannelValue::MAX - blue)
            }
        }),
{
}

} // verus!
