//! Colours, and the ones the game gives to its things.

use vstd::prelude::*;

verus! {

/// A colour as three channels.
#[derive(Clone, Copy, Debug, PartialEq, Eq, Hash, Structural)]
pub struct Color {
    pub r: u8,
    pub g: u8,
    pub b: u8,
}

impl Default for Color {
    fn default() -> (c: Color)
        ensures
            c == (Color { r: 0, g: 0, b: 0 }),
    {
        Color { r: 0, g: 0, b: 0 }
    }
}

pub open spec fn spec_gui_text() -> Color {
    Color { r: 255, g: 255, b: 255 }
}

pub open spec fn spec_empty_tile() -> Color {
    Color { r: 223, g: 223, b: 223 }
}

pub open spec fn spec_tree_1() -> Color {
    Color { r: 0, g: 160, b: 0 }
}

pub open spec fn spec_tree_2() -> Color {
    Color { r: 0, g: 255, b: 0 }
}

pub open spec fn spec_tree_3() -> Color {
    Color { r: 63, g: 255, b: 63 }
}

pub open spec fn spec_player() -> Color {
    Color { r: 255, g: 255, b: 255 }
}

pub open spec fn spec_anxiety() -> Color {
    Color { r: 191, g: 0, b: 0 }
}

pub open spec fn spec_depression() -> Color {
    Color { r: 111, g: 63, b: 255 }
}

pub open spec fn spec_hunger() -> Color {
    Color { r: 255, g: 191, b: 0 }
}

pub open spec fn spec_shadows() -> Color {
    Color { r: 95, g: 95, b: 95 }
}

pub open spec fn spec_voices() -> Color {
    Color { r: 127, g: 127, b: 127 }
}

pub open spec fn spec_npc_will() -> Color {
    Color { r: 255, g: 0, b: 255 }
}

pub open spec fn spec_npc_mind() -> Color {
    Color { r: 0, g: 255, b: 255 }
}

pub open spec fn spec_npc_speed() -> Color {
    Color { r: 255, g: 255, b: 0 }
}

pub open spec fn spec_dose() -> Color {
    Color { r: 114, g: 184, b: 255 }
}

pub open spec fn spec_strong_dose() -> Color {
    Color { r: 63, g: 63, b: 255 }
}

pub open spec fn spec_shattering_dose() -> Color {
    Color { r: 0, g: 255, b: 255 }
}

pub open spec fn spec_food() -> Color {
    Color { r: 255, g: 127, b: 0 }
}

/// Text in windows and on buttons.
#[verifier::when_used_as_spec(spec_gui_text)]
pub fn gui_text() -> (c: Color)
    ensures
        c == spec_gui_text(),
{
    Color { r: 255, g: 255, b: 255 }
}

/// Open ground.
#[verifier::when_used_as_spec(spec_empty_tile)]
pub fn empty_tile() -> (c: Color)
    ensures
        c == spec_empty_tile(),
{
    Color { r: 223, g: 223, b: 223 }
}

/// The first of the three greens a tree can have.
#[verifier::when_used_as_spec(spec_tree_1)]
pub fn tree_1() -> (c: Color)
    ensures
        c == spec_tree_1(),
{
    Color { r: 0, g: 160, b: 0 }
}

/// The second of the three greens a tree can have.
#[verifier::when_used_as_spec(spec_tree_2)]
pub fn tree_2() -> (c: Color)
    ensures
        c == spec_tree_2(),
{
    Color { r: 0, g: 255, b: 0 }
}

/// The third of the three greens a tree can have.
#[verifier::when_used_as_spec(spec_tree_3)]
pub fn tree_3() -> (c: Color)
    ensures
        c == spec_tree_3(),
{
    Color { r: 63, g: 255, b: 63 }
}

/// The player's character.
#[verifier::when_used_as_spec(spec_player)]
pub fn player() -> (c: Color)
    ensures
        c == spec_player(),
{
    Color { r: 255, g: 255, b: 255 }
}

#[verifier::when_used_as_spec(spec_anxiety)]
pub fn anxiety() -> (c: Color)
    ensures
        c == spec_anxiety(),
{
    Color { r: 191, g: 0, b: 0 }
}

#[verifier::when_used_as_spec(spec_depression)]
pub fn depression() -> (c: Color)
    ensures
        c == spec_depression(),
{
    Color { r: 111, g: 63, b: 255 }
}

#[verifier::when_used_as_spec(spec_hunger)]
pub fn hunger() -> (c: Color)
    ensures
        c == spec_hunger(),
{
    Color { r: 255, g: 191, b: 0 }
}

#[verifier::when_used_as_spec(spec_shadows)]
pub fn shadows() -> (c: Color)
    ensures
        c == spec_shadows(),
{
    Color { r: 95, g: 95, b: 95 }
}

#[verifier::when_used_as_spec(spec_voices)]
pub fn voices() -> (c: Color)
    ensures
        c == spec_voices(),
{
    Color { r: 127, g: 127, b: 127 }
}

/// A companion who doubles the growth of Will.
#[verifier::when_used_as_spec(spec_npc_will)]
pub fn npc_will() -> (c: Color)
    ensures
        c == spec_npc_will(),
{
    Color { r: 255, g: 0, b: 255 }
}

/// A companion who halves exhaustion.
#[verifier::when_used_as_spec(spec_npc_mind)]
pub fn npc_mind() -> (c: Color)
    ensures
        c == spec_npc_mind(),
{
    Color { r: 0, g: 255, b: 255 }
}

/// A companion who gives an extra action point.
#[verifier::when_used_as_spec(spec_npc_speed)]
pub fn npc_speed() -> (c: Color)
    ensures
        c == spec_npc_speed(),
{
    Color { r: 255, g: 255, b: 0 }
}

#[verifier::when_used_as_spec(spec_dose)]
pub fn dose() -> (c: Color)
    ensures
        c == spec_dose(),
{
    Color { r: 114, g: 184, b: 255 }
}

#[verifier::when_used_as_spec(spec_strong_dose)]
pub fn strong_dose() -> (c: Color)
    ensures
        c == spec_strong_dose(),
{
    Color { r: 63, g: 63, b: 255 }
}

/// Cardinal and diagonal doses share one colour.
#[verifier::when_used_as_spec(spec_shattering_dose)]
pub fn shattering_dose() -> (c: Color)
    ensures
        c == spec_shattering_dose(),
{
    Color { r: 0, g: 255, b: 255 }
}

#[verifier::when_used_as_spec(spec_food)]
pub fn food() -> (c: Color)
    ensures
        c == spec_food(),
{
    Color { r: 255, g: 127, b: 0 }
}

} // verus!
