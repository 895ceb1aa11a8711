//! The pieces that windows are put together from.

use vstd::prelude::*;

use crate::color;
use crate::color::Color;
use crate::engine::{TextAlign, TextOptions};
use crate::point::Point;

verus! {

/// One piece of a flow of text.
#[derive(Clone, Copy, Debug)]
pub enum Text<'a> {
    Centered(&'a str),
    Empty,
    EmptySpace(i32),
    Paragraph(&'a str),
    SquareTiles(&'a str),
}

/// A piece of text that can be clicked.
#[derive(Clone, Debug)]
pub struct Button {
    pub pos: Point,
    pub text: String,
    pub color: Color,
    pub text_options: TextOptions,
}

impl Button {
    /// A button with the given text whose left end is at `pos`.
    pub fn new(pos: Point, text: &str) -> (button: Button)
        ensures
            button.pos == pos,
            button.text@ == text@,
            button.color == color::spec_gui_text(),
            button.text_options == TextOptions::plain(),
    {
        Button {
            pos,
            text: text.to_owned(),
            color: color::gui_text(),
            text_options: TextOptions::align_left(),
        }
    }

    /// The button in another colour.
    pub fn color(self, color: Color) -> (button: Button)
        ensures
            button == (Button { color, ..self }),
    {
        Button { color, ..self }
    }

    /// The button with its left end at its position.
    pub fn align_left(self) -> (button: Button)
        ensures
            button == (Button { text_options: TextOptions::plain(), ..self }),
    {
        Button { text_options: TextOptions::align_left(), ..self }
    }

    /// The button with its right end at its position.
    pub fn align_right(self) -> (button: Button)
        ensures
            button == (Button {
                text_options: TextOptions { align: TextAlign::Right, ..TextOptions::plain() },
                ..self
            }),
    {
        Button { text_options: TextOptions::align_right(), ..self }
    }

    /// The button in the middle of a room of the given width that starts at
    /// its position.
    pub fn align_center(self, width: i32) -> (button: Button)
        ensures
            button == (Button {
                text_options: TextOptions { align: TextAlign::Center, width, ..TextOptions::plain() },
                ..self
            }),
    {
        Button { text_options: TextOptions::align_center(width), ..self }
    }
}

} // verus!
