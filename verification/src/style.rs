//! Style text for layout elements that dashboards render.

use vstd::prelude::*;

verus! {

/// Anything that renders as an inline style line.
pub trait ToStyle {
    /// The style text this value renders to.
    spec fn style_spec(&self) -> Seq<char>;

    /// The inline style line.
    fn to_style(&self) -> (s: &'static str)
        ensures
            s@ == self.style_spec(),
    ;
}

/// How a text block is aligned.
#[derive(Clone, Copy, Debug, PartialEq, Eq, Structural)]
pub enum TextAlign {
    Left,
    Right,
    Center,
    Justify,
    Start,
    End,
}

impl ToStyle for TextAlign {
    open spec fn style_spec(&self) -> Seq<char> {
        match self {
            TextAlign::Left => "text-align: left;"@,
            TextAlign::Right => "text-align: right;"@,
            TextAlign::Center => "text-align: center;"@,
            TextAlign::Justify => "text-align: justify;"@,
            TextAlign::Start => "text-align: start;"@,
            TextAlign::End => "text-align: end;"@,
        }
    }

    fn to_style(&self) -> (s: &'static str)
        ensures
            s@ == self.style_spec(),
    {
        match self {
            TextAlign::Left => "text-align: left;",
            TextAlign::Right => "text-align: right;",
            TextAlign::Center => "text-align: center;",
            TextAlign::Justify => "text-align: justify;",
            TextAlign::Start => "text-align: start;",
            TextAlign::End => "text-align: end;",
        }
    }
}

} // verus!
