//! The data that slide building works on.

use vstd::prelude::*;

verus! {

/// One event of a markup stream, as far as slide building interprets it.
///
/// `A` is the attribute bag carried by a section start and `T` is every other
/// event; both pass through unread.
#[derive(Debug, PartialEq, Eq)]
pub enum MarkupEvent<A, T> {
    /// A section opens, with its attributes.
    SectionStart(A),
    /// A section closes.
    SectionEnd,
    /// Any other content.
    Other(T),
}

/// One slide: the attributes of its section, if it had one, and its content in
/// source order.
#[derive(Debug, PartialEq, Eq)]
pub struct Slide<A, T> {
    pub attrs: Option<A>,
    pub events: Vec<T>,
}

/// The mathematical value of a [`Slide`].
pub struct SlideView<A, T> {
    pub attrs: Option<A>,
    pub events: Seq<T>,
}

impl<A, T> View for Slide<A, T> {
    type V = SlideView<A, T>;

    open spec fn view(&self) -> SlideView<A, T> {
        SlideView { attrs: self.attrs, events: self.events@ }
    }
}

/// What an attribute of a section is.
#[derive(Debug, Clone, Copy, PartialEq, Eq, Structural)]
pub enum AttrKind {
    /// A class name.
    Class,
    /// An identifier.
    Id,
    /// A key with a value.
    Pair,
    /// A comment.
    Comment,
}

/// One attribute of a section: its kind and its value as text.
#[derive(Debug, Clone, PartialEq, Eq)]
pub struct Attribute {
    pub kind: AttrKind,
    pub value: String,
}

/// The mathematical value of an [`Attribute`].
pub struct AttributeView {
    pub kind: AttrKind,
    pub value: Seq<char>,
}

impl View for Attribute {
    type V = AttributeView;

    open spec fn view(&self) -> AttributeView {
        AttributeView { kind: self.kind, value: self.value@ }
    }
}

/// The values of a list of attributes, in order.
pub open spec fn attribute_views(attrs: Seq<Attribute>) -> Seq<AttributeView> {
    attrs.map_values(|a: Attribute| a@)
}

/// The values of a list of slides, in order.
pub open spec fn slide_views<A, T>(slides: Seq<Slide<A, T>>) -> Seq<SlideView<A, T>> {
    slides.map_values(|s: Slide<A, T>| s@)
}

} // verus!
