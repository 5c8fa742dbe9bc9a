//! From a markup document to what the template of a deck is rendered with,
//! page by page.

use vstd::prelude::*;
use vstd::string::StringExecFns;
use crate::classes::{class_list, join_classes};
use crate::decimal::{decimal, decimal_digits};
use crate::limits::{fits, within_limits};
use crate::markup::{
    attribute_views, slide_views, AttrKind, Attribute, AttributeView, MarkupEvent, Slide,
    SlideView,
};
use crate::segment::{segment, segment_spec};

verus! {

/// `jotdown::Event`: one event of a parsed document. It is carried through
/// unread.
#[verifier::external_type_specification]
#[verifier::external_body]
pub struct ExEvent<'s>(jotdown::Event<'s>);

/// `jotdown::Attributes`: the attribute bag of an element, a vector of pairs
/// of kind and value.
#[verifier::external_type_specification]
#[verifier::external_body]
pub struct ExAttributes<'s>(jotdown::Attributes<'s>);

/// `jotdown::AttributeKind`: the kind of one entry of an attribute bag.
#[verifier::external_type_specification]
#[verifier::external_body]
pub struct ExAttributeKind<'s>(jotdown::AttributeKind<'s>);

/// `jotdown::AttributeValue`: the value of one entry of an attribute bag.
#[verifier::external_type_specification]
#[verifier::external_body]
pub struct ExAttributeValue<'s>(jotdown::AttributeValue<'s>);

/// The event stream that `jotdown::Parser` yields for a source text. Nothing
/// more is known of it here.
pub uninterp spec fn parsed_events(src: Seq<char>) -> Seq<jotdown::Event<'static>>;

/// What one parser event is to slide building: a section start with its
/// attributes, a section end, or other content. An event cannot be looked
/// into here, so which of the three it is stays unsaid.
pub uninterp spec fn event_split(event: jotdown::Event<'static>) -> MarkupEvent<
    jotdown::Attributes<'static>,
    jotdown::Event<'static>,
>;

/// Runs `jotdown::Parser::new` over `src` and collects every event that the
/// parser yields, in order.
///
/// Believed, not proved: given the stack that its nesting needs, the parser
/// ends without a panic on a text within the limits, where no heading level
/// and no nesting depth leaves the sixteen bits that the parser keeps them
/// in, and it reads nothing but the text, so that the same text gives the
/// same events.
#[verifier::external_body]
fn parse_events<'s>(src: &'s str) -> (events: Vec<jotdown::Event<'s>>)
    requires
        within_limits(src@),
    ensures
        events@ == parsed_events(src@),
{
    jotdown::Parser::new(src).collect()
}

/// Tells the variants of `jotdown::Event` apart: the start of a
/// `Container::Section` hands out its attributes, the end of one becomes a
/// section end, and every other event is passed on.
///
/// Believed, not proved: the result depends on the event alone, and an event
/// that is passed on is passed on unchanged.
#[verifier::external_body]
fn split_event<'s>(event: jotdown::Event<'s>) -> (split: MarkupEvent<
    jotdown::Attributes<'s>,
    jotdown::Event<'s>,
>)
    ensures
        split == event_split(event),
        split matches MarkupEvent::Other(e) ==> e == event,
{
    match event {
        jotdown::Event::Start(jotdown::Container::Section { .. }, attrs) => {
            MarkupEvent::SectionStart(attrs)
        },
        jotdown::Event::End(jotdown::Container::Section { .. }) => MarkupEvent::SectionEnd,
        other => MarkupEvent::Other(other),
    }
}

/// The markup events of a source text.
pub open spec fn deck_events(src: Seq<char>) -> Seq<
    MarkupEvent<jotdown::Attributes<'static>, jotdown::Event<'static>>,
> {
    parsed_events(src).map_values(|e: jotdown::Event<'static>| event_split(e))
}

/// Parses `src` and classifies each event for slide building.
pub fn markup_events<'s>(src: &'s str) -> (events: Vec<
    MarkupEvent<jotdown::Attributes<'s>, jotdown::Event<'s>>,
>)
    requires
        within_limits(src@),
    ensures
        events@ == deck_events(src@),
{
    let raw = parse_events(src);
    let ghost all = raw@;
    let mut events: Vec<MarkupEvent<jotdown::Attributes<'s>, jotdown::Event<'s>>> = Vec::new();
    for event in it: raw.into_iter()
        invariant
            it.seq() == all,
            all == parsed_events(src@),
            events@ == deck_events(src@).take(it.index() as int),
    {
        events.push(split_event(event));
        proof {
            assert(events@ =~= deck_events(src@).take(it.index() + 1));
        }
    }
    proof {
        assert(deck_events(src@).take(all.len() as int) =~= deck_events(src@));
    }
    events
}

/// The slides of a source text.
pub open spec fn deck_slides(src: Seq<char>) -> Seq<
    SlideView<jotdown::Attributes<'static>, jotdown::Event<'static>>,
> {
    segment_spec(deck_events(src))
}

/// `events` is the content of a slide of some source text within the limits.
pub open spec fn slide_content(events: Seq<jotdown::Event<'static>>) -> bool {
    exists|src: Seq<char>, i: int|
        within_limits(src) && 0 <= i < deck_slides(src).len() && (
        #[trigger] deck_slides(src)[i]).events == events
}

/// The entries of a `jotdown::Attributes`, in order: the kind of each, and its
/// value as text.
pub uninterp spec fn attribute_list(attrs: jotdown::Attributes<'static>) -> Seq<AttributeView>;

/// The HTML fragment that `jotdown::html::Renderer` writes for a run of
/// events, or `None` where it reports a formatting error.
pub uninterp spec fn rendered_html(events: Seq<jotdown::Event<'static>>) -> Option<Seq<char>>;

/// The number of entries of a `jotdown::Attributes`, which is a vector of
/// pairs of kind and value and hands out that vector's `len`.
#[verifier::external_body]
fn attribute_count(attrs: &jotdown::Attributes<'_>) -> (n: usize)
    ensures
        n == attribute_list(*attrs).len(),
{
    attrs.len()
}

/// The entry at position `i` of a `jotdown::Attributes`: its kind, without the
/// key of a pair, and its value as `AttributeValue`'s `Display` writes it.
///
/// Believed, not proved: the entry is the one that [`attribute_list`] has at
/// `i`. Indexing stays inside the vector by the precondition.
#[verifier::external_body]
fn attribute_at(attrs: &jotdown::Attributes<'_>, i: usize) -> (attr: Attribute)
    requires
        i < attribute_list(*attrs).len(),
    ensures
        attr@ == attribute_list(*attrs)[i as int],
{
    let (kind, value) = &attrs[i];
    let kind = match kind {
        jotdown::AttributeKind::Class => AttrKind::Class,
        jotdown::AttributeKind::Id => AttrKind::Id,
        jotdown::AttributeKind::Pair { .. } => AttrKind::Pair,
        jotdown::AttributeKind::Comment => AttrKind::Comment,
    };
    Attribute { kind, value: value.to_string() }
}

/// Feeds `events` to `jotdown::html::Renderer::default()` through
/// `jotdown::Render::push`, which writes into a fresh string.
///
/// Believed, not proved: the renderer ends without a panic on the content of
/// a slide, where every container that was opened is closed again, and what
/// it writes depends on the events alone.
#[verifier::external_body]
fn render_html(events: Vec<jotdown::Event<'_>>) -> (html: Option<String>)
    requires
        slide_content(events@),
    ensures
        match html {
            Some(text) => rendered_html(events@) == Some(text@),
            None => rendered_html(events@) is None,
        },
{
    let mut html = String::new();
    let renderer = jotdown::html::Renderer::default();
    match jotdown::Render::push(&renderer, events.into_iter(), &mut html) {
        Ok(()) => Some(html),
        Err(_) => None,
    }
}

/// The attributes of a parser attribute bag, as values of this library.
pub fn attributes_of(attrs: &jotdown::Attributes<'_>) -> (list: Vec<Attribute>)
    ensures
        attribute_views(list@) == attribute_list(*attrs),
{
    let n = attribute_count(attrs);
    let mut list: Vec<Attribute> = Vec::new();
    let mut i: usize = 0;
    while i < n
        invariant
            n == attribute_list(*attrs).len(),
            0 <= i <= n,
            list@.len() == i,
            attribute_views(list@) == attribute_list(*attrs).take(i as int),
        decreases n - i,
    {
        let ghost before = list@;
        let attr = attribute_at(attrs, i);
        list.push(attr);
        proof {
            let all = attribute_list(*attrs);
            assert forall|j: int| 0 <= j < i + 1 implies attribute_views(list@)[j] == all.take(
                i + 1,
            )[j] by {
                if j < i {
                    assert(list@[j] == before[j]);
                    assert(attribute_views(before)[j] == all.take(i as int)[j]);
                }
            }
            assert(attribute_views(list@) =~= all.take(i + 1));
        }
        i = i + 1;
    }
    proof {
        assert(attribute_list(*attrs).take(n as int) =~= attribute_list(*attrs));
    }
    list
}

/// The name under which the template of a deck is known to the template
/// engine.
pub const TEMPLATE_NAME: &'static str = "slide";

/// The class list of a slide of a parsed document.
pub open spec fn slide_classes(attrs: Option<jotdown::Attributes<'static>>) -> Seq<char> {
    match attrs {
        Some(a) => class_list(attribute_list(a)),
        None => Seq::empty(),
    }
}

/// The class list of a slide of a parsed document: the class values among its
/// section's attributes joined by spaces, and empty without a section.
pub fn classes_of(attrs: &Option<jotdown::Attributes<'_>>) -> (classes: String)
    ensures
        classes@ == slide_classes(*attrs),
{
    match attrs {
        Some(a) => {
            let list = attributes_of(a);
            join_classes(&list)
        },
        None => String::new(),
    }
}

/// What the template is rendered with for one page.
#[derive(Debug, PartialEq, Eq)]
pub struct PageInput {
    /// The number of the page, from one.
    pub number: usize,
    /// The number of pages of the deck.
    pub total: usize,
    /// The content of the slide as an HTML fragment.
    pub body: String,
    /// The class list of the slide.
    pub classes: String,
}

/// The mathematical value of a [`PageInput`].
pub struct PageInputView {
    pub number: nat,
    pub total: nat,
    pub body: Seq<char>,
    pub classes: Seq<char>,
}

impl View for PageInput {
    type V = PageInputView;

    open spec fn view(&self) -> PageInputView {
        PageInputView {
            number: self.number as nat,
            total: self.total as nat,
            body: self.body@,
            classes: self.classes@,
        }
    }
}

/// The values of a list of page inputs, in order.
pub open spec fn input_views(inputs: Seq<PageInput>) -> Seq<PageInputView> {
    inputs.map_values(|p: PageInput| p@)
}

/// The markup renderer succeeds on the content of each of the first `n`
/// slides.
pub open spec fn fragments_render(
    slides: Seq<SlideView<jotdown::Attributes<'static>, jotdown::Event<'static>>>,
    n: int,
) -> bool {
    forall|i: int| 0 <= i < n ==> rendered_html((#[trigger] slides[i]).events) is Some
}

/// What the template is rendered with for the slide at position `i`: the
/// page's number, which is `i + 1`, the number of slides, the slide's content
/// as an HTML fragment, and the slide's class list.
pub open spec fn input_of(
    slides: Seq<SlideView<jotdown::Attributes<'static>, jotdown::Event<'static>>>,
    i: int,
) -> PageInputView {
    PageInputView {
        number: (i + 1) as nat,
        total: slides.len(),
        body: rendered_html(slides[i].events)->Some_0,
        classes: slide_classes(slides[i].attrs),
    }
}

/// What the template is rendered with for each slide, in order.
pub open spec fn inputs_of(
    slides: Seq<SlideView<jotdown::Attributes<'static>, jotdown::Event<'static>>>,
) -> Seq<PageInputView> {
    Seq::new(slides.len(), |i: int| input_of(slides, i))
}

/// Renders the content of each slide and collects what the template is
/// rendered with for each page, or returns `None` when the markup renderer
/// fails on a slide.
pub fn slide_inputs(slides: Vec<Slide<jotdown::Attributes<'_>, jotdown::Event<'_>>>) -> (inputs:
    Option<Vec<PageInput>>)
    requires
        forall|i: int| 0 <= i < slides.len() ==> slide_content((#[trigger] slides[i])@.events),
    ensures
        inputs is Some <==> fragments_render(slide_views(slides@), slides.len() as int),
        inputs matches Some(v) ==> input_views(v@) == inputs_of(slide_views(slides@)),
{
    let ghost all = slides@;
    let ghost views = slide_views(all);
    let total = slides.len();
    let mut inputs: Vec<PageInput> = Vec::new();
    for slide in it: slides.into_iter()
        invariant
            it.seq() == all,
            views == slide_views(all),
            total == all.len(),
            inputs.len() == it.index(),
            fragments_render(views, it.index() as int),
            forall|j: int| 0 <= j < inputs.len() ==> (#[trigger] inputs[j])@ == input_of(views, j),
            forall|i: int| 0 <= i < all.len() ==> slide_content((#[trigger] all[i])@.events),
    {
        let ghost i = it.index() as int;
        proof {
            assert(views[i] == all[i]@);
        }
        let number = inputs.len() + 1;
        let Slide { attrs, events } = slide;
        let body = match render_html(events) {
            Some(body) => body,
            None => {
                proof {
                    assert(rendered_html(views[i].events) is None);
                }
                return None;
            },
        };
        let classes = classes_of(&attrs);
        inputs.push(PageInput { number, total, body, classes });
        proof {
            assert(fragments_render(views, i + 1));
        }
    }
    proof {
        assert(input_views(inputs@) =~= inputs_of(views));
    }
    Some(inputs)
}

/// Why no page inputs could be made.
#[derive(Debug, Clone, Copy, PartialEq, Eq, Structural)]
pub enum BuildError {
    /// The source is outside the limits that the parser takes.
    SourceRefused,
    /// The markup renderer failed on the content of a slide.
    FragmentRender,
}

/// What a build of the source `src` comes to: the source is refused outside
/// the limits, the build fails where the markup renderer fails on a slide,
/// and else there is one input for each slide of the source, in order.
pub open spec fn build_result(src: Seq<char>) -> Result<Seq<PageInputView>, BuildError> {
    if !within_limits(src) {
        Err(BuildError::SourceRefused)
    } else if !fragments_render(deck_slides(src), deck_slides(src).len() as int) {
        Err(BuildError::FragmentRender)
    } else {
        Ok(inputs_of(deck_slides(src)))
    }
}

/// Builds what the template is rendered with for each page of the deck
/// written in `src`: parses the markup, splits it into slides, and renders
/// the content of each.
pub fn page_inputs(src: &str) -> (built: Result<Vec<PageInput>, BuildError>)
    ensures
        match built {
            Ok(inputs) => build_result(src@) == Ok::<Seq<PageInputView>, BuildError>(
                input_views(inputs@),
            ),
            Err(e) => build_result(src@) == Err::<Seq<PageInputView>, BuildError>(e),
        },
{
    if !fits(src) {
        return Err(BuildError::SourceRefused);
    }
    let events = markup_events(src);
    let slides = segment(events);
    proof {
        assert forall|i: int| 0 <= i < slides.len() implies slide_content(
            (#[trigger] slides[i])@.events,
        ) by {
            assert(slide_views(slides@)[i] == slides[i]@);
            assert(deck_slides(src@)[i].events == slides[i]@.events);
        }
    }
    match slide_inputs(slides) {
        Some(inputs) => Ok(inputs),
        None => Err(BuildError::FragmentRender),
    }
}

/// One variable of a template: its name and its text.
#[derive(Debug, PartialEq, Eq)]
pub struct Variable {
    pub name: String,
    pub value: String,
}

/// The mathematical value of a [`Variable`].
pub struct VariableView {
    pub name: Seq<char>,
    pub value: Seq<char>,
}

impl View for Variable {
    type V = VariableView;

    open spec fn view(&self) -> VariableView {
        VariableView { name: self.name@, value: self.value@ }
    }
}

/// The variables that the template sees for one page, in the order in which
/// they are set: `body`, `number`, `total` and `classes`, the two numbers in
/// decimal.
pub open spec fn page_variables_spec(input: PageInputView) -> Seq<VariableView> {
    seq![
        VariableView { name: "body"@, value: input.body },
        VariableView { name: "number"@, value: decimal_digits(input.number) },
        VariableView { name: "total"@, value: decimal_digits(input.total) },
        VariableView { name: "classes"@, value: input.classes },
    ]
}

/// The variables that the template sees for one page.
pub fn page_variables(input: &PageInput) -> (variables: Vec<Variable>)
    ensures
        variables@.map_values(|v: Variable| v@) == page_variables_spec(input@),
{
    let mut variables: Vec<Variable> = Vec::new();
    variables.push(Variable { name: String::from_str("body"), value: input.body.clone() });
    variables.push(Variable { name: String::from_str("number"), value: decimal(input.number) });
    variables.push(Variable { name: String::from_str("total"), value: decimal(input.total) });
    variables.push(
        Variable { name: String::from_str("classes"), value: input.classes.clone() },
    );
    proof {
        assert(variables@.map_values(|v: Variable| v@) =~= page_variables_spec(input@));
    }
    variables
}

} // verus!
