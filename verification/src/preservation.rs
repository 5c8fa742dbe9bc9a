//! What segmentation keeps of a stream.

use vstd::prelude::*;
use crate::markup::{MarkupEvent, SlideView};
use crate::segment::{contents, first_end, last_start, lemma_first_end, segment_spec, slide_of};

verus! {

/// The content of all slides, one slide after the other.
pub open spec fn all_contents<A, T>(slides: Seq<SlideView<A, T>>) -> Seq<T>
    decreases slides.len(),
{
    if slides.len() == 0 {
        Seq::empty()
    } else {
        slides[0].events + all_contents(slides.skip(1))
    }
}

/// The content of two streams, one after the other, is the content of the
/// first followed by that of the second.
proof fn lemma_contents_concat<A, T>(a: Seq<MarkupEvent<A, T>>, b: Seq<MarkupEvent<A, T>>)
    ensures
        contents(a + b) == contents(a) + contents(b),
    decreases b.len(),
{
    if b.len() == 0 {
    } else {
        assert((a + b).drop_last() =~= a + b.drop_last());
        lemma_contents_concat(a, b.drop_last());
        match b.last() {
            MarkupEvent::Other(t) => {
                assert((contents(a) + contents(b.drop_last())).push(t) =~= contents(a) + contents(
                    b.drop_last(),
                ).push(t));
            },
            _ => {},
        }
    }
}

/// Segmentation keeps every content event, in order: the content of the
/// slides, one after the other, is the content of the stream.
pub proof fn lemma_content_preserved<A, T>(events: Seq<MarkupEvent<A, T>>)
    ensures
        all_contents(segment_spec(events)) == contents(events),
    decreases events.len(),
{
    if events.len() > 0 {
        lemma_first_end(events);
        let k = first_end(events) as int;
        let slides = segment_spec(events);
        if k < events.len() {
            let run = events.take(k);
            let head = events.take(k + 1);
            let rest = events.skip(k + 1);
            lemma_content_preserved(rest);
            assert(slides.skip(1) =~= segment_spec(rest));
            assert(head.drop_last() =~= run);
            assert(events =~= head + rest);
            lemma_contents_concat(head, rest);
        } else {
            assert(all_contents(slides) == slides[0].events + all_contents(slides.skip(1)));
        }
    }
}

/// The events that a slide stands for: the start of its section, if it has
/// one, its content, and the end of the section where it was closed.
pub open spec fn slide_events<A, T>(slide: SlideView<A, T>, closed: bool) -> Seq<MarkupEvent<A, T>> {
    let start = match slide.attrs {
        Some(a) => seq![MarkupEvent::<A, T>::SectionStart(a)],
        None => Seq::empty(),
    };
    let body = slide.events.map_values(|t: T| MarkupEvent::<A, T>::Other(t));
    let end = if closed {
        seq![MarkupEvent::<A, T>::SectionEnd]
    } else {
        Seq::empty()
    };
    start + body + end
}

/// The stream that a list of slides stands for. Every slide but the last was
/// closed by a section end; `last_closed` says whether the last one was.
pub open spec fn rebuild<A, T>(slides: Seq<SlideView<A, T>>, last_closed: bool) -> Seq<
    MarkupEvent<A, T>,
>
    decreases slides.len(),
{
    if slides.len() == 0 {
        Seq::empty()
    } else if slides.len() == 1 {
        slide_events(slides[0], last_closed)
    } else {
        slide_events(slides[0], true) + rebuild(slides.skip(1), last_closed)
    }
}

/// No section start stands directly behind a content event: in every slide
/// the section starts come first.
pub open spec fn starts_lead<A, T>(events: Seq<MarkupEvent<A, T>>) -> bool {
    forall|i: int, j: int|
        0 <= i && j == i + 1 && j < events.len() && (#[trigger] events[i]) is Other ==> !((
        #[trigger] events[j]) is SectionStart)
}

/// The stream without the section starts that are superseded: those that the
/// next event, another section start, overwrites.
pub open spec fn kept<A, T>(events: Seq<MarkupEvent<A, T>>) -> Seq<MarkupEvent<A, T>>
    decreases events.len(),
{
    if events.len() == 0 {
        Seq::empty()
    } else if events[0] is SectionStart && events.len() > 1 && events[1] is SectionStart {
        kept(events.skip(1))
    } else {
        seq![events[0]] + kept(events.skip(1))
    }
}

/// The last section start of two streams, one after the other, is that of the
/// second where it has one, and else that of the first.
proof fn lemma_last_start_concat<A, T>(a: Seq<MarkupEvent<A, T>>, b: Seq<MarkupEvent<A, T>>)
    ensures
        last_start(a + b) == if last_start(b) is Some {
            last_start(b)
        } else {
            last_start(a)
        },
    decreases b.len(),
{
    if b.len() > 0 {
        assert((a + b).drop_last() =~= a + b.drop_last());
        lemma_last_start_concat(a, b.drop_last());
    }
}

/// A run of content events has no section start, and is its content.
proof fn lemma_content_run<A, T>(run: Seq<MarkupEvent<A, T>>)
    requires
        forall|j: int| 0 <= j < run.len() ==> (#[trigger] run[j]) is Other,
    ensures
        last_start(run) is None,
        contents(run).map_values(|t: T| MarkupEvent::<A, T>::Other(t)) == run,
    decreases run.len(),
{
    let wrap = |t: T| MarkupEvent::<A, T>::Other(t);
    if run.len() > 0 {
        let front = run.drop_last();
        lemma_content_run(front);
        let t = run.last()->Other_0;
        assert(contents(front).push(t).map_values(wrap) =~= contents(front).map_values(wrap).push(
            wrap(t),
        ));
    }
}

/// A stream without section starts keeps all its events.
proof fn lemma_kept_without_starts<A, T>(events: Seq<MarkupEvent<A, T>>)
    requires
        forall|j: int| 0 <= j < events.len() ==> !((#[trigger] events[j]) is SectionStart),
    ensures
        kept(events) == events,
    decreases events.len(),
{
    if events.len() > 0 {
        lemma_kept_without_starts(events.skip(1));
    }
}

/// In a run that begins with content and where section starts lead, the
/// event at `j` is content.
proof fn lemma_content_follows<A, T>(run: Seq<MarkupEvent<A, T>>, j: int)
    requires
        0 <= j < run.len(),
        run[0] is Other,
        starts_lead(run),
        forall|i: int| 0 <= i < run.len() ==> !((#[trigger] run[i]) is SectionEnd),
    ensures
        run[j] is Other,
    decreases j,
{
    if j > 0 {
        lemma_content_follows(run, j - 1);
    }
}

/// A stream with a section start has a last one.
proof fn lemma_last_start_some<A, T>(run: Seq<MarkupEvent<A, T>>, j: int)
    requires
        0 <= j < run.len(),
        run[j] is SectionStart,
    ensures
        last_start(run) is Some,
    decreases run.len(),
{
    if j < run.len() - 1 {
        if !(run.last() is SectionStart) {
            lemma_last_start_some(run.drop_last(), j);
        }
    }
}

/// What is kept of two streams, one after the other, is what is kept of each,
/// unless a section start at the end of the first meets one at the start of
/// the second.
proof fn lemma_kept_concat<A, T>(a: Seq<MarkupEvent<A, T>>, b: Seq<MarkupEvent<A, T>>)
    requires
        a.len() == 0 || b.len() == 0 || !(a.last() is SectionStart && b[0] is SectionStart),
    ensures
        kept(a + b) == kept(a) + kept(b),
    decreases a.len(),
{
    if a.len() > 0 {
        let rest = a.skip(1);
        assert((a + b).skip(1) =~= rest + b);
        lemma_kept_concat(rest, b);
    }
}

/// A run without a section end, where section starts lead, is rebuilt from
/// its slide up to its superseded section starts.
proof fn lemma_run_rebuilt<A, T>(run: Seq<MarkupEvent<A, T>>)
    requires
        starts_lead(run),
        forall|i: int| 0 <= i < run.len() ==> !((#[trigger] run[i]) is SectionEnd),
    ensures
        slide_events(slide_of(run), false) == kept(run),
    decreases run.len(),
{
    if run.len() == 0 {
    } else if run[0] is Other {
        assert forall|j: int| 0 <= j < run.len() implies (#[trigger] run[j]) is Other by {
            lemma_content_follows(run, j);
        }
        lemma_content_run(run);
        lemma_kept_without_starts(run);
    } else {
        let first = seq![run[0]];
        let rest = run.skip(1);
        assert(first + rest =~= run);
        assert(contents(first.drop_last()) =~= Seq::empty());
        lemma_contents_concat(first, rest);
        lemma_last_start_concat(first, rest);
        if rest.len() > 0 && rest[0] is SectionStart {
            lemma_last_start_some(rest, 0);
            lemma_run_rebuilt(rest);
        } else {
            assert forall|j: int| 0 <= j < rest.len() implies (#[trigger] rest[j]) is Other by {
                lemma_content_follows(rest, j);
            }
            lemma_content_run(rest);
            lemma_kept_without_starts(rest);
        }
    }
}

/// Segmentation loses nothing but superseded section starts: where section
/// starts lead their slides, putting a section start before and a section end
/// behind the content of each slide, where the slide has them, gives back the
/// stream without its superseded section starts.
pub proof fn lemma_sections_rebuilt<A, T>(events: Seq<MarkupEvent<A, T>>)
    requires
        starts_lead(events),
    ensures
        rebuild(segment_spec(events), events.len() > 0 && events.last() is SectionEnd) == kept(
            events,
        ),
    decreases events.len(),
{
    if events.len() > 0 {
        lemma_first_end(events);
        let k = first_end(events) as int;
        let slides = segment_spec(events);
        if k < events.len() {
            let run = events.take(k);
            let end = seq![events[k]];
            let rest = events.skip(k + 1);
            lemma_run_rebuilt(run);
            lemma_sections_rebuilt(rest);
            assert(events =~= (run + end) + rest);
            lemma_kept_concat(run + end, rest);
            lemma_kept_concat(run, end);
            assert(kept(end.skip(1)) =~= Seq::empty());
            assert(slides.skip(1) =~= segment_spec(rest));
        } else {
            lemma_run_rebuilt(events);
        }
    }
}

} // verus!
