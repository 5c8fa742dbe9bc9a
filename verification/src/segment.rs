//! Partition of a markup event stream into slides.
//!
//! A slide is a maximal run of events that holds no section end. Every
//! section end closes the run before it, and what follows the last section end
//! forms a final slide when it is not empty.

use vstd::prelude::*;
use crate::markup::{slide_views, MarkupEvent, Slide, SlideView};

verus! {

/// The position of the first section end in `events`, or the length of
/// `events` when it holds none.
pub open spec fn first_end<A, T>(events: Seq<MarkupEvent<A, T>>) -> nat
    decreases events.len(),
{
    if events.len() == 0 || events[0] is SectionEnd {
        0
    } else {
        1 + first_end(events.skip(1))
    }
}

/// The content events of a run, in order.
pub open spec fn contents<A, T>(run: Seq<MarkupEvent<A, T>>) -> Seq<T>
    decreases run.len(),
{
    if run.len() == 0 {
        Seq::empty()
    } else {
        match run.last() {
            MarkupEvent::Other(t) => contents(run.drop_last()).push(t),
            _ => contents(run.drop_last()),
        }
    }
}

/// The attributes of the last section start of a run, if it has one.
pub open spec fn last_start<A, T>(run: Seq<MarkupEvent<A, T>>) -> Option<A>
    decreases run.len(),
{
    if run.len() == 0 {
        None
    } else {
        match run.last() {
            MarkupEvent::SectionStart(a) => Some(a),
            _ => last_start(run.drop_last()),
        }
    }
}

/// The slide that one run makes.
pub open spec fn slide_of<A, T>(run: Seq<MarkupEvent<A, T>>) -> SlideView<A, T> {
    SlideView { attrs: last_start(run), events: contents(run) }
}

/// The slides of an event stream.
pub open spec fn segment_spec<A, T>(events: Seq<MarkupEvent<A, T>>) -> Seq<SlideView<A, T>>
    decreases events.len(),
{
    if events.len() == 0 {
        Seq::empty()
    } else {
        let k = first_end(events) as int;
        if k < events.len() {
            seq![slide_of(events.take(k))] + segment_spec(events.skip(k + 1))
        } else {
            seq![slide_of(events)]
        }
    }
}

/// `first_end` stays inside the stream, nothing before it is a section end,
/// and where it is inside the stream it points at one.
pub proof fn lemma_first_end<A, T>(events: Seq<MarkupEvent<A, T>>)
    ensures
        first_end(events) <= events.len(),
        forall|j: int| 0 <= j < first_end(events) ==> !(#[trigger] events[j] is SectionEnd),
        first_end(events) < events.len() ==> events[first_end(events) as int] is SectionEnd,
    decreases events.len(),
{
    if events.len() == 0 || events[0] is SectionEnd {
    } else {
        let rest = events.skip(1);
        lemma_first_end(rest);
        assert forall|j: int| 0 <= j < first_end(events) implies !(#[trigger] events[j]
            is SectionEnd) by {
            if j > 0 {
                assert(rest[j - 1] == events[j]);
            }
        }
    }
}

/// A position with no section end before it is at most `first_end`; one that
/// also holds a section end, or is the end of the stream, is `first_end`.
pub proof fn lemma_first_end_unique<A, T>(events: Seq<MarkupEvent<A, T>>, k: int)
    requires
        0 <= k <= events.len(),
        forall|j: int| 0 <= j < k ==> !(#[trigger] events[j] is SectionEnd),
        k < events.len() ==> events[k] is SectionEnd,
    ensures
        first_end(events) == k,
{
    lemma_first_end(events);
    let f = first_end(events) as int;
    if f < k {
        assert(events[f] is SectionEnd);
    } else if k < f {
        assert(events[k] is SectionEnd);
    }
}

/// Splits `events` into slides.
///
/// Each section end closes a slide, which holds the content events since the
/// previous section end and the attributes of the last section start among
/// them. Events after the last section end make one more slide.
pub fn segment<A, T>(events: Vec<MarkupEvent<A, T>>) -> (slides: Vec<Slide<A, T>>)
    ensures
        slide_views(slides@) == segment_spec(events@),
        slides.len() == segment_spec(events@).len(),
{
    let ghost all = events@;
    let mut slides: Vec<Slide<A, T>> = Vec::new();
    let mut attrs: Option<A> = None;
    let mut buffer: Vec<T> = Vec::new();
    let mut pending = false;
    let ghost mut start: int = 0;
    proof {
        assert(all.skip(0) =~= all);
        assert(slide_views(slides@) =~= Seq::empty());
    }
    for event in it: events.into_iter()
        invariant
            it.seq() == all,
            0 <= start <= it.index() <= all.len(),
            segment_spec(all) == slide_views(slides@) + segment_spec(all.skip(start)),
            forall|j: int| start <= j < it.index() ==> !(#[trigger] all[j] is SectionEnd),
            attrs == last_start(all.subrange(start, it.index() as int)),
            buffer@ == contents(all.subrange(start, it.index() as int)),
            pending == (start < it.index()),
    {
        let ghost i = it.index() as int;
        let ghost run = all.subrange(start, i);
        let ghost next = all.subrange(start, i + 1);
        proof {
            assert(next.drop_last() =~= run);
            assert(next.last() == all[i]);
        }
        match event {
            MarkupEvent::SectionStart(a) => {
                attrs = Some(a);
                pending = true;
            },
            MarkupEvent::SectionEnd => {
                let ghost before = slide_views(slides@);
                let slide = Slide { attrs, events: buffer };
                proof {
                    let tail = all.skip(start);
                    assert forall|j: int| 0 <= j < i - start implies !(#[trigger] tail[j]
                        is SectionEnd) by {
                        assert(tail[j] == all[start + j]);
                    }
                    lemma_first_end_unique(tail, i - start);
                    assert(tail.take(i - start) =~= run);
                    assert(tail.skip(i - start + 1) =~= all.skip(i + 1));
                    assert(segment_spec(tail) == seq![slide_of(run)] + segment_spec(
                        all.skip(i + 1),
                    ));
                    assert(slide@ == slide_of(run));
                }
                slides.push(slide);
                attrs = None;
                buffer = Vec::new();
                pending = false;
                proof {
                    assert(slide_views(slides@) =~= before.push(slide_of(run)));
                    assert(before.push(slide_of(run)) + segment_spec(all.skip(i + 1)) =~= before
                        + (seq![slide_of(run)] + segment_spec(all.skip(i + 1))));
                    start = i + 1;
                    assert(all.subrange(start, i + 1) =~= Seq::empty());
                }
            },
            MarkupEvent::Other(t) => {
                buffer.push(t);
                pending = true;
            },
        }
    }
    let ghost n = all.len() as int;
    if pending {
        let ghost before = slide_views(slides@);
        let ghost run = all.subrange(start, n);
        let slide = Slide { attrs, events: buffer };
        proof {
            let tail = all.skip(start);
            assert(tail =~= run);
            lemma_first_end_unique(tail, n - start);
            assert(segment_spec(tail) == seq![slide_of(run)]);
        }
        slides.push(slide);
        proof {
            assert(slide_views(slides@) =~= before.push(slide_of(run)));
            assert(before.push(slide_of(run)) =~= before + seq![slide_of(run)]);
        }
    } else {
        proof {
            assert(all.skip(start).len() == 0);
            assert(slide_views(slides@) + Seq::empty() =~= slide_views(slides@));
        }
    }
    slides
}

} // verus!
