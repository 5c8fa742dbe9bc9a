//! How many slides a stream makes.

use vstd::prelude::*;
use crate::markup::MarkupEvent;
use crate::segment::{first_end, lemma_first_end, segment_spec};

verus! {

/// The number of section starts in `events`.
pub open spec fn count_starts<A, T>(events: Seq<MarkupEvent<A, T>>) -> nat
    decreases events.len(),
{
    if events.len() == 0 {
        0
    } else if events.last() is SectionStart {
        count_starts(events.drop_last()) + 1
    } else {
        count_starts(events.drop_last())
    }
}

/// The number of section ends in `events`.
pub open spec fn count_ends<A, T>(events: Seq<MarkupEvent<A, T>>) -> nat
    decreases events.len(),
{
    if events.len() == 0 {
        0
    } else if events.last() is SectionEnd {
        count_ends(events.drop_last()) + 1
    } else {
        count_ends(events.drop_last())
    }
}

/// Whether a section is open after `events`, or `None` where the sections of
/// `events` are not flat pairs: where a section starts inside an open one, or
/// an end closes nothing.
pub open spec fn open_after<A, T>(events: Seq<MarkupEvent<A, T>>) -> Option<bool>
    decreases events.len(),
{
    if events.len() == 0 {
        Some(false)
    } else {
        match open_after(events.drop_last()) {
            None => None,
            Some(open) => match events.last() {
                MarkupEvent::SectionStart(_) => if open {
                    None
                } else {
                    Some(true)
                },
                MarkupEvent::SectionEnd => if open {
                    Some(false)
                } else {
                    None
                },
                MarkupEvent::Other(_) => Some(open),
            },
        }
    }
}

/// The sections of `events` are balanced pairs of a start and an end.
pub open spec fn balanced<A, T>(events: Seq<MarkupEvent<A, T>>) -> bool {
    open_after(events) == Some(false)
}

/// The stream goes on after its last section end, or has no section end and
/// is not empty.
pub open spec fn has_open_tail<A, T>(events: Seq<MarkupEvent<A, T>>) -> bool {
    events.len() > 0 && !(events.last() is SectionEnd)
}

/// The section ends of two streams add up when one follows the other.
proof fn lemma_count_ends_concat<A, T>(
    a: Seq<MarkupEvent<A, T>>,
    b: Seq<MarkupEvent<A, T>>,
)
    ensures
        count_ends(a + b) == count_ends(a) + count_ends(b),
    decreases b.len(),
{
    if b.len() == 0 {
        assert(a + b =~= a);
    } else {
        assert((a + b).drop_last() =~= a + b.drop_last());
        assert((a + b).last() == b.last());
        lemma_count_ends_concat(a, b.drop_last());
    }
}

/// A stream without a section end counts none.
proof fn lemma_count_ends_none<A, T>(events: Seq<MarkupEvent<A, T>>)
    requires
        forall|j: int| 0 <= j < events.len() ==> !(#[trigger] events[j] is SectionEnd),
    ensures
        count_ends(events) == 0,
    decreases events.len(),
{
    if events.len() > 0 {
        lemma_count_ends_none(events.drop_last());
    }
}

/// Every section end closes one slide, and an open tail makes one more.
pub proof fn lemma_slide_count<A, T>(events: Seq<MarkupEvent<A, T>>)
    ensures
        segment_spec(events).len() == count_ends(events) + if has_open_tail(events) {
            1nat
        } else {
            0nat
        },
    decreases events.len(),
{
    if events.len() > 0 {
        lemma_first_end(events);
        let k = first_end(events) as int;
        if k < events.len() {
            let head = events.take(k + 1);
            let rest = events.skip(k + 1);
            lemma_slide_count(rest);
            assert(events =~= head + rest);
            lemma_count_ends_concat(head, rest);
            assert(head.drop_last() =~= events.take(k));
            lemma_count_ends_none(events.take(k));
            assert(head.last() is SectionEnd);
            assert(count_ends(head) == 1);
            if rest.len() > 0 {
                assert(rest.last() == events.last());
            }
        } else {
            lemma_count_ends_none(events);
        }
    }
}

/// In a stream of flat sections every start but an open one has its end.
proof fn lemma_balanced_counts<A, T>(events: Seq<MarkupEvent<A, T>>)
    requires
        open_after(events) is Some,
    ensures
        count_starts(events) == count_ends(events) + if open_after(events) == Some(true) {
            1nat
        } else {
            0nat
        },
    decreases events.len(),
{
    if events.len() > 0 {
        lemma_balanced_counts(events.drop_last());
    }
}

/// A stream whose sections are `k` balanced pairs of a start and an end, and
/// which ends with its last section end, makes exactly `k` slides.
pub proof fn lemma_slides_match_sections<A, T>(events: Seq<MarkupEvent<A, T>>)
    requires
        balanced(events),
        !has_open_tail(events),
    ensures
        segment_spec(events).len() == count_starts(events),
        segment_spec(events).len() == count_ends(events),
{
    lemma_slide_count(events);
    lemma_balanced_counts(events);
}

} // verus!
