use deck::markup::{MarkupEvent, Slide};
use deck::segment::segment;

type Step = MarkupEvent<&'static str, &'static str>;

fn slide(attrs: Option<&'static str>, events: Vec<&'static str>) -> Slide<&'static str, &'static str> {
    Slide { attrs, events }
}

#[test]
fn empty_stream_has_no_slides() {
    let events: Vec<Step> = vec![];
    assert_eq!(segment(events), vec![]);
}

#[test]
fn two_sections_make_two_slides() {
    let events: Vec<Step> = vec![
        MarkupEvent::SectionStart("a"),
        MarkupEvent::Other("hello"),
        MarkupEvent::SectionEnd,
        MarkupEvent::SectionStart(""),
        MarkupEvent::Other("world"),
        MarkupEvent::SectionEnd,
    ];
    assert_eq!(
        segment(events),
        vec![slide(Some("a"), vec!["hello"]), slide(Some(""), vec!["world"])]
    );
}

#[test]
fn content_without_sections_is_one_slide() {
    let events: Vec<Step> = vec![MarkupEvent::Other("solo")];
    assert_eq!(segment(events), vec![slide(None, vec!["solo"])]);
}

#[test]
fn content_before_the_first_section_joins_the_first_slide() {
    let events: Vec<Step> = vec![
        MarkupEvent::Other("intro"),
        MarkupEvent::SectionStart("a"),
        MarkupEvent::Other("x"),
        MarkupEvent::SectionEnd,
    ];
    assert_eq!(segment(events), vec![slide(Some("a"), vec!["intro", "x"])]);
}

#[test]
fn trailing_content_makes_a_final_slide() {
    let events: Vec<Step> = vec![
        MarkupEvent::SectionStart("a"),
        MarkupEvent::Other("x"),
        MarkupEvent::SectionEnd,
        MarkupEvent::Other("tail"),
    ];
    assert_eq!(
        segment(events),
        vec![slide(Some("a"), vec!["x"]), slide(None, vec!["tail"])]
    );
}

#[test]
fn unterminated_section_makes_a_final_slide() {
    let events: Vec<Step> = vec![
        MarkupEvent::SectionStart("a"),
        MarkupEvent::SectionEnd,
        MarkupEvent::SectionStart("b"),
    ];
    assert_eq!(
        segment(events),
        vec![slide(Some("a"), vec![]), slide(Some("b"), vec![])]
    );
}

#[test]
fn last_section_start_before_the_end_wins() {
    let events: Vec<Step> = vec![
        MarkupEvent::SectionStart("outer"),
        MarkupEvent::Other("x"),
        MarkupEvent::SectionStart("inner"),
        MarkupEvent::Other("y"),
        MarkupEvent::SectionEnd,
        MarkupEvent::SectionEnd,
    ];
    assert_eq!(
        segment(events),
        vec![slide(Some("inner"), vec!["x", "y"]), slide(None, vec![])]
    );
}

#[test]
fn a_lone_section_end_closes_an_empty_slide() {
    let events: Vec<Step> = vec![MarkupEvent::SectionEnd];
    assert_eq!(segment(events), vec![slide(None, vec![])]);
}

fn markers(slides: &[Slide<&'static str, &'static str>], last_closed: bool) -> Vec<Step> {
    let mut events = vec![];
    for (i, s) in slides.iter().enumerate() {
        if let Some(a) = s.attrs {
            events.push(MarkupEvent::SectionStart(a));
        }
        for e in &s.events {
            events.push(MarkupEvent::Other(*e));
        }
        if i + 1 < slides.len() || last_closed {
            events.push(MarkupEvent::SectionEnd);
        }
    }
    events
}

#[test]
fn three_balanced_sections_make_three_slides() {
    let events: Vec<Step> = vec![
        MarkupEvent::SectionStart("a"),
        MarkupEvent::Other("1"),
        MarkupEvent::SectionEnd,
        MarkupEvent::SectionStart("b"),
        MarkupEvent::SectionEnd,
        MarkupEvent::Other("between"),
        MarkupEvent::SectionStart("c"),
        MarkupEvent::Other("2"),
        MarkupEvent::Other("3"),
        MarkupEvent::SectionEnd,
    ];
    assert_eq!(segment(events).len(), 3);
}

#[test]
fn content_is_kept_in_order() {
    let events: Vec<Step> = vec![
        MarkupEvent::Other("1"),
        MarkupEvent::SectionStart("a"),
        MarkupEvent::Other("2"),
        MarkupEvent::SectionEnd,
        MarkupEvent::SectionEnd,
        MarkupEvent::Other("3"),
        MarkupEvent::SectionStart("b"),
        MarkupEvent::Other("4"),
    ];
    let slides = segment(events);
    let content: Vec<&str> = slides.iter().flat_map(|s| s.events.iter().copied()).collect();
    assert_eq!(content, vec!["1", "2", "3", "4"]);
}

#[test]
fn flat_sections_are_rebuilt_from_their_slides() {
    let events = || -> Vec<Step> {
        vec![
            MarkupEvent::SectionStart("a"),
            MarkupEvent::Other("hello"),
            MarkupEvent::SectionEnd,
            MarkupEvent::Other("free"),
            MarkupEvent::SectionEnd,
            MarkupEvent::SectionStart("b"),
            MarkupEvent::Other("world"),
            MarkupEvent::SectionEnd,
        ]
    };
    assert_eq!(markers(&segment(events()), true), events());
}

#[test]
fn an_open_tail_is_rebuilt_without_an_end() {
    let events = || -> Vec<Step> {
        vec![
            MarkupEvent::SectionStart("a"),
            MarkupEvent::SectionEnd,
            MarkupEvent::SectionStart("b"),
            MarkupEvent::Other("x"),
        ]
    };
    assert_eq!(markers(&segment(events()), false), events());
}

#[test]
fn a_superseded_section_start_is_all_that_is_lost() {
    let events: Vec<Step> = vec![
        MarkupEvent::SectionStart("old"),
        MarkupEvent::SectionStart("new"),
        MarkupEvent::Other("x"),
        MarkupEvent::SectionEnd,
    ];
    let kept: Vec<Step> = vec![
        MarkupEvent::SectionStart("new"),
        MarkupEvent::Other("x"),
        MarkupEvent::SectionEnd,
    ];
    assert_eq!(markers(&segment(events), true), kept);
}
