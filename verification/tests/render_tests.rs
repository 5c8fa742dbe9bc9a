use deck::limits::{fits, marks, MAX_MARKS};
use deck::markup::{AttrKind, Attribute, MarkupEvent};
use deck::page::page_name;
use deck::render::{
    attributes_of, classes_of, markup_events, page_inputs, page_variables, BuildError, PageInput,
    Variable, TEMPLATE_NAME,
};
use deck::segment::segment;

const TEMPLATE: &str = "<div class=\"{{classes}}\">{{body}} ({{number}}/{{total}})</div>";

fn input(number: usize, total: usize, body: &str, classes: &str) -> PageInput {
    PageInput { number, total, body: body.to_string(), classes: classes.to_string() }
}

/// Renders each input with the template, as a program around the library
/// does, and gives the files by name.
fn files(inputs: &[PageInput], template: &str) -> Vec<(String, String)> {
    let mut engine = tera::Tera::default();
    engine.add_raw_template(TEMPLATE_NAME, template).unwrap();
    let mut out = vec![];
    for input in inputs {
        let mut context = tera::Context::new();
        for variable in page_variables(input) {
            context.insert(variable.name, &variable.value);
        }
        out.push((page_name(input.number), engine.render(TEMPLATE_NAME, &context).unwrap()));
    }
    out
}

fn file(name: &str, contents: &str) -> (String, String) {
    (name.to_string(), contents.to_string())
}

#[test]
fn two_slide_build() {
    let inputs = page_inputs("{.a}\n# hello\n\n# world\n").unwrap();
    assert_eq!(
        inputs,
        vec![input(1, 2, "<h1>hello</h1>\n", "a"), input(2, 2, "<h1>world</h1>\n", "")]
    );
    assert_eq!(
        files(&inputs, TEMPLATE),
        vec![
            file("1.html", "<div class=\"a\"><h1>hello</h1>\n (1/2)</div>"),
            file("2.html", "<div class=\"\"><h1>world</h1>\n (2/2)</div>"),
        ]
    );
}

#[test]
fn no_sections() {
    let inputs = page_inputs("solo\n").unwrap();
    assert_eq!(inputs, vec![input(1, 1, "<p>solo</p>\n", "")]);
    assert_eq!(
        files(&inputs, "{{body}}|{{number}}|{{total}}|{{classes}}|"),
        vec![file("1.html", "<p>solo</p>\n|1|1||")]
    );
}

#[test]
fn an_empty_document_has_no_pages() {
    assert_eq!(page_inputs(""), Ok(vec![]));
}

#[test]
fn pages_are_numbered_without_gaps() {
    let mut src = String::new();
    for i in 0..12 {
        src.push_str(&format!("# slide {}\n\ntext\n\n", i));
    }
    let inputs = page_inputs(&src).unwrap();
    assert_eq!(inputs.len(), 12);
    for (i, p) in inputs.iter().enumerate() {
        assert_eq!(p.number, i + 1);
        assert_eq!(p.total, 12);
        assert_eq!(page_name(p.number), format!("{}.html", i + 1));
    }
    let names: Vec<String> = inputs.iter().map(|p| page_name(p.number)).collect();
    assert!(!names.contains(&"13.html".to_string()));
    assert!(!names.contains(&"0.html".to_string()));
}

#[test]
fn several_classes_reach_the_template() {
    let inputs = page_inputs("{.wide .dark #top}\n# title\n").unwrap();
    assert_eq!(inputs[0].classes, "wide dark");
    assert_eq!(files(&inputs, "{{classes}}"), vec![file("1.html", "wide dark")]);
}

#[test]
fn the_variables_of_a_page_are_body_number_total_and_classes() {
    let variables = page_variables(&input(3, 12, "<p>x</p>", "a b"));
    let pair = |name: &str, value: &str| Variable {
        name: name.to_string(),
        value: value.to_string(),
    };
    assert_eq!(
        variables,
        vec![
            pair("body", "<p>x</p>"),
            pair("number", "3"),
            pair("total", "12"),
            pair("classes", "a b"),
        ]
    );
}

#[test]
fn the_template_is_known_as_slide() {
    assert_eq!(TEMPLATE_NAME, "slide");
}

#[test]
fn a_heading_of_too_many_levels_is_refused() {
    let mut src = "#".repeat(65536);
    src.push_str(" word\n");
    assert_eq!(page_inputs(&src), Err(BuildError::SourceRefused));
}

#[test]
fn too_deep_a_nesting_is_refused() {
    let mut src = "> ".repeat(65536);
    src.push_str("- item\n");
    assert_eq!(page_inputs(&src), Err(BuildError::SourceRefused));
}

#[test]
fn a_source_at_the_limit_is_taken() {
    let at_limit = ".".repeat(MAX_MARKS);
    assert!(fits(&at_limit));
    assert!(page_inputs(&at_limit).is_ok());
    let over = ".".repeat(MAX_MARKS + 1);
    assert!(!fits(&over));
    assert_eq!(page_inputs(&over), Err(BuildError::SourceRefused));
}

#[test]
fn letters_digits_and_spaces_never_count() {
    let long = "word 123 ".repeat(20000);
    assert!(fits(&long));
    assert!(fits(""));
}

#[test]
fn punctuation_is_what_counts() {
    for c in "!\"#$%&'()*+,-./:;<=>?@[\\]^_`{|}~".chars() {
        assert!(marks(c));
    }
    for c in "aZ09 \n\t\u{e9}\u{4e2d}".chars() {
        assert!(!marks(c));
    }
}

#[test]
fn section_delimiters_are_told_apart() {
    let events = markup_events("# a\n\ntext\n");
    assert!(matches!(events.first(), Some(MarkupEvent::SectionStart(_))));
    assert!(matches!(events.last(), Some(MarkupEvent::SectionEnd)));
    let inner = &events[1..events.len() - 1];
    assert!(!inner.is_empty());
    assert!(inner.iter().all(|e| matches!(e, MarkupEvent::Other(_))));
}

#[test]
fn content_events_are_passed_on_unchanged() {
    let src = "# a\n\ntext\n";
    let parsed: Vec<jotdown::Event> = jotdown::Parser::new(src).collect();
    let events = markup_events(src);
    assert_eq!(events.len(), parsed.len());
    for (event, raw) in events.iter().zip(parsed.iter()) {
        if let MarkupEvent::Other(e) = event {
            assert_eq!(e, raw);
        }
    }
}

#[test]
fn nested_sections_are_treated_as_flat() {
    let slides = segment(markup_events("# outer\n\n## inner\n"));
    assert_eq!(slides.len(), 2);
    assert!(slides[0].attrs.is_some());
    assert!(!slides[0].events.is_empty());
    assert!(slides[1].attrs.is_none());
    assert!(slides[1].events.is_empty());
}

#[test]
fn attributes_keep_their_kind_value_and_order() {
    let attrs = jotdown::Attributes::try_from("{.a #b .c key=val}").unwrap();
    assert_eq!(
        attributes_of(&attrs),
        vec![
            Attribute { kind: AttrKind::Class, value: "a".to_string() },
            Attribute { kind: AttrKind::Id, value: "b".to_string() },
            Attribute { kind: AttrKind::Class, value: "c".to_string() },
            Attribute { kind: AttrKind::Pair, value: "val".to_string() },
        ]
    );
}

#[test]
fn an_empty_attribute_bag_has_no_attributes() {
    assert_eq!(attributes_of(&jotdown::Attributes::new()), vec![]);
}

#[test]
fn the_classes_of_a_slide_come_from_its_section() {
    let attrs = jotdown::Attributes::try_from("{.a .b}").unwrap();
    assert_eq!(classes_of(&Some(attrs)), "a b");
    assert_eq!(classes_of(&Some(jotdown::Attributes::new())), "");
    assert_eq!(classes_of(&None), "");
}
