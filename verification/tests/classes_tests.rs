use deck::classes::join_classes;
use deck::markup::{AttrKind, Attribute};

fn attr(kind: AttrKind, value: &str) -> Attribute {
    Attribute { kind, value: value.to_string() }
}

#[test]
fn no_attributes_give_an_empty_class_list() {
    assert_eq!(join_classes(&vec![]), "");
}

#[test]
fn one_class_stands_alone() {
    assert_eq!(join_classes(&vec![attr(AttrKind::Class, "a")]), "a");
}

#[test]
fn classes_are_joined_by_single_spaces_in_order() {
    let attrs = vec![
        attr(AttrKind::Class, "c1"),
        attr(AttrKind::Class, "c2"),
        attr(AttrKind::Class, "c3"),
    ];
    assert_eq!(join_classes(&attrs), "c1 c2 c3");
}

#[test]
fn other_kinds_are_left_out() {
    let attrs = vec![
        attr(AttrKind::Id, "top"),
        attr(AttrKind::Class, "wide"),
        attr(AttrKind::Pair, "value"),
        attr(AttrKind::Comment, "note"),
        attr(AttrKind::Class, "dark"),
    ];
    assert_eq!(join_classes(&attrs), "wide dark");
}

#[test]
fn attributes_without_a_class_give_an_empty_class_list() {
    let attrs = vec![attr(AttrKind::Id, "top"), attr(AttrKind::Pair, "v")];
    assert_eq!(join_classes(&attrs), "");
}

#[test]
fn an_empty_class_value_still_takes_its_place() {
    let attrs = vec![attr(AttrKind::Class, ""), attr(AttrKind::Class, "b")];
    assert_eq!(join_classes(&attrs), " b");
}
