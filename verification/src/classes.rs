//! The class list of a slide: the values of its class attributes, joined by
//! single spaces.

use vstd::prelude::*;
use vstd::string::StringExecFns;
use crate::markup::{attribute_views, AttrKind, Attribute, AttributeView};

verus! {

/// The values of the class attributes among `attrs`, in order.
pub open spec fn class_values(attrs: Seq<AttributeView>) -> Seq<Seq<char>>
    decreases attrs.len(),
{
    if attrs.len() == 0 {
        Seq::empty()
    } else if attrs.last().kind == AttrKind::Class {
        class_values(attrs.drop_last()).push(attrs.last().value)
    } else {
        class_values(attrs.drop_last())
    }
}

/// The parts with one space between each two neighbours.
pub open spec fn join_with_space(parts: Seq<Seq<char>>) -> Seq<char>
    decreases parts.len(),
{
    if parts.len() == 0 {
        Seq::empty()
    } else if parts.len() == 1 {
        parts[0]
    } else {
        join_with_space(parts.drop_last()) + seq![' '] + parts.last()
    }
}

/// The class list of a section with the attributes `attrs`.
pub open spec fn class_list(attrs: Seq<AttributeView>) -> Seq<char> {
    join_with_space(class_values(attrs))
}

/// Joins the values of the class attributes among `attrs` with single spaces,
/// in the order in which they stand.
pub fn join_classes(attrs: &Vec<Attribute>) -> (classes: String)
    ensures
        classes@ == class_list(attribute_views(attrs@)),
{
    let ghost views = attribute_views(attrs@);
    let mut classes = String::new();
    let mut found = false;
    let mut i: usize = 0;
    proof {
        assert(views.take(0) =~= Seq::empty());
    }
    while i < attrs.len()
        invariant
            0 <= i <= attrs.len(),
            views == attribute_views(attrs@),
            classes@ == class_list(views.take(i as int)),
            found == (class_values(views.take(i as int)).len() > 0),
        decreases attrs.len() - i,
    {
        let ghost before = views.take(i as int);
        let ghost next = views.take(i + 1);
        proof {
            assert(next.drop_last() =~= before);
            assert(next.last() == attrs@[i as int]@);
        }
        let attr = &attrs[i];
        match attr.kind {
            AttrKind::Class => {
                if found {
                    classes.append(" ");
                    proof {
                        reveal_strlit(" ");
                        assert(" "@ =~= seq![' ']);
                    }
                }
                classes.append(attr.value.as_str());
                found = true;
                proof {
                    let values = class_values(next);
                    assert(values.drop_last() =~= class_values(before));
                    assert(values.last() == attr.value@);
                    if class_values(before).len() == 0 {
                        assert(Seq::<char>::empty() + attr.value@ =~= attr.value@);
                    }
                }
            },
            _ => {},
        }
        i = i + 1;
    }
    proof {
        assert(views.take(attrs.len() as int) =~= views);
    }
    classes
}

} // verus!
