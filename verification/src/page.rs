//! The file names of the pages of a deck.

use vstd::prelude::*;
use vstd::string::StringExecFns;
use crate::decimal::{decimal, decimal_digits, lemma_decimal_injective};

verus! {

/// The file name of the page with the given number: the number in decimal,
/// followed by `.html`.
pub open spec fn page_name_spec(number: nat) -> Seq<char> {
    decimal_digits(number) + seq!['.', 'h', 't', 'm', 'l']
}

/// The file name of the page with the given number.
pub fn page_name(number: usize) -> (name: String)
    ensures
        name@ == page_name_spec(number as nat),
{
    let mut name = decimal(number);
    name.append(".html");
    proof {
        reveal_strlit(".html");
        assert(".html"@ =~= seq!['.', 'h', 't', 'm', 'l']);
    }
    name
}

/// Pages with different numbers have different file names.
pub proof fn lemma_page_names_differ(a: nat, b: nat)
    requires
        a != b,
    ensures
        page_name_spec(a) != page_name_spec(b),
{
    let suffix = seq!['.', 'h', 't', 'm', 'l'];
    if page_name_spec(a) == page_name_spec(b) {
        let da = decimal_digits(a);
        let db = decimal_digits(b);
        assert((da + suffix).len() == da.len() + 5);
        assert((db + suffix).len() == db.len() + 5);
        assert((da + suffix).subrange(0, da.len() as int) =~= da);
        assert((db + suffix).subrange(0, db.len() as int) =~= db);
        lemma_decimal_injective(a, b);
    }
}

/// The file name of the page at position `i` of a deck.
pub open spec fn page_file(i: int) -> Seq<char> {
    page_name_spec((i + 1) as nat)
}

/// The numbering of a deck is dense: among the `n` pages of a deck, a page
/// with the file name of the number `k` exists exactly when `k` is one of
/// `1` up to `n`. So no page is missing, and none has the name of the number
/// behind the last.
pub proof fn lemma_numbering_dense(n: nat, k: nat)
    ensures
        (exists|i: int| 0 <= i < n && #[trigger] page_file(i) == page_name_spec(k)) <==> 1 <= k
            <= n,
{
    if 1 <= k <= n {
        assert(page_file(k - 1) == page_name_spec(k));
    } else {
        assert forall|i: int| 0 <= i < n implies #[trigger] page_file(i) != page_name_spec(k) by {
            lemma_page_names_differ((i + 1) as nat, k);
        }
    }
}

} // verus!
