//! Rendering of text with std's `Debug` formatting, which the module uses
//! in its warnings and debug lines.
use vstd::prelude::*;
use crate::text::string_views;

verus! {

/// What `format!("{:?}", s)` gives for a string `s`: the string quoted,
/// with std's escapes.
pub uninterp spec fn debug_quoted_text(s: Seq<char>) -> Seq<char>;

/// The `Debug` renderings of `items`, separated by `, `.
pub open spec fn quoted_items(items: Seq<Seq<char>>) -> Seq<char>
    decreases items.len(),
{
    if items.len() == 0 {
        Seq::empty()
    } else if items.len() == 1 {
        debug_quoted_text(items[0])
    } else {
        quoted_items(items.drop_last()) + ", "@ + debug_quoted_text(items.last())
    }
}

/// What `format!("{:?}", v)` gives for a vector `v` of strings: `[`, the
/// `Debug` rendering of each string separated by `, `, then `]`.
pub open spec fn debug_list_text(items: Seq<Seq<char>>) -> Seq<char> {
    "["@ + quoted_items(items) + "]"@
}

/// `format!("{:?}", s)` on a string: std's `Debug` for `str`. The contract
/// only names the result; the escaping rules of std are not restated here.
#[verifier::external_body]
pub(crate) fn debug_quoted(s: &str) -> (r: String)
    ensures
        r@ == debug_quoted_text(s@),
{
    format!("{:?}", s)
}

/// The `Debug` rendering of a vector of strings.
pub fn debug_list(items: &Vec<String>) -> (r: String)
    ensures
        r@ == debug_list_text(string_views(items@)),
{
    let ghost all = string_views(items@);
    let mut r = String::from_str("[");
    let mut i: usize = 0;
    while i < items.len()
        invariant
            all == string_views(items@),
            0 <= i <= items.len(),
            r@ == "["@ + quoted_items(all.take(i as int)),
        decreases items.len() - i,
    {
        let quoted = debug_quoted(items[i].as_str());
        if i > 0 {
            r.append(", ");
        }
        r.append(quoted.as_str());
        proof {
            assert(all.take(i + 1).drop_last() =~= all.take(i as int));
            assert(all.take(i + 1).last() == items@[i as int]@);
            if i == 0 {
                assert(all.take(1)[0] == items@[0]@);
                assert(quoted_items(all.take(0)) =~= Seq::<char>::empty());
            }
        }
        i = i + 1;
    }
    assert(all.take(items.len() as int) =~= all);
    r.append("]");
    r
}

/// `prefix` followed by `rest`.
pub fn joined(prefix: &str, rest: &str) -> (r: String)
    ensures
        r@ == prefix@ + rest@,
{
    let mut r = String::from_str(prefix);
    r.append(rest);
    r
}

} // verus!
