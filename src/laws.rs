use crate::entry::{Entry, is_hidden_name};
use crate::layer::{
    connector, depth_allows, kept, layer_spec, lemma_kept, shown, view_lines, Line,
};
use crate::options::Options;
use vstd::prelude::*;

verus! {

/// With a depth limit of zero nothing at all is listed.
pub proof fn lemma_zero_depth_lists_nothing(
    entries: Seq<Entry>,
    depth: int,
    prefix: Seq<char>,
    options: Options,
)
    requires
        depth >= 0,
        options.depth == Some(0usize),
    ensures
        layer_spec(entries, depth, prefix, options).len() == 0,
{
}

/// With a depth limit of `n`, a level at depth `n` or deeper lists nothing;
/// a level that lists anything lies above the limit, and each directory on
/// it opens the next level down, so no listed entry lies at depth `n` or
/// deeper.
pub proof fn lemma_depth_limit(
    entries: Seq<Entry>,
    depth: int,
    prefix: Seq<char>,
    options: Options,
    n: usize,
)
    requires
        options.depth == Some(n),
    ensures
        depth >= n ==> layer_spec(entries, depth, prefix, options).len() == 0,
        layer_spec(entries, depth, prefix, options).len() > 0 ==> depth < n,
        forall|j: int| 0 <= j < layer_spec(entries, depth, prefix, options).len()
            ==> match (#[trigger] layer_spec(entries, depth, prefix, options)[j]).descend {
                Some(sub) => sub.0 == depth + 1,
                None => true,
            },
{
}

/// Within one sibling group exactly one line carries the terminal
/// connector, the last one; every other line carries the branch connector.
/// The lines follow the given order of the entries and cover every entry
/// that passes the hidden filter.
pub proof fn lemma_one_terminal(
    entries: Seq<Entry>,
    depth: int,
    prefix: Seq<char>,
    options: Options,
)
    ensures
        ({
            let ls = layer_spec(entries, depth, prefix, options);
            &&& forall|j: int| 0 <= j < ls.len() ==> ((#[trigger] ls[j]).lead == prefix + connector(true) <==> j == ls.len() - 1)
            &&& forall|j: int| 0 <= j < ls.len() - 1 ==> (#[trigger] ls[j]).lead == prefix + connector(false)
            &&& forall|j: int, l: int| 0 <= j < l < ls.len() ==> ls[j].index < ls[l].index
            &&& depth_allows(depth, options) ==> forall|i: int| 0 <= i < entries.len() && shown(#[trigger] entries[i], options)
                ==> exists|j: int| 0 <= j < ls.len() && ls[j].index == i
        }),
{
    let ls = layer_spec(entries, depth, prefix, options);
    lemma_kept(entries, options);
    assert((prefix + connector(true))[prefix.len() as int] != (prefix + connector(false))[prefix.len() as int]);
    if depth_allows(depth, options) {
        let ks = kept(entries, options);
        assert forall|i: int| 0 <= i < entries.len() && shown(#[trigger] entries[i], options)
            implies exists|j: int| 0 <= j < ls.len() && ls[j].index == i by {
            let j = choose|j: int| 0 <= j < ks.len() && ks[j] == i;
            assert(ls[j].index == i);
        }
    }
}

/// Without hidden entries requested, no listed name starts with the hidden
/// marker; with them requested, every entry is listed, in order, so hidden
/// ones take part in the choice of the last sibling like any other.
pub proof fn lemma_hidden_filter(
    entries: Seq<Entry>,
    depth: int,
    prefix: Seq<char>,
    options: Options,
)
    ensures
        ({
            let ls = layer_spec(entries, depth, prefix, options);
            &&& !options.show_hidden ==> forall|j: int| 0 <= j < ls.len() ==> !is_hidden_name((#[trigger] ls[j]).name)
            &&& options.show_hidden && depth_allows(depth, options) ==> {
                &&& ls.len() == entries.len()
                &&& forall|j: int| 0 <= j < ls.len() ==> (#[trigger] ls[j]).index == j && ls[j].name == entries[j].name@
            }
        }),
{
    lemma_kept(entries, options);
    if options.show_hidden {
        lemma_kept_all(entries, options);
    }
}

/// With every entry shown, the kept indices are `0, 1, ..., len - 1`.
proof fn lemma_kept_all(entries: Seq<Entry>, options: Options)
    requires
        options.show_hidden,
    ensures
        kept(entries, options) == Seq::new(entries.len(), |i: int| i),
    decreases entries.len(),
{
    if entries.len() > 0 {
        lemma_kept_all(entries.drop_last(), options);
    }
    assert(kept(entries, options) =~= Seq::new(entries.len(), |i: int| i));
}

/// Planning the same level twice, on the same entries in the same order,
/// gives the same lines.
pub proof fn lemma_same_listing(
    first: Seq<Line>,
    second: Seq<Line>,
    entries: Seq<Entry>,
    depth: int,
    prefix: Seq<char>,
    options: Options,
)
    requires
        view_lines(first) == layer_spec(entries, depth, prefix, options),
        view_lines(second) == layer_spec(entries, depth, prefix, options),
    ensures
        view_lines(first) == view_lines(second),
{
}

} // verus!
