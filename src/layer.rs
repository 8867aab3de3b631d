use crate::entry::{style_spec, Entry, Style};
use crate::options::Options;
use vstd::prelude::*;

verus! {

/// Where a nested listing starts: its depth below the root and the
/// indentation printed before each of its connectors.
#[derive(Debug)]
pub struct Level {
    pub depth: usize,
    pub prefix: String,
}

/// One line of output for one directory entry.
#[derive(Debug)]
pub struct Line {
    /// Position of the entry among the ones handed to `plan_layer`.
    pub index: usize,
    /// The indentation followed by the connector.
    pub lead: String,
    pub name: String,
    pub style: Style,
    /// For a directory, the level at which its own entries are listed.
    pub descend: Option<Level>,
}

/// A line as a mathematical value.
pub ghost struct LineView {
    pub index: int,
    pub lead: Seq<char>,
    pub name: Seq<char>,
    pub style: Style,
    pub descend: Option<(int, Seq<char>)>,
}

impl View for Line {
    type V = LineView;

    open spec fn view(&self) -> LineView {
        LineView {
            index: self.index as int,
            lead: self.lead@,
            name: self.name@,
            style: self.style,
            descend: match self.descend {
                Some(l) => Some((l.depth as int, l.prefix@)),
                None => None,
            },
        }
    }
}

pub open spec fn view_lines(lines: Seq<Line>) -> Seq<LineView> {
    lines.map_values(|l: Line| l@)
}

/// Connector before a name: the terminal one for the last shown sibling.
pub open spec fn connector(is_last: bool) -> Seq<char> {
    if is_last {
        seq!['└', '─', '─', ' ']
    } else {
        seq!['├', '─', '─', ' ']
    }
}

/// Indentation added for the entries of a directory: blank below the last
/// shown sibling, a vertical bar below the others.
pub open spec fn extension(is_last: bool) -> Seq<char> {
    if is_last {
        seq![' ', ' ', ' ', ' ']
    } else {
        seq!['│', ' ', ' ', ' ']
    }
}

/// Whether a level at `depth` is listed at all.
pub open spec fn depth_allows(depth: int, options: Options) -> bool {
    match options.depth {
        Some(max) => depth < max,
        None => true,
    }
}

/// Whether an entry survives the hidden filter.
pub open spec fn shown(e: Entry, options: Options) -> bool {
    options.show_hidden || !e.spec_is_hidden()
}

/// Indices of the entries that survive the hidden filter, in order.
pub open spec fn kept(entries: Seq<Entry>, options: Options) -> Seq<int>
    decreases entries.len(),
{
    if entries.len() == 0 {
        Seq::empty()
    } else {
        let head = kept(entries.drop_last(), options);
        if shown(entries.last(), options) {
            head.push(entries.len() - 1)
        } else {
            head
        }
    }
}

/// The line for entry `e`, found at position `index`.
pub open spec fn line_spec(
    e: Entry,
    index: int,
    depth: int,
    prefix: Seq<char>,
    is_last: bool,
) -> LineView {
    LineView {
        index,
        lead: prefix + connector(is_last),
        name: e.name@,
        style: style_spec(e.kind, e.is_executable),
        descend: if e.kind == crate::entry::EntryKind::Dir {
            Some((depth + 1, prefix + extension(is_last)))
        } else {
            None
        },
    }
}

/// The lines of one level: none past the depth limit; otherwise one per
/// shown entry, in order, the last of them with the terminal connector.
pub open spec fn layer_spec(
    entries: Seq<Entry>,
    depth: int,
    prefix: Seq<char>,
    options: Options,
) -> Seq<LineView> {
    if !depth_allows(depth, options) {
        Seq::empty()
    } else {
        let ks = kept(entries, options);
        Seq::new(
            ks.len(),
            |j: int| line_spec(entries[ks[j]], ks[j], depth, prefix, j == ks.len() - 1),
        )
    }
}

/// Whether the level at `depth` is listed.
pub fn within_depth(depth: usize, options: Options) -> (r: bool)
    ensures
        r == depth_allows(depth as int, options),
{
    match options.depth {
        Some(max) => depth < max,
        None => true,
    }
}

fn connector_of(is_last: bool) -> (r: &'static str)
    ensures
        r@ == connector(is_last),
{
    if is_last {
        proof {
            reveal_strlit("└── ");
        }
        "└── "
    } else {
        proof {
            reveal_strlit("├── ");
        }
        "├── "
    }
}

fn extension_of(is_last: bool) -> (r: &'static str)
    ensures
        r@ == extension(is_last),
{
    if is_last {
        proof {
            reveal_strlit("    ");
        }
        "    "
    } else {
        proof {
            reveal_strlit("│   ");
        }
        "│   "
    }
}

/// Indices of the entries that pass the hidden filter.
pub fn kept_indices(entries: &Vec<Entry>, options: Options) -> (r: Vec<usize>)
    ensures
        r@.map_values(|i: usize| i as int) == kept(entries@, options),
{
    let mut out: Vec<usize> = Vec::new();
    let mut i: usize = 0;
    while i < entries.len()
        invariant
            i <= entries@.len(),
            out@.map_values(|k: usize| k as int) == kept(entries@.subrange(0, i as int), options),
        decreases entries@.len() - i,
    {
        let ghost before = out@;
        let e = &entries[i];
        if options.show_hidden || !e.is_hidden() {
            out.push(i);
        }
        proof {
            let s = entries@.subrange(0, i + 1);
            assert(s.drop_last() =~= entries@.subrange(0, i as int));
            assert(out@.map_values(|k: usize| k as int) =~= kept(s, options));
        }
        i = i + 1;
    }
    assert(entries@.subrange(0, entries@.len() as int) =~= entries@);
    out
}

/// The kept indices point into the entries, in strictly increasing order,
/// and name exactly the entries that pass the hidden filter.
pub proof fn lemma_kept(entries: Seq<Entry>, options: Options)
    ensures
        forall|j: int| 0 <= j < kept(entries, options).len() ==> 0 <= #[trigger] kept(entries, options)[j] < entries.len(),
        forall|j: int, l: int| 0 <= j < l < kept(entries, options).len() ==> kept(entries, options)[j] < kept(entries, options)[l],
        forall|j: int| 0 <= j < kept(entries, options).len() ==> shown(entries[#[trigger] kept(entries, options)[j]], options),
        forall|i: int| 0 <= i < entries.len() && shown(#[trigger] entries[i], options) ==> kept(entries, options).contains(i),
        kept(entries, options).len() <= entries.len(),
    decreases entries.len(),
{
    if entries.len() > 0 {
        let d = entries.drop_last();
        lemma_kept(d, options);
        let ks = kept(entries, options);
        let hs = kept(d, options);
        assert forall|j: int| 0 <= j < hs.len() implies ks[j] == hs[j] && entries[hs[j]] == d[hs[j]] by {}
        assert forall|i: int| 0 <= i < entries.len() && shown(#[trigger] entries[i], options) implies ks.contains(i) by {
            if i < entries.len() - 1 {
                assert(d[i] == entries[i]);
                assert(hs.contains(i));
                let w = choose|w: int| 0 <= w < hs.len() && hs[w] == i;
                assert(ks[w] == i);
            } else {
                assert(ks[ks.len() - 1] == i);
            }
        }
    }
}

/// Plans the output of one directory level: past the depth limit nothing;
/// otherwise one line per entry that passes the hidden filter, in the given
/// order. The last of them gets the terminal connector, the others the
/// branch connector, and each directory is given the level at which its
/// own entries are listed.
pub fn plan_layer(entries: &Vec<Entry>, depth: usize, prefix: &str, options: Options) -> (r: Vec<Line>)
    requires
        options.depth.is_some() || depth < usize::MAX,
    ensures
        view_lines(r@) == layer_spec(entries@, depth as int, prefix@, options),
{
    let mut lines: Vec<Line> = Vec::new();
    if !within_depth(depth, options) {
        assert(view_lines(lines@) =~= layer_spec(entries@, depth as int, prefix@, options));
        return lines;
    }
    let ks = kept_indices(entries, options);
    let ghost kss = kept(entries@, options);
    proof {
        lemma_kept(entries@, options);
        assert(ks@.len() == kss.len());
        assert forall|j: int| 0 <= j < ks@.len() implies ks@[j] as int == #[trigger] kss[j] by {
            assert(ks@.map_values(|i: usize| i as int)[j] == ks@[j] as int);
        }
    }
    let n = ks.len();
    let mut j: usize = 0;
    while j < n
        invariant
            n == ks@.len(),
            n == kss.len(),
            j <= n,
            depth_allows(depth as int, options),
            options.depth.is_some() || depth < usize::MAX,
            forall|m: int| 0 <= m < n ==> ks@[m] as int == #[trigger] kss[m],
            forall|m: int| 0 <= m < n ==> 0 <= #[trigger] kss[m] < entries@.len(),
            kss == kept(entries@, options),
            lines@.len() == j,
            forall|m: int| 0 <= m < j ==> (#[trigger] lines@[m])@ == line_spec(entries@[kss[m]], kss[m], depth as int, prefix@, m == n - 1),
        decreases n - j,
    {
        let k = ks[j];
        assert(k as int == kss[j as int]);
        let e = &entries[k];
        let is_last = j + 1 == n;
        let mut lead = String::from_str(prefix);
        lead.append(connector_of(is_last));
        let descend = match e.kind {
            crate::entry::EntryKind::Dir => {
                let mut sub = String::from_str(prefix);
                sub.append(extension_of(is_last));
                Some(Level { depth: depth + 1, prefix: sub })
            },
            _ => None,
        };
        let line = Line { index: k, lead, name: e.name.clone(), style: e.style(), descend };
        lines.push(line);
        j = j + 1;
    }
    assert(view_lines(lines@) =~= layer_spec(entries@, depth as int, prefix@, options));
    lines
}

} // verus!
