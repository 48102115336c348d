//! Rendering one row of the tree: the indentation columns for every ancestor
//! depth, the connector picked by position, and the entry's name, each as a
//! text segment carrying its logical color.

use vstd::prelude::*;

use crate::colors::color_at;
use crate::colors::branch_color;
use crate::colors::ColorTag;
use crate::glyphs::connector_spec;
use crate::glyphs::i_char;
use crate::glyphs::i_char_spec;
use crate::glyphs::l_char;
use crate::glyphs::l_char_spec;
use crate::glyphs::t_char;
use crate::glyphs::t_char_spec;

verus! {

/// One piece of a rendered row: a text run and the logical color it is to be
/// written in, `None` for uncolored text.
#[derive(Clone, Debug, PartialEq, Eq)]
pub struct Segment {
    pub text: String,
    pub color: Option<ColorTag>,
}

/// The mathematical picture of a segment: its characters and its color tag.
pub struct SegView {
    pub text: Seq<char>,
    pub color: Option<ColorTag>,
}

impl View for Segment {
    type V = SegView;

    open spec fn view(&self) -> SegView {
        SegView { text: self.text@, color: self.color }
    }
}

/// A row as mathematics: each segment by its view.
pub open spec fn row_view(s: Seq<Segment>) -> Seq<SegView> {
    s.map_values(|x: Segment| x@)
}

/// What one indentation column holds: a colored continuation bar and padding
/// when the column's depth is open, blank padding of the same width otherwise.
pub open spec fn column_spec(i: u32, opens: Seq<u32>, map: Seq<ColorTag>, use_ascii: bool) -> Seq<
    SegView,
> {
    if opens.contains(i) {
        seq![
            SegView { text: i_char_spec(use_ascii), color: Some(color_at(map, i as int)) },
            SegView { text: "     "@, color: None },
        ]
    } else {
        seq![SegView { text: "      "@, color: None }]
    }
}

/// The indentation of a row at `depth`: one column per ancestor depth, in
/// order.
pub open spec fn prefix_spec(depth: u32, opens: Seq<u32>, map: Seq<ColorTag>, use_ascii: bool) -> Seq<
    SegView,
>
    decreases depth,
{
    if depth == 0 {
        Seq::empty()
    } else {
        prefix_spec((depth - 1) as u32, opens, map, use_ascii) + column_spec(
            (depth - 1) as u32,
            opens,
            map,
            use_ascii,
        )
    }
}

/// A whole row: the indentation, the connector in the branch color of `depth`,
/// a separating space, and the entry's name colored by its kind.
pub open spec fn row_spec(
    depth: u32,
    opens: Seq<u32>,
    map: Seq<ColorTag>,
    name: Seq<char>,
    is_dir: bool,
    is_last: bool,
    use_ascii: bool,
) -> Seq<SegView> {
    prefix_spec(depth, opens, map, use_ascii) + seq![
        SegView {
            text: connector_spec(use_ascii, is_last),
            color: Some(color_at(map, depth as int)),
        },
        SegView { text: " "@, color: None },
        SegView {
            text: name,
            color: Some(if is_dir { ColorTag::Blue } else { ColorTag::White }),
        },
    ]
}

/// The open-depths record after a row is printed: printing the last qualifying
/// entry removes the depth on top of the record, any other row leaves it
/// untouched.
pub open spec fn after_row_opens(opens: Seq<u32>, is_last: bool) -> Seq<u32> {
    if is_last {
        opens.drop_last()
    } else {
        opens
    }
}

/// Whether a record holds a depth.
fn contains_u32(v: &Vec<u32>, x: u32) -> (b: bool)
    ensures
        b == v@.contains(x),
{
    let mut i: usize = 0;
    while i < v.len()
        invariant
            0 <= i <= v@.len(),
            forall|j: int| 0 <= j < i ==> v@[j] != x,
        decreases v@.len() - i,
    {
        if v[i] == x {
            return true;
        }
        i = i + 1;
    }
    false
}

/// Render one entry's row. The row lists, for every ancestor depth, a
/// continuation bar (colored by the cycling palette) where that depth is
/// open and blank padding where it is not, then the connector — mid-branch,
/// or last-branch for the last qualifying entry — in this depth's branch
/// color, then the entry's name, blue for directories and white for files.
/// Printing the last qualifying entry closes this depth: the depth is popped
/// from the open-depths record, after the row is built, never before.
pub fn render_row(
    depth: u32,
    open_depths: &mut Vec<u32>,
    color_depth_map: &Vec<ColorTag>,
    name: &String,
    is_dir: bool,
    is_last_item: bool,
    use_ascii: bool,
) -> (row: Vec<Segment>)
    requires
        color_depth_map@.len() > 0,
        is_last_item ==> old(open_depths)@.len() > 0 && old(open_depths)@.last() == depth,
    ensures
        row_view(row@) == row_spec(
            depth,
            old(open_depths)@,
            color_depth_map@,
            name@,
            is_dir,
            is_last_item,
            use_ascii,
        ),
        final(open_depths)@ == after_row_opens(old(open_depths)@, is_last_item),
{
    let mut row: Vec<Segment> = Vec::new();
    let mut i: u32 = 0;
    while i < depth
        invariant
            0 <= i <= depth,
            color_depth_map@.len() > 0,
            open_depths@ == old(open_depths)@,
            row_view(row@) =~= prefix_spec(i, open_depths@, color_depth_map@, use_ascii),
        decreases depth - i,
    {
        if contains_u32(open_depths, i) {
            let c = branch_color(color_depth_map, i);
            row.push(Segment { text: i_char(use_ascii), color: Some(c) });
            row.push(Segment { text: "     ".to_owned(), color: None });
        } else {
            row.push(Segment { text: "      ".to_owned(), color: None });
        }
        proof {
            assert(row_view(row@) =~= prefix_spec((i + 1) as u32, open_depths@, color_depth_map@,
            use_ascii));
        }
        i = i + 1;
    }
    let c = branch_color(color_depth_map, depth);
    if !is_last_item {
        row.push(Segment { text: t_char(use_ascii), color: Some(c) });
    } else {
        row.push(Segment { text: l_char(use_ascii), color: Some(c) });
    }
    row.push(Segment { text: " ".to_owned(), color: None });
    let kind_color = if is_dir {
        ColorTag::Blue
    } else {
        ColorTag::White
    };
    row.push(Segment { text: name.clone(), color: Some(kind_color) });
    proof {
        assert(row_view(row@) =~= row_spec(
            depth,
            old(open_depths)@,
            color_depth_map@,
            name@,
            is_dir,
            is_last_item,
            use_ascii,
        ));
    }
    if is_last_item {
        open_depths.pop();
    }
    row
}

/// Connector selection is purely positional: whatever the open depths, the
/// palette, the entry's name and kind, a row's connector segment — always the
/// third segment from the row's end — carries the last-branch glyph exactly
/// when the row is for the last qualifying entry, and the mid-branch glyph
/// otherwise, in the branch color of the row's depth.
pub proof fn lemma_connector_by_position(
    depth: u32,
    opens: Seq<u32>,
    map: Seq<ColorTag>,
    name: Seq<char>,
    is_dir: bool,
    is_last: bool,
    use_ascii: bool,
)
    ensures
        ({
            let row = row_spec(depth, opens, map, name, is_dir, is_last, use_ascii);
            &&& row.len() >= 3
            &&& row[row.len() - 3] == (SegView {
                text: if is_last { l_char_spec(use_ascii) } else { t_char_spec(use_ascii) },
                color: Some(color_at(map, depth as int)),
            })
        }),
{
}

/// A depth is a member of the open-depths record exactly from the push that
/// precedes its directory's first child row up to and including the last
/// child's row: the push makes the depth a member, a non-last row leaves the
/// record unchanged, and the last row removes precisely the pushed depth,
/// restoring the record that preceded the push — so the depth is absent after
/// the last row whenever it was absent before the push.
pub proof fn lemma_open_depth_interval(opens: Seq<u32>, depth: u32)
    ensures
        opens.push(depth).contains(depth),
        after_row_opens(opens.push(depth), false) == opens.push(depth),
        after_row_opens(opens.push(depth), true) == opens,
        !opens.contains(depth) ==> !after_row_opens(opens.push(depth), true).contains(depth),
{
    assert(opens.push(depth)[opens.len() as int] == depth);
    assert(opens.push(depth).drop_last() =~= opens);
}

} // verus!
