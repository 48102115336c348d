//! The traversal engine: walks a directory picture depth first, renders each
//! qualifying entry's row, and threads the open-depths record through the
//! recursion — a depth is pushed before its first child row and popped by the
//! last, so deeper rows draw continuation bars exactly under still-open
//! branches.

use vstd::prelude::*;
use vstd::string::StringExecFns;

use crate::colors::ColorTag;
use crate::row::after_row_opens;
use crate::row::render_row;
use crate::row::row_spec;
use crate::row::row_view;
use crate::row::Segment;
use crate::row::SegView;
use crate::tree::count_qualifying;
use crate::tree::count_qualifying_spec;
use crate::tree::forest_height;
use crate::tree::lemma_count_qualifying_le_len;
use crate::tree::lemma_count_qualifying_take_le;
use crate::tree::lemma_count_qualifying_take_step;
use crate::tree::lemma_node_height_le_forest;
use crate::tree::node_height;
use crate::tree::qualifies;
use crate::tree::Node;

verus! {

/// A rendering as mathematics: each line by the views of its segments.
pub open spec fn lines_view(s: Seq<Vec<Segment>>) -> Seq<Seq<SegView>> {
    s.map_values(|r: Vec<Segment>| row_view(r@))
}

/// The lines a directory's listing renders to. A listing with no qualifying
/// entry renders to nothing; otherwise its depth is pushed onto the
/// open-depths record and the entries are rendered in listing order, the
/// qualifying ones numbered from one.
pub open spec fn render_children_spec(
    children: Seq<Node>,
    depth: u32,
    opens: Seq<u32>,
    map: Seq<ColorTag>,
    show_files: bool,
    use_ascii: bool,
) -> Seq<Seq<SegView>>
    decreases children, children.len() + 1,
{
    let total = count_qualifying_spec(children, show_files);
    if total == 0 {
        Seq::empty()
    } else {
        render_entries_spec(
            children,
            0,
            1,
            total as int,
            depth,
            opens.push(depth),
            map,
            show_files,
            use_ascii,
        )
    }
}

/// The lines rendered for the entries of a listing from index `idx` on, the
/// next qualifying one being entry number `counter` of `total`. A qualifying
/// entry contributes its own row — the last one (number `total`) closing the
/// depth — then, if it is a directory, the lines of its own listing one depth
/// deeper.
pub open spec fn render_entries_spec(
    children: Seq<Node>,
    idx: int,
    counter: int,
    total: int,
    depth: u32,
    opens: Seq<u32>,
    map: Seq<ColorTag>,
    show_files: bool,
    use_ascii: bool,
) -> Seq<Seq<SegView>>
    decreases children, children.len() - idx,
{
    if idx < 0 || idx >= children.len() {
        Seq::empty()
    } else {
        let child = children[idx];
        if qualifies(child, show_files) {
            let is_last = counter == total;
            let row = row_spec(depth, opens, map, child.name@, child.is_dir, is_last, use_ascii);
            let opens_after = after_row_opens(opens, is_last);
            let sub = if child.is_dir {
                render_children_spec(
                    child.children@,
                    (depth + 1) as u32,
                    opens_after,
                    map,
                    show_files,
                    use_ascii,
                )
            } else {
                Seq::empty()
            };
            seq![row] + sub + render_entries_spec(
                children,
                idx + 1,
                counter + 1,
                total,
                depth,
                opens_after,
                map,
                show_files,
                use_ascii,
            )
        } else {
            render_entries_spec(
                children,
                idx + 1,
                counter,
                total,
                depth,
                opens,
                map,
                show_files,
                use_ascii,
            )
        }
    }
}

/// Render the tree below one directory's listing, the listing standing at
/// `depth`. Returns the rendered lines in print order. The open-depths record
/// is returned exactly as it was: a listing with qualifying entries pushes its
/// depth and the last qualifying row pops it again. A listing with none — an
/// empty directory, or one holding only files while files are hidden —
/// renders no lines and never touches the record.
pub fn render_children(
    children: &Vec<Node>,
    depth: u32,
    color_depth_map: &Vec<ColorTag>,
    open_depths: &mut Vec<u32>,
    show_files: bool,
    use_ascii: bool,
) -> (rows: Vec<Vec<Segment>>)
    requires
        color_depth_map@.len() > 0,
        depth + forest_height(children@) <= u32::MAX,
    ensures
        lines_view(rows@) == render_children_spec(
            children@,
            depth,
            old(open_depths)@,
            color_depth_map@,
            show_files,
            use_ascii,
        ),
        final(open_depths)@ == old(open_depths)@,
        count_qualifying_spec(children@, show_files) == 0 ==> rows@.len() == 0,
    decreases children,
{
    let ghost opens0: Seq<u32> = open_depths@;
    let total = count_qualifying(children, show_files);
    let mut rows: Vec<Vec<Segment>> = Vec::new();
    if total > 0 {
        open_depths.push(depth);
        let mut processed: usize = 0;
        let mut i: usize = 0;
        while i < children.len()
            invariant
                0 <= i <= children@.len(),
                color_depth_map@.len() > 0,
                depth + forest_height(children@) <= u32::MAX,
                total == count_qualifying_spec(children@, show_files),
                total > 0,
                processed == count_qualifying_spec(children@.take(i as int), show_files),
                processed <= total,
                open_depths@ == if processed < total {
                    opens0.push(depth)
                } else {
                    opens0
                },
                lines_view(rows@) + render_entries_spec(
                    children@,
                    i as int,
                    processed + 1,
                    total as int,
                    depth,
                    open_depths@,
                    color_depth_map@,
                    show_files,
                    use_ascii,
                ) =~= render_entries_spec(
                    children@,
                    0,
                    1,
                    total as int,
                    depth,
                    opens0.push(depth),
                    color_depth_map@,
                    show_files,
                    use_ascii,
                ),
            decreases children@.len() - i,
        {
            proof {
                lemma_count_qualifying_take_step(children@, i as int, show_files);
                lemma_count_qualifying_take_le(children@, i + 1, show_files);
            }
            let child = &children[i];
            if child.is_dir || show_files {
                let is_last_item = processed == total - 1;
                let ghost opens_before: Seq<u32> = open_depths@;
                let row = render_row(
                    depth,
                    open_depths,
                    color_depth_map,
                    &child.name,
                    child.is_dir,
                    is_last_item,
                    use_ascii,
                );
                let ghost rows_before: Seq<Vec<Segment>> = rows@;
                rows.push(row);
                proof {
                    assert(lines_view(rows@) =~= lines_view(rows_before).push(
                        row_spec(
                            depth,
                            opens_before,
                            color_depth_map@,
                            child.name@,
                            child.is_dir,
                            is_last_item,
                            use_ascii,
                        ),
                    ));
                }
                if child.is_dir {
                    proof {
                        lemma_node_height_le_forest(children@, i as int);
                        assert(node_height(children@[i as int]) == 1 + forest_height(
                            child.children@,
                        ));
                    }
                    let ghost rows_mid: Seq<Vec<Segment>> = rows@;
                    let mut sub = render_children(
                        &child.children,
                        depth + 1,
                        color_depth_map,
                        open_depths,
                        show_files,
                        use_ascii,
                    );
                    let ghost sub_snap: Seq<Vec<Segment>> = sub@;
                    rows.append(&mut sub);
                    proof {
                        assert(lines_view(rows@) =~= lines_view(rows_mid) + lines_view(sub_snap));
                    }
                }
                processed = processed + 1;
            }
            i = i + 1;
        }
        proof {
            assert(children@.take(children@.len() as int) =~= children@);
            lemma_count_qualifying_le_len(children@, show_files);
        }
    }
    proof {
        assert(lines_view(rows@) =~= render_children_spec(
            children@,
            depth,
            opens0,
            color_depth_map@,
            show_files,
            use_ascii,
        ));
    }
    rows
}

/// The header line the program prints above the tree, naming the directory
/// being shown.
pub fn header_line(root_name: &String) -> (r: String)
    ensures
        r@ == "Showing tree of directory '"@ + root_name@ + "':"@,
{
    let mut r: String = "Showing tree of directory '".to_owned();
    r.append(root_name.as_str());
    r.append("':");
    r
}

} // verus!
