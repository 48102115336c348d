//! ASCII mode against Unicode mode: the two glyph sets render structurally
//! identical trees — line for line the same names, the same colors and the
//! same nesting — differing in nothing but the substitution of the three
//! connector glyphs.

use vstd::prelude::*;

use crate::colors::ColorTag;
use crate::glyphs::i_char_spec;
use crate::glyphs::l_char_spec;
use crate::glyphs::t_char_spec;
use crate::render::render_children_spec;
use crate::render::render_entries_spec;
use crate::row::after_row_opens;
use crate::row::column_spec;
use crate::row::prefix_spec;
use crate::row::row_spec;
use crate::row::SegView;
use crate::tree::count_qualifying_spec;
use crate::tree::qualifies;
use crate::tree::Node;

verus! {

/// Two segments that agree up to glyph substitution: the same color, and the
/// same text unless the one text is a Unicode connector glyph and the other
/// its ASCII counterpart.
pub open spec fn seg_ascii_equiv(u: SegView, a: SegView) -> bool {
    &&& u.color == a.color
    &&& (u.text == a.text || (u.text == i_char_spec(false) && a.text == i_char_spec(true)) || (
    u.text == t_char_spec(false) && a.text == t_char_spec(true)) || (u.text == l_char_spec(false)
        && a.text == l_char_spec(true)))
}

/// Two rows that agree up to glyph substitution, with the printed name — a
/// row's final segment — identical in both.
pub open spec fn row_ascii_equiv(u: Seq<SegView>, a: Seq<SegView>) -> bool {
    &&& u.len() == a.len()
    &&& forall|k: int| 0 <= k < u.len() ==> seg_ascii_equiv(#[trigger] u[k], #[trigger] a[k])
    &&& u.len() > 0 ==> u.last() == a.last()
}

/// Two renderings that agree row for row up to glyph substitution.
pub open spec fn lines_ascii_equiv(u: Seq<Seq<SegView>>, a: Seq<Seq<SegView>>) -> bool {
    &&& u.len() == a.len()
    &&& forall|j: int| 0 <= j < u.len() ==> row_ascii_equiv(#[trigger] u[j], #[trigger] a[j])
}

proof fn lemma_lines_equiv_add(
    u1: Seq<Seq<SegView>>,
    a1: Seq<Seq<SegView>>,
    u2: Seq<Seq<SegView>>,
    a2: Seq<Seq<SegView>>,
)
    requires
        lines_ascii_equiv(u1, a1),
        lines_ascii_equiv(u2, a2),
    ensures
        lines_ascii_equiv(u1 + u2, a1 + a2),
{
    assert forall|j: int| 0 <= j < (u1 + u2).len() implies row_ascii_equiv(
        #[trigger] (u1 + u2)[j],
        #[trigger] (a1 + a2)[j],
    ) by {
        if j < u1.len() {
            assert((u1 + u2)[j] == u1[j]);
            assert((a1 + a2)[j] == a1[j]);
        } else {
            assert((u1 + u2)[j] == u2[j - u1.len()]);
            assert((a1 + a2)[j] == a2[j - u1.len()]);
        }
    }
}

proof fn lemma_prefix_ascii_equiv(depth: u32, opens: Seq<u32>, map: Seq<ColorTag>)
    ensures
        prefix_spec(depth, opens, map, false).len() == prefix_spec(depth, opens, map, true).len(),
        forall|k: int|
            0 <= k < prefix_spec(depth, opens, map, false).len() ==> seg_ascii_equiv(
                #[trigger] prefix_spec(depth, opens, map, false)[k],
                #[trigger] prefix_spec(depth, opens, map, true)[k],
            ),
    decreases depth,
{
    if depth > 0 {
        let d = (depth - 1) as u32;
        lemma_prefix_ascii_equiv(d, opens, map);
        let pu = prefix_spec(d, opens, map, false);
        let pa = prefix_spec(d, opens, map, true);
        let cu = column_spec(d, opens, map, false);
        let ca = column_spec(d, opens, map, true);
        assert forall|k: int| 0 <= k < (pu + cu).len() implies seg_ascii_equiv(
            #[trigger] (pu + cu)[k],
            #[trigger] (pa + ca)[k],
        ) by {
            if k < pu.len() {
                assert((pu + cu)[k] == pu[k]);
                assert((pa + ca)[k] == pa[k]);
            } else {
                assert((pu + cu)[k] == cu[k - pu.len()]);
                assert((pa + ca)[k] == ca[k - pu.len()]);
            }
        }
    }
}

/// One row rendered in the two modes: the same length, the same colors, the
/// same name, every segment equal up to connector-glyph substitution.
pub proof fn lemma_row_ascii_equiv(
    depth: u32,
    opens: Seq<u32>,
    map: Seq<ColorTag>,
    name: Seq<char>,
    is_dir: bool,
    is_last: bool,
)
    ensures
        row_ascii_equiv(
            row_spec(depth, opens, map, name, is_dir, is_last, false),
            row_spec(depth, opens, map, name, is_dir, is_last, true),
        ),
{
    lemma_prefix_ascii_equiv(depth, opens, map);
    let u = row_spec(depth, opens, map, name, is_dir, is_last, false);
    let a = row_spec(depth, opens, map, name, is_dir, is_last, true);
    let pu = prefix_spec(depth, opens, map, false);
    let pa = prefix_spec(depth, opens, map, true);
    assert forall|k: int| 0 <= k < u.len() implies seg_ascii_equiv(
        #[trigger] u[k],
        #[trigger] a[k],
    ) by {
        if k < pu.len() {
            assert(u[k] == pu[k]);
            assert(a[k] == pa[k]);
        }
    }
    assert(u.last() == a.last());
}

/// ASCII mode and Unicode mode render any directory listing to structurally
/// identical lines: the same number of rows, row for row the same segment
/// count, the same colors and the same printed name, the texts differing only
/// where a Unicode connector glyph stands for its ASCII counterpart.
pub proof fn lemma_render_ascii_equiv(
    children: Seq<Node>,
    depth: u32,
    opens: Seq<u32>,
    map: Seq<ColorTag>,
    show_files: bool,
)
    ensures
        lines_ascii_equiv(
            render_children_spec(children, depth, opens, map, show_files, false),
            render_children_spec(children, depth, opens, map, show_files, true),
        ),
    decreases children, children.len() + 1,
{
    let total = count_qualifying_spec(children, show_files);
    if total > 0 {
        lemma_render_entries_ascii_equiv(
            children,
            0,
            1,
            total as int,
            depth,
            opens.push(depth),
            map,
            show_files,
        );
    }
}

proof fn lemma_render_entries_ascii_equiv(
    children: Seq<Node>,
    idx: int,
    counter: int,
    total: int,
    depth: u32,
    opens: Seq<u32>,
    map: Seq<ColorTag>,
    show_files: bool,
)
    ensures
        lines_ascii_equiv(
            render_entries_spec(children, idx, counter, total, depth, opens, map, show_files, false),
            render_entries_spec(children, idx, counter, total, depth, opens, map, show_files, true),
        ),
    decreases children, children.len() - idx,
{
    if 0 <= idx < children.len() {
        let child = children[idx];
        if qualifies(child, show_files) {
            let is_last = counter == total;
            let opens_after = after_row_opens(opens, is_last);
            lemma_row_ascii_equiv(depth, opens, map, child.name@, child.is_dir, is_last);
            let row_u = row_spec(depth, opens, map, child.name@, child.is_dir, is_last, false);
            let row_a = row_spec(depth, opens, map, child.name@, child.is_dir, is_last, true);
            assert(lines_ascii_equiv(seq![row_u], seq![row_a]));
            if child.is_dir {
                lemma_render_ascii_equiv(
                    child.children@,
                    (depth + 1) as u32,
                    opens_after,
                    map,
                    show_files,
                );
            }
            let sub_u = if child.is_dir {
                render_children_spec(
                    child.children@,
                    (depth + 1) as u32,
                    opens_after,
                    map,
                    show_files,
                    false,
                )
            } else {
                Seq::<Seq<SegView>>::empty()
            };
            let sub_a = if child.is_dir {
                render_children_spec(
                    child.children@,
                    (depth + 1) as u32,
                    opens_after,
                    map,
                    show_files,
                    true,
                )
            } else {
                Seq::<Seq<SegView>>::empty()
            };
            lemma_render_entries_ascii_equiv(
                children,
                idx + 1,
                counter + 1,
                total,
                depth,
                opens_after,
                map,
                show_files,
            );
            let rest_u = render_entries_spec(
                children,
                idx + 1,
                counter + 1,
                total,
                depth,
                opens_after,
                map,
                show_files,
                false,
            );
            let rest_a = render_entries_spec(
                children,
                idx + 1,
                counter + 1,
                total,
                depth,
                opens_after,
                map,
                show_files,
                true,
            );
            lemma_lines_equiv_add(seq![row_u], seq![row_a], sub_u, sub_a);
            lemma_lines_equiv_add(seq![row_u] + sub_u, seq![row_a] + sub_a, rest_u, rest_a);
        } else {
            lemma_render_entries_ascii_equiv(
                children,
                idx + 1,
                counter,
                total,
                depth,
                opens,
                map,
                show_files,
            );
        }
    }
}

} // verus!
