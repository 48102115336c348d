use rtr::colors::default_color_map;
use rtr::colors::ColorTag;
use rtr::render::header_line;
use rtr::render::render_children;
use rtr::row::render_row;
use rtr::row::Segment;
use rtr::tree::count_qualifying;
use rtr::tree::Node;

fn file(name: &str) -> Node {
    Node { name: name.to_string(), is_dir: false, children: Vec::new() }
}

fn dir(name: &str, children: Vec<Node>) -> Node {
    Node { name: name.to_string(), is_dir: true, children }
}

fn seg(text: &str, color: Option<ColorTag>) -> Segment {
    Segment { text: text.to_string(), color }
}

#[test]
fn empty_directory_renders_nothing() {
    let children: Vec<Node> = Vec::new();
    let map = default_color_map();
    let mut opens: Vec<u32> = vec![7];
    let rows = render_children(&children, 0, &map, &mut opens, false, false);
    assert_eq!(rows.len(), 0);
    assert_eq!(opens, vec![7]);
}

#[test]
fn all_file_directory_renders_nothing_when_files_hidden() {
    let children = vec![file("a.txt"), file("b.txt")];
    let map = default_color_map();
    let mut opens: Vec<u32> = vec![3];
    let rows = render_children(&children, 1, &map, &mut opens, false, false);
    assert_eq!(rows.len(), 0);
    assert_eq!(opens, vec![3]);
}

#[test]
fn count_qualifying_counts_dirs_or_everything() {
    let children = vec![dir("b", Vec::new()), file("f.txt"), dir("c", Vec::new())];
    assert_eq!(count_qualifying(&children, false), 2);
    assert_eq!(count_qualifying(&children, true), 3);
    assert_eq!(count_qualifying(&Vec::new(), true), 0);
}

#[test]
fn two_subdirs_one_file_hidden() {
    // Root A holds directories B and C and a file f.txt; files hidden:
    // two rows, C with the last-branch connector, f.txt omitted entirely.
    let children = vec![dir("B", Vec::new()), dir("C", Vec::new()), file("f.txt")];
    let map = default_color_map();
    let mut opens: Vec<u32> = Vec::new();
    let rows = render_children(&children, 0, &map, &mut opens, false, false);
    assert_eq!(rows.len(), 2);
    assert_eq!(
        rows[0],
        vec![
            seg("├────", Some(ColorTag::Cyan)),
            seg(" ", None),
            seg("B", Some(ColorTag::Blue)),
        ]
    );
    assert_eq!(
        rows[1],
        vec![
            seg("└────", Some(ColorTag::Cyan)),
            seg(" ", None),
            seg("C", Some(ColorTag::Blue)),
        ]
    );
    assert_eq!(opens.len(), 0);
}

#[test]
fn two_subdirs_one_file_shown() {
    // The same tree with files shown: three rows, f.txt last, in the file
    // color, and nothing rendered beneath it.
    let children = vec![dir("B", Vec::new()), dir("C", Vec::new()), file("f.txt")];
    let map = default_color_map();
    let mut opens: Vec<u32> = Vec::new();
    let rows = render_children(&children, 0, &map, &mut opens, true, false);
    assert_eq!(rows.len(), 3);
    assert_eq!(
        rows[0],
        vec![
            seg("├────", Some(ColorTag::Cyan)),
            seg(" ", None),
            seg("B", Some(ColorTag::Blue)),
        ]
    );
    assert_eq!(
        rows[1],
        vec![
            seg("├────", Some(ColorTag::Cyan)),
            seg(" ", None),
            seg("C", Some(ColorTag::Blue)),
        ]
    );
    assert_eq!(
        rows[2],
        vec![
            seg("└────", Some(ColorTag::Cyan)),
            seg(" ", None),
            seg("f.txt", Some(ColorTag::White)),
        ]
    );
}

#[test]
fn subdir_holding_only_a_file_is_a_leaf_when_files_hidden() {
    // B holds one file g.txt; with files hidden B renders as a leaf: its own
    // row keeps its positional connector and nothing is printed beneath it.
    let children = vec![dir("B", vec![file("g.txt")]), dir("C", Vec::new())];
    let map = default_color_map();
    let mut opens: Vec<u32> = Vec::new();
    let rows = render_children(&children, 0, &map, &mut opens, false, false);
    assert_eq!(rows.len(), 2);
    assert_eq!(rows[0][0], seg("├────", Some(ColorTag::Cyan)));
    assert_eq!(rows[0][2], seg("B", Some(ColorTag::Blue)));
    assert_eq!(rows[1][0], seg("└────", Some(ColorTag::Cyan)));
    assert_eq!(rows[1][2], seg("C", Some(ColorTag::Blue)));
}

#[test]
fn nested_tree_draws_bars_under_open_branches_only() {
    // A holds B (holding D) and C (holding E). Under B — not the last entry
    // at depth 0 — the deeper row carries the continuation bar; under C —
    // the last entry, whose depth closed with its row — blank padding.
    let children = vec![
        dir("B", vec![dir("D", Vec::new())]),
        dir("C", vec![dir("E", Vec::new())]),
    ];
    let map = default_color_map();
    let mut opens: Vec<u32> = Vec::new();
    let rows = render_children(&children, 0, &map, &mut opens, false, false);
    assert_eq!(rows.len(), 4);
    assert_eq!(
        rows[0],
        vec![
            seg("├────", Some(ColorTag::Cyan)),
            seg(" ", None),
            seg("B", Some(ColorTag::Blue)),
        ]
    );
    assert_eq!(
        rows[1],
        vec![
            seg("│", Some(ColorTag::Cyan)),
            seg("     ", None),
            seg("└────", Some(ColorTag::Magenta)),
            seg(" ", None),
            seg("D", Some(ColorTag::Blue)),
        ]
    );
    assert_eq!(
        rows[2],
        vec![
            seg("└────", Some(ColorTag::Cyan)),
            seg(" ", None),
            seg("C", Some(ColorTag::Blue)),
        ]
    );
    assert_eq!(
        rows[3],
        vec![
            seg("      ", None),
            seg("└────", Some(ColorTag::Magenta)),
            seg(" ", None),
            seg("E", Some(ColorTag::Blue)),
        ]
    );
    assert_eq!(opens.len(), 0);
}

#[test]
fn ascii_and_unicode_renderings_differ_only_in_glyphs() {
    let children = vec![
        dir("B", vec![dir("D", Vec::new()), file("h.txt")]),
        dir("C", Vec::new()),
        file("f.txt"),
    ];
    let map = default_color_map();
    let mut opens_u: Vec<u32> = Vec::new();
    let mut opens_a: Vec<u32> = Vec::new();
    let unicode = render_children(&children, 0, &map, &mut opens_u, true, false);
    let ascii = render_children(&children, 0, &map, &mut opens_a, true, true);
    assert_eq!(unicode.len(), ascii.len());
    for (ru, ra) in unicode.iter().zip(ascii.iter()) {
        assert_eq!(ru.len(), ra.len());
        // Same printed name in both modes.
        assert_eq!(ru.last(), ra.last());
        for (su, sa) in ru.iter().zip(ra.iter()) {
            assert_eq!(su.color, sa.color);
            let substituted = (su.text == "│" && sa.text == "|")
                || (su.text == "├────" && sa.text == "+---")
                || (su.text == "└────" && sa.text == "\\---");
            assert!(su.text == sa.text || substituted);
        }
    }
}

#[test]
fn render_row_marks_last_entry_and_closes_its_depth() {
    let map = default_color_map();
    let name = "leaf".to_string();
    let mut opens: Vec<u32> = vec![0, 2];
    let row = render_row(2, &mut opens, &map, &name, true, true, false);
    assert_eq!(
        row,
        vec![
            seg("│", Some(ColorTag::Cyan)),
            seg("     ", None),
            seg("      ", None),
            seg("└────", Some(ColorTag::Red)),
            seg(" ", None),
            seg("leaf", Some(ColorTag::Blue)),
        ]
    );
    assert_eq!(opens, vec![0]);
}

#[test]
fn render_row_keeps_depth_open_before_last_entry() {
    let map = default_color_map();
    let name = "note.txt".to_string();
    let mut opens: Vec<u32> = vec![0, 1];
    let row = render_row(1, &mut opens, &map, &name, false, false, true);
    assert_eq!(
        row,
        vec![
            seg("|", Some(ColorTag::Cyan)),
            seg("     ", None),
            seg("+---", Some(ColorTag::Magenta)),
            seg(" ", None),
            seg("note.txt", Some(ColorTag::White)),
        ]
    );
    assert_eq!(opens, vec![0, 1]);
}

#[test]
fn header_line_names_the_directory() {
    let name = "projects".to_string();
    assert_eq!(header_line(&name), "Showing tree of directory 'projects':");
}
