use rtr::colors::branch_color;
use rtr::colors::default_color_map;
use rtr::colors::ColorTag;
use rtr::glyphs::i_char;
use rtr::glyphs::l_char;
use rtr::glyphs::t_char;

#[test]
fn unicode_glyphs() {
    assert_eq!(i_char(false), "│");
    assert_eq!(t_char(false), "├────");
    assert_eq!(l_char(false), "└────");
}

#[test]
fn ascii_glyphs() {
    assert_eq!(i_char(true), "|");
    assert_eq!(t_char(true), "+---");
    assert_eq!(l_char(true), "\\---");
}

#[test]
fn palette_order() {
    let map = default_color_map();
    assert_eq!(
        map,
        vec![
            ColorTag::Cyan,
            ColorTag::Magenta,
            ColorTag::Red,
            ColorTag::Yellow,
            ColorTag::Green,
        ]
    );
}

#[test]
fn branch_color_cycles_through_the_palette() {
    let map = default_color_map();
    let expected = [
        ColorTag::Cyan,
        ColorTag::Magenta,
        ColorTag::Red,
        ColorTag::Yellow,
        ColorTag::Green,
    ];
    // Two full cycles: depth d always gets map[d mod map.len()].
    for d in 0u32..10u32 {
        assert_eq!(branch_color(&map, d), expected[(d as usize) % 5]);
    }
}
