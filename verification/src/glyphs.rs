//! Connector glyphs: the three strings a rendered row is drawn with, in
//! Unicode box-drawing characters or in plain ASCII.

use vstd::prelude::*;

verus! {

/// The vertical-continuation glyph, drawn in every column whose depth is
/// still open.
pub open spec fn i_char_spec(use_ascii: bool) -> Seq<char> {
    if use_ascii {
        "|"@
    } else {
        "│"@
    }
}

/// The mid-branch connector, for every qualifying entry but the last.
pub open spec fn t_char_spec(use_ascii: bool) -> Seq<char> {
    if use_ascii {
        "+---"@
    } else {
        "├────"@
    }
}

/// The last-branch connector, for the last qualifying entry at a depth.
pub open spec fn l_char_spec(use_ascii: bool) -> Seq<char> {
    if use_ascii {
        "\\---"@
    } else {
        "└────"@
    }
}

/// The connector a row gets, selected purely by whether the row is the last
/// qualifying entry at its depth.
pub open spec fn connector_spec(use_ascii: bool, is_last: bool) -> Seq<char> {
    if is_last {
        l_char_spec(use_ascii)
    } else {
        t_char_spec(use_ascii)
    }
}

pub fn i_char(use_ascii: bool) -> (r: String)
    ensures
        r@ == i_char_spec(use_ascii),
{
    match use_ascii {
        false => "│".to_owned(),
        true => "|".to_owned(),
    }
}

pub fn t_char(use_ascii: bool) -> (r: String)
    ensures
        r@ == t_char_spec(use_ascii),
{
    match use_ascii {
        false => "├────".to_owned(),
        true => "+---".to_owned(),
    }
}

pub fn l_char(use_ascii: bool) -> (r: String)
    ensures
        r@ == l_char_spec(use_ascii),
{
    match use_ascii {
        false => "└────".to_owned(),
        true => "\\---".to_owned(),
    }
}

} // verus!
