use vstd::prelude::*;

verus! {

/// The code of the first character that a bitmap font holds (the space).
pub const CHAR_CODE_OFFSET: u32 = 32;

/// Where the picture of character `c` lies in the texture of a bitmap font
/// whose characters are `char_width` by `char_height` pixels, laid out
/// `chars_per_line` to a row from the space on: its top-left corner, in
/// pixels. Characters that are not ASCII have no picture (they are skipped).
pub open spec fn glyph_source_spec(c: char, chars_per_line: u32, char_width: u32, char_height: u32) -> Option<(int, int)> {
    if (c as u32) < 128 {
        let code = c as u32 - CHAR_CODE_OFFSET;
        Some(((code % chars_per_line as int) * char_width, (code / chars_per_line as int) * char_height))
    } else {
        None
    }
}

/// Whether the picture of `c` can be found without overflow: a character
/// before the space has none.
pub open spec fn glyph_drawable(c: char, chars_per_line: u32, char_width: u32, char_height: u32) -> bool {
    (c as u32) < 128 ==> {
        &&& c as u32 >= CHAR_CODE_OFFSET
        &&& ((c as u32 - CHAR_CODE_OFFSET) % chars_per_line as int) * char_width <= u32::MAX
        &&& ((c as u32 - CHAR_CODE_OFFSET) / chars_per_line as int) * char_height <= u32::MAX
    }
}

/// Where the picture of character `c` lies in the texture of a bitmap font.
pub fn glyph_source(c: char, chars_per_line: u32, char_width: u32, char_height: u32) -> (result: Option<(u32, u32)>)
    requires
        chars_per_line > 0,
        glyph_drawable(c, chars_per_line, char_width, char_height),
    ensures
        match glyph_source_spec(c, chars_per_line, char_width, char_height) {
            Some((x, y)) => result matches Some((rx, ry)) && rx == x && ry == y,
            None => result is None,
        },
{
    let code_point = c as u32;
    if code_point < 128 {
        let char_code = code_point - CHAR_CODE_OFFSET;
        let char_x = char_code % chars_per_line;
        let char_y = char_code / chars_per_line;
        Some((char_x * char_width, char_y * char_height))
    } else {
        None
    }
}

} // verus!
