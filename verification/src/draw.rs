//! Sub-cell drawing: octads (braille dots) and twoxels (half blocks)
//! written into a buffer at the cell their position falls in.
use vstd::prelude::*;

use crate::base::buffer::{cell_index, Buffer};
use crate::base::compositor::char_from_u32;
use crate::base::draw::{Position, Size};
use crate::cell::{Cell, CellFormat, CellView};
use crate::color::Color;
use crate::coord_space::div_toward_zero;
use crate::coord_space::native::NativePosition;
use crate::coord_space::blocktad::BlocktadPosition;
use crate::coord_space::octad::OctadPosition;
use crate::coord_space::twoxel::TwoxelPosition;
use crate::style::Style;

verus! {

/// `String::from(char)` of the standard library: the string holding just
/// `c`, as its documentation says.
#[verifier::external_body]
fn string_of_char(c: char) -> (s: String)
    ensures
        s@ == seq![c],
{
    String::from(c)
}

/// The cell of a buffer of `size` at native column `x` and row `y`, where
/// that cell lies in the buffer.
pub open spec fn spec_native_cell(size: Size, x: int, y: int) -> Option<Position> {
    if 0 <= x < size.width && 0 <= y < size.height {
        Some(Position { x: x as u16, y: y as u16 })
    } else {
        None
    }
}

/// The cell of a buffer of `size` at the native position `p`, where that
/// cell lies in the buffer.
fn native_cell(size: Size, p: NativePosition) -> (r: Option<Position>)
    ensures
        r == spec_native_cell(size, p.x as int, p.y as int),
{
    if 0 <= p.x && 0 <= p.y && (p.x as u16) < size.width && (p.y as u16) < size.height {
        Some(Position::new(p.x as u16, p.y as u16))
    } else {
        None
    }
}

/// `v` modulo `m` (2 or 4), always in `0..m`.
fn local_index(v: i16, m: u32) -> (r: u32)
    requires
        m == 2 || m == 4,
    ensures
        r as int == (v as int) % (m as int),
        r < m,
{
    let shifted: u32 = (v as i32 + 32768) as u32;
    let r = shifted % m;
    assert((v as int + 32768) % (m as int) == (v as int) % (m as int)) by (nonlinear_arith)
        requires
            m == 2 || m == 4,
    ;
    r
}

/// The braille dot (numbered from 0) that the sub-position `(lx, ly)` of a
/// cell, `lx` in `0..2` and `ly` in `0..4`, stands for: the left column
/// takes dots 0, 1, 2 and 6 from the top, the right column 3, 4, 5 and 7.
pub open spec fn spec_octad_dot(lx: int, ly: int) -> u32 {
    if lx == 0 {
        if ly == 0 {
            0
        } else if ly == 1 {
            1
        } else if ly == 2 {
            2
        } else {
            6
        }
    } else {
        if ly == 0 {
            3
        } else if ly == 1 {
            4
        } else if ly == 2 {
            5
        } else {
            7
        }
    }
}

/// The code point of the braille character with the one dot that the octad
/// at `pos` stands for.
pub open spec fn spec_octad_code(pos: OctadPosition) -> u32 {
    (0x2800 + (1u32 << spec_octad_dot((pos.x as int) % 2, (pos.y as int) % 4))) as u32
}

/// The half block that the twoxel at `pos` stands for: the upper one on an
/// even row, the lower one on an odd row.
pub open spec fn spec_twoxel_char(pos: TwoxelPosition) -> char {
    if (pos.y as int) % 2 == 0 {
        '\u{2580}'
    } else {
        '\u{2584}'
    }
}

/// What writing a glyph `ch` in `color`, in `format`, into the cell at native
/// `(x, y)` of a buffer holding `cells` leaves: the cell as the buffer
/// writes it, where it lies in the buffer; otherwise nothing changes.
pub open spec fn spec_glyph_drawn<Buf: Buffer>(
    size: Size,
    cells: Seq<CellView>,
    x: int,
    y: int,
    ch: char,
    color: Color,
    format: CellFormat,
) -> Seq<CellView> {
    match spec_native_cell(size, x, y) {
        Some(p) => cells.update(
            cell_index(size, p),
            Buf::spec_written(
                cells[cell_index(size, p)],
                CellView { ch: seq![ch], style: Style { fg: Some(color), ..Style::spec_empty() }, format },
            ),
        ),
        None => cells,
    }
}

/// The blocktad characters, indexed by the mask of the sub-cells they fill:
/// bit `y * 2 + x` stands for column `x` of row `y` of a cell's two columns
/// and four rows.
pub const BLOCKTAD_CHAR_LUT: [char; 256] = [
    '\u{20}', '\u{1CEA8}', '\u{1CEAB}', '\u{1FB82}', '\u{1CD00}', '\u{2598}', '\u{1CD01}', '\u{1CD02}',
    '\u{1CD03}', '\u{1CD04}', '\u{259D}', '\u{1CD05}', '\u{1CD06}', '\u{1CD07}', '\u{1CD08}', '\u{2580}',
    '\u{1CD09}', '\u{1CD0A}', '\u{1CD0B}', '\u{1CD0C}', '\u{1FBE6}', '\u{1CD0D}', '\u{1CD0E}', '\u{1CD0F}',
    '\u{1CD10}', '\u{1CD11}', '\u{1CD12}', '\u{1CD13}', '\u{1CD14}', '\u{1CD15}', '\u{1CD16}', '\u{1CD17}',
    '\u{1CD18}', '\u{1CD19}', '\u{1CD1A}', '\u{1CD1B}', '\u{1CD1C}', '\u{1CD1D}', '\u{1CD1E}', '\u{1CD1F}',
    '\u{1FBE7}', '\u{1CD20}', '\u{1CD21}', '\u{1CD22}', '\u{1CD23}', '\u{1CD24}', '\u{1CD25}', '\u{1CD26}',
    '\u{1CD27}', '\u{1CD28}', '\u{1CD29}', '\u{1CD2A}', '\u{1CD2B}', '\u{1CD2C}', '\u{1CD2D}', '\u{1CD2E}',
    '\u{1CD2F}', '\u{1CD30}', '\u{1CD31}', '\u{1CD32}', '\u{1CD33}', '\u{1CD34}', '\u{1CD35}', '\u{1FB85}',
    '\u{1CEA3}', '\u{1CD36}', '\u{1CD37}', '\u{1CD38}', '\u{1CD39}', '\u{1CD3A}', '\u{1CD3B}', '\u{1CD3C}',
    '\u{1CD3D}', '\u{1CD3E}', '\u{1CD3F}', '\u{1CD40}', '\u{1CD41}', '\u{1CD42}', '\u{1CD43}', '\u{1CD44}',
    '\u{2596}', '\u{1CD45}', '\u{1CD46}', '\u{1CD47}', '\u{1CD48}', '\u{258C}', '\u{1CD49}', '\u{1CD4A}',
    '\u{1CD4B}', '\u{1CD4C}', '\u{259E}', '\u{1CD4D}', '\u{1CD4E}', '\u{1CD4F}', '\u{1CD50}', '\u{259B}',
    '\u{1CD51}', '\u{1CD52}', '\u{1CD53}', '\u{1CD54}', '\u{1CD55}', '\u{1CD56}', '\u{1CD57}', '\u{1CD58}',
    '\u{1CD59}', '\u{1CD5A}', '\u{1CD5B}', '\u{1CD5C}', '\u{1CD5D}', '\u{1CD5E}', '\u{1CD5F}', '\u{1CD60}',
    '\u{1CD61}', '\u{1CD62}', '\u{1CD63}', '\u{1CD64}', '\u{1CD65}', '\u{1CD66}', '\u{1CD67}', '\u{1CD68}',
    '\u{1CD69}', '\u{1CD6A}', '\u{1CD6B}', '\u{1CD6C}', '\u{1CD6D}', '\u{1CD6E}', '\u{1CD6F}', '\u{1CD70}',
    '\u{1CEA0}', '\u{1CD71}', '\u{1CD72}', '\u{1CD73}', '\u{1CD74}', '\u{1CD75}', '\u{1CD76}', '\u{1CD77}',
    '\u{1CD78}', '\u{1CD79}', '\u{1CD7A}', '\u{1CD7B}', '\u{1CD7C}', '\u{1CD7D}', '\u{1CD7E}', '\u{1CD7F}',
    '\u{1CD80}', '\u{1CD81}', '\u{1CD82}', '\u{1CD83}', '\u{1CD84}', '\u{1CD85}', '\u{1CD86}', '\u{1CD87}',
    '\u{1CD88}', '\u{1CD89}', '\u{1CD8A}', '\u{1CD8B}', '\u{1CD8C}', '\u{1CD8D}', '\u{1CD8E}', '\u{1CD8F}',
    '\u{2597}', '\u{1CD90}', '\u{1CD91}', '\u{1CD92}', '\u{1CD93}', '\u{259A}', '\u{1CD94}', '\u{1CD95}',
    '\u{1CD96}', '\u{1CD97}', '\u{2590}', '\u{1CD98}', '\u{1CD99}', '\u{1CD9A}', '\u{1CD9B}', '\u{259C}',
    '\u{1CD9C}', '\u{1CD9D}', '\u{1CD9E}', '\u{1CD9F}', '\u{1CDA0}', '\u{1CDA1}', '\u{1CDA2}', '\u{1CDA3}',
    '\u{1CDA4}', '\u{1CDA5}', '\u{1CDA6}', '\u{1CDA7}', '\u{1CDA8}', '\u{1CDA9}', '\u{1CDAA}', '\u{1CDAB}',
    '\u{2582}', '\u{1CDAC}', '\u{1CDAD}', '\u{1CDAE}', '\u{1CDAF}', '\u{1CDB0}', '\u{1CDB1}', '\u{1CDB2}',
    '\u{1CDB3}', '\u{1CDB4}', '\u{1CDB5}', '\u{1CDB6}', '\u{1CDB7}', '\u{1CDB8}', '\u{1CDB9}', '\u{1CDBA}',
    '\u{1CDBB}', '\u{1CDBC}', '\u{1CDBD}', '\u{1CDBE}', '\u{1CDBF}', '\u{1CDC0}', '\u{1CDC1}', '\u{1CDC2}',
    '\u{1CDC3}', '\u{1CDC4}', '\u{1CDC5}', '\u{1CDC6}', '\u{1CDC7}', '\u{1CDC8}', '\u{1CDC9}', '\u{1CDCA}',
    '\u{1CDCB}', '\u{1CDCC}', '\u{1CDCD}', '\u{1CDCE}', '\u{1CDCF}', '\u{1CDD0}', '\u{1CDD1}', '\u{1CDD2}',
    '\u{1CDD3}', '\u{1CDD4}', '\u{1CDD5}', '\u{1CDD6}', '\u{1CDD7}', '\u{1CDD8}', '\u{1CDD9}', '\u{1CDDA}',
    '\u{2584}', '\u{1CDDB}', '\u{1CDDC}', '\u{1CDDD}', '\u{1CDDE}', '\u{2599}', '\u{1CDDF}', '\u{1CDE0}',
    '\u{1CDE1}', '\u{1CDE2}', '\u{259F}', '\u{1CDE3}', '\u{2586}', '\u{1CDE4}', '\u{1CDE5}', '\u{2588}',
];

/// The blocktad character with the one sub-cell that the blocktad at `pos`
/// stands for filled.
pub open spec fn spec_blocktad_char(pos: BlocktadPosition) -> char {
    BLOCKTAD_CHAR_LUT@[(1u32 << (((pos.y as int) % 4) * 2 + (pos.x as int) % 2) as u32) as int]
}

/// Writes the glyph `ch` in `color`, in `format`, into the cell at the native
/// position `p`, where that cell lies in the buffer.
fn draw_glyph<Buf: Buffer>(buf: &mut Buf, p: NativePosition, ch: char, color: Color, format: CellFormat)
    requires
        old(buf).wf(),
    ensures
        final(buf).wf(),
        final(buf).spec_size() == old(buf).spec_size(),
        final(buf).spec_cells() == spec_glyph_drawn::<Buf>(
            old(buf).spec_size(),
            old(buf).spec_cells(),
            p.x as int,
            p.y as int,
            ch,
            color,
            format,
        ),
{
    let size = buf.size();
    if let Some(target) = native_cell(size, p) {
        let style = Style::empty().with_fg(Some(color));
        let cell = Cell { ch: string_of_char(ch), style, format };
        buf.set_cell(target, cell);
    }
}

/// Draws an octad: one braille dot, in `color`, at the sub-position of its
/// cell that `pos` gives (two columns and four rows of dots per cell), into
/// the cell `pos` falls in, where that cell lies in the buffer. Nothing else
/// changes.
pub fn draw_octad<Buf: Buffer>(buf: &mut Buf, pos: OctadPosition, color: Color)
    requires
        old(buf).wf(),
    ensures
        final(buf).wf(),
        final(buf).spec_size() == old(buf).spec_size(),
        final(buf).spec_cells() == spec_glyph_drawn::<Buf>(
            old(buf).spec_size(),
            old(buf).spec_cells(),
            div_toward_zero(pos.x as int, 2),
            div_toward_zero(pos.y as int, 4),
            spec_octad_code(pos) as char,
            color,
            CellFormat::Octad,
        ),
{
    let lx = local_index(pos.x, 2);
    let ly = local_index(pos.y, 4);
    let dot: u32 = if lx == 0 {
        if ly == 0 {
            0
        } else if ly == 1 {
            1
        } else if ly == 2 {
            2
        } else {
            6
        }
    } else {
        if ly == 0 {
            3
        } else if ly == 1 {
            4
        } else if ly == 2 {
            5
        } else {
            7
        }
    };
    assert(dot == spec_octad_dot((pos.x as int) % 2, (pos.y as int) % 4));
    assert((1u32 << dot) <= 128) by (bit_vector)
        requires
            dot <= 7,
    ;
    let code: u32 = 0x2800 + (1u32 << dot);
    match char_from_u32(code) {
        Some(ch) => {
            assert(code == spec_octad_code(pos));
            proof {
                vstd::utf8::char_u32_cast(ch, code);
            }
            draw_glyph(buf, pos.to_native(), ch, color, CellFormat::Octad);
        },
        None => {
            assert(false);
        },
    }
}

/// Draws a blocktad: one filled sub-cell, in `color`, at the sub-position of
/// its cell that `pos` gives (two columns and four rows per cell), into the
/// cell `pos` falls in, where that cell lies in the buffer. Nothing else
/// changes.
pub fn draw_blocktad<Buf: Buffer>(buf: &mut Buf, pos: BlocktadPosition, color: Color)
    requires
        old(buf).wf(),
    ensures
        final(buf).wf(),
        final(buf).spec_size() == old(buf).spec_size(),
        final(buf).spec_cells() == spec_glyph_drawn::<Buf>(
            old(buf).spec_size(),
            old(buf).spec_cells(),
            div_toward_zero(pos.x as int, 2),
            div_toward_zero(pos.y as int, 4),
            spec_blocktad_char(pos),
            color,
            CellFormat::Blocktad,
        ),
{
    let lx = local_index(pos.x, 2);
    let ly = local_index(pos.y, 4);
    let offset: u32 = ly * 2 + lx;
    assert((1u32 << offset) < 256) by (bit_vector)
        requires
            offset <= 7,
    ;
    let mask: u32 = 1u32 << offset;
    let blocktad_char: char = BLOCKTAD_CHAR_LUT[mask as usize];
    draw_glyph(buf, pos.to_native(), blocktad_char, color, CellFormat::Blocktad);
}

/// Draws a twoxel: a half block in `color`, the upper one where `pos` is on
/// an even row and the lower one where it is on an odd row, into the cell
/// `pos` falls in, where that cell lies in the buffer. Nothing else changes.
pub fn draw_twoxel<Buf: Buffer>(buf: &mut Buf, pos: TwoxelPosition, color: Color)
    requires
        old(buf).wf(),
    ensures
        final(buf).wf(),
        final(buf).spec_size() == old(buf).spec_size(),
        final(buf).spec_cells() == spec_glyph_drawn::<Buf>(
            old(buf).spec_size(),
            old(buf).spec_cells(),
            pos.x as int,
            div_toward_zero(pos.y as int, 2),
            spec_twoxel_char(pos),
            color,
            CellFormat::Twoxel,
        ),
{
    let ly = local_index(pos.y, 2);
    let half_block: char = if ly == 0 {
        '\u{2580}'
    } else {
        '\u{2584}'
    };
    draw_glyph(buf, pos.to_native(), half_block, color, CellFormat::Twoxel);
}

} // verus!
