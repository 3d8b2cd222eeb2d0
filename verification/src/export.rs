//! Exporter for the textual byte-array literal, and the matching re-parser.
//!
//! The emitted text is one header line, then one line per grid row in visual
//! order (top row first), each row's pixels as `0`/`1` characters left to
//! right, then a closing line. The declared element width stays `[8]` even
//! though only five bit characters are emitted per row; the high bits are
//! simply never written. The re-parser ignores all formatting: it skips the
//! header line and reads the next 35 bit characters, wherever they sit.

use vstd::prelude::*;

use vstd::string::StrSliceExecFns;
use vstd::string::StringExecFns;

use crate::grid::GRID_HEIGHT;
use crate::grid::GRID_WIDTH;
use crate::grid::Pixel;
use crate::grid::PixelGrid;
use crate::grid::grid_wf;

verus! {

/// The bit character a pixel exports to: lit is `1`, unlit is `0`.
pub open spec fn bit_char(p: Pixel) -> char {
    match p {
        Pixel::Lit => '1',
        Pixel::Unlit => '0',
    }
}

/// The first `n` bit characters of one row, left to right.
pub open spec fn row_bits(row: Seq<Pixel>, n: int) -> Seq<char>
    decreases n,
{
    if n <= 0 {
        Seq::empty()
    } else {
        row_bits(row, n - 1).push(bit_char(row[n - 1]))
    }
}

/// One emitted body line: tab, `B`, the row's five bits, comma, newline.
pub open spec fn line_text(row: Seq<Pixel>) -> Seq<char> {
    "\tB"@ + row_bits(row, row.len() as int) + ",\n"@
}

/// The first `n` body lines, top row first.
pub open spec fn lines_text(g: Seq<Seq<Pixel>>, n: int) -> Seq<char>
    decreases n,
{
    if n <= 0 {
        Seq::empty()
    } else {
        lines_text(g, n - 1) + line_text(g[n - 1])
    }
}

/// The header line: the literal's declaration with the caller's name.
pub open spec fn header_text(name: Seq<char>) -> Seq<char> {
    "byte "@ + name + "[8] = {\n"@
}

/// The complete exported literal for a grid.
pub open spec fn export_text(g: Seq<Seq<Pixel>>, name: Seq<char>) -> Seq<char> {
    header_text(name) + lines_text(g, g.len() as int) + "};\n"@
}

/// Serialize a grid to the byte-array literal text. Deterministic and total:
/// the same grid and name always yield the same text.
pub fn export(grid: &PixelGrid, name: &str) -> (out: String)
    requires
        grid.wf(),
    ensures
        out@ == export_text(grid@, name@),
{
    let mut out = String::new();
    out.append("byte ");
    out.append(name);
    out.append("[8] = {\n");
    proof {
        assert(out@ =~= header_text(name@) + lines_text(grid@, 0));
    }
    let mut y: usize = 0;
    while y < GRID_HEIGHT
        invariant
            grid.wf(),
            y <= GRID_HEIGHT,
            out@ == header_text(name@) + lines_text(grid@, y as int),
        decreases GRID_HEIGHT - y,
    {
        out.append("\tB");
        proof {
            assert(out@ =~= header_text(name@) + lines_text(grid@, y as int) + "\tB"@ + row_bits(
                grid@[y as int],
                0,
            ));
        }
        let mut x: usize = 0;
        while x < GRID_WIDTH
            invariant
                grid.wf(),
                y < GRID_HEIGHT,
                x <= GRID_WIDTH,
                out@ == header_text(name@) + lines_text(grid@, y as int) + "\tB"@ + row_bits(
                    grid@[y as int],
                    x as int,
                ),
            decreases GRID_WIDTH - x,
        {
            let p = grid.get(x, y);
            match p {
                Pixel::Lit => out.append("1"),
                Pixel::Unlit => out.append("0"),
            }
            proof {
                reveal_strlit("1");
                reveal_strlit("0");
                assert(out@ =~= header_text(name@) + lines_text(grid@, y as int) + "\tB"@
                    + row_bits(grid@[y as int], x + 1));
            }
            x = x + 1;
        }
        out.append(",\n");
        proof {
            assert(grid@[y as int].len() == GRID_WIDTH);
            assert(out@ =~= header_text(name@) + lines_text(grid@, y + 1));
        }
        y = y + 1;
    }
    out.append("};\n");
    proof {
        assert(out@ =~= export_text(grid@, name@));
    }
    out
}

/// A character that encodes one pixel.
pub open spec fn is_bit_char(c: char) -> bool {
    c == '0' || c == '1'
}

/// The bit characters of a text, in order, all formatting dropped.
pub open spec fn bit_chars_of(s: Seq<char>) -> Seq<char>
    decreases s.len(),
{
    if s.len() == 0 {
        Seq::empty()
    } else {
        let rest = bit_chars_of(s.drop_last());
        if is_bit_char(s.last()) {
            rest.push(s.last())
        } else {
            rest
        }
    }
}

/// Everything after the first newline; empty when there is none.
pub open spec fn after_first_newline(s: Seq<char>) -> Seq<char>
    decreases s.len(),
{
    if s.len() == 0 {
        s
    } else if s[0] == '\n' {
        s.drop_first()
    } else {
        after_first_newline(s.drop_first())
    }
}

/// A text re-parses into a glyph when the part after its header line holds
/// at least one bit character per pixel.
pub open spec fn parse_ok(s: Seq<char>) -> bool {
    bit_chars_of(after_first_newline(s)).len() >= GRID_WIDTH * GRID_HEIGHT
}

/// The grid a run of bit characters reconstructs, row-major, top row first.
pub open spec fn parsed_grid(bits: Seq<char>) -> Seq<Seq<Pixel>> {
    Seq::new(
        GRID_HEIGHT as nat,
        |y: int|
            Seq::new(
                GRID_WIDTH as nat,
                |x: int|
                    if bits[y * GRID_WIDTH + x] == '1' {
                        Pixel::Lit
                    } else {
                        Pixel::Unlit
                    },
            ),
    )
}

/// Re-parse exported text: skip the header line, collect bit characters in
/// order, and rebuild the grid from the first 35 of them. Returns `None`
/// exactly when too few bit characters follow the header line.
pub fn parse_glyph(text: &str) -> (r: Option<PixelGrid>)
    ensures
        r is Some <==> parse_ok(text@),
        r matches Some(g) ==> g.wf() && g@ == parsed_grid(
            bit_chars_of(after_first_newline(text@)),
        ),
{
    let n = text.unicode_len();
    let mut i: usize = 0;
    while i < n && text.get_char(i) != '\n'
        invariant
            i <= n,
            n == text@.len(),
            forall|k: int| 0 <= k < i ==> text@[k] != '\n',
        decreases n - i,
    {
        i = i + 1;
    }
    if i == n {
        proof {
            lemma_after_no_newline(text@);
        }
        return None;
    }
    proof {
        lemma_after_skips_header(text@, i as int);
    }
    let ghost tail = text@.subrange(i + 1, n as int);
    let mut bits: Vec<char> = Vec::new();
    let mut j: usize = i + 1;
    while j < n
        invariant
            i < j <= n,
            n == text@.len(),
            bits@ == bit_chars_of(text@.subrange(i + 1, j as int)),
        decreases n - j,
    {
        let c = text.get_char(j);
        if c == '0' || c == '1' {
            bits.push(c);
        }
        proof {
            let pre = text@.subrange(i + 1, j as int);
            let cur = text@.subrange(i + 1, j + 1);
            assert(cur.drop_last() =~= pre);
            assert(cur.last() == text@[j as int]);
        }
        j = j + 1;
    }
    proof {
        assert(text@.subrange(i + 1, n as int) == tail);
        assert(after_first_newline(text@) == tail);
    }
    if bits.len() < GRID_WIDTH * GRID_HEIGHT {
        return None;
    }
    let mut g = PixelGrid::new();
    let mut y: usize = 0;
    while y < GRID_HEIGHT
        invariant
            y <= GRID_HEIGHT,
            bits@.len() >= GRID_WIDTH * GRID_HEIGHT,
            g.wf(),
            forall|a: int, b: int|
                0 <= a < GRID_WIDTH && 0 <= b < y ==> #[trigger] g@[b][a] == (if bits@[b
                    * GRID_WIDTH + a] == '1' {
                    Pixel::Lit
                } else {
                    Pixel::Unlit
                }),
        decreases GRID_HEIGHT - y,
    {
        let mut x: usize = 0;
        while x < GRID_WIDTH
            invariant
                y < GRID_HEIGHT,
                x <= GRID_WIDTH,
                bits@.len() >= GRID_WIDTH * GRID_HEIGHT,
                g.wf(),
                forall|a: int, b: int|
                    0 <= a < GRID_WIDTH && 0 <= b < y ==> #[trigger] g@[b][a] == (if bits@[b
                        * GRID_WIDTH + a] == '1' {
                        Pixel::Lit
                    } else {
                        Pixel::Unlit
                    }),
                forall|a: int|
                    0 <= a < x ==> #[trigger] g@[y as int][a] == (if bits@[y as int * GRID_WIDTH
                        + a] == '1' {
                        Pixel::Lit
                    } else {
                        Pixel::Unlit
                    }),
            decreases GRID_WIDTH - x,
        {
            let c = bits[y * GRID_WIDTH + x];
            let p = if c == '1' {
                Pixel::Lit
            } else {
                Pixel::Unlit
            };
            g.set(x, y, p);
            x = x + 1;
        }
        y = y + 1;
    }
    proof {
        assert(g@ =~~= parsed_grid(bits@));
        assert(bits@ == bit_chars_of(after_first_newline(text@)));
    }
    Some(g)
}

/// A text without a newline has nothing after its first newline.
proof fn lemma_after_no_newline(s: Seq<char>)
    requires
        forall|k: int| 0 <= k < s.len() ==> s[k] != '\n',
    ensures
        after_first_newline(s).len() == 0,
    decreases s.len(),
{
    if s.len() > 0 {
        lemma_after_no_newline(s.drop_first());
    }
}

/// When the first newline sits at index `i`, everything after it is the
/// suffix from `i + 1`.
proof fn lemma_after_skips_header(s: Seq<char>, i: int)
    requires
        0 <= i < s.len(),
        s[i] == '\n',
        forall|k: int| 0 <= k < i ==> s[k] != '\n',
    ensures
        after_first_newline(s) == s.subrange(i + 1, s.len() as int),
    decreases i,
{
    if i == 0 {
        assert(s.drop_first() =~= s.subrange(1, s.len() as int));
    } else {
        let t = s.drop_first();
        assert(forall|k: int| 0 <= k < i - 1 ==> t[k] != '\n');
        lemma_after_skips_header(t, i - 1);
        assert(t.subrange(i, t.len() as int) =~= s.subrange(i + 1, s.len() as int));
    }
}

/// Collecting bit characters distributes over concatenation.
proof fn lemma_bits_distribute(a: Seq<char>, b: Seq<char>)
    ensures
        bit_chars_of(a + b) == bit_chars_of(a) + bit_chars_of(b),
    decreases b.len(),
{
    if b.len() == 0 {
        assert(a + b =~= a);
        assert(bit_chars_of(b) =~= Seq::<char>::empty());
        assert(bit_chars_of(a) + bit_chars_of(b) =~= bit_chars_of(a));
    } else {
        lemma_bits_distribute(a, b.drop_last());
        assert((a + b).drop_last() =~= a + b.drop_last());
        assert((a + b).last() == b.last());
        if is_bit_char(b.last()) {
            assert(bit_chars_of(a + b) == (bit_chars_of(a) + bit_chars_of(b.drop_last())).push(
                b.last(),
            ));
            assert((bit_chars_of(a) + bit_chars_of(b.drop_last())).push(b.last()) =~= bit_chars_of(
                a,
            ) + bit_chars_of(b.drop_last()).push(b.last()));
        }
    }
}

/// A text with no bit characters contributes none.
proof fn lemma_bits_none(s: Seq<char>)
    requires
        forall|k: int| 0 <= k < s.len() ==> !is_bit_char(s[k]),
    ensures
        bit_chars_of(s) == Seq::<char>::empty(),
    decreases s.len(),
{
    if s.len() > 0 {
        lemma_bits_none(s.drop_last());
    }
}

/// A text of bit characters only is its own collection.
proof fn lemma_bits_all(s: Seq<char>)
    requires
        forall|k: int| 0 <= k < s.len() ==> is_bit_char(s[k]),
    ensures
        bit_chars_of(s) == s,
    decreases s.len(),
{
    if s.len() > 0 {
        lemma_bits_all(s.drop_last());
        assert(bit_chars_of(s.drop_last()).push(s.last()) =~= s);
    }
}

/// The shape of a row's bit run: `n` characters, each the export of the
/// pixel at its own column.
proof fn lemma_row_bits(row: Seq<Pixel>, n: int)
    requires
        0 <= n <= row.len(),
    ensures
        row_bits(row, n).len() == n,
        forall|k: int| 0 <= k < n ==> row_bits(row, n)[k] == bit_char(row[k]),
    decreases n,
{
    if n > 0 {
        lemma_row_bits(row, n - 1);
    }
}

/// The bit characters the whole glyph exports: the rows' runs, top first.
pub open spec fn glyph_bits(g: Seq<Seq<Pixel>>, n: int) -> Seq<char>
    decreases n,
{
    if n <= 0 {
        Seq::empty()
    } else {
        glyph_bits(g, n - 1) + row_bits(g[n - 1], GRID_WIDTH as int)
    }
}

/// The shape of the glyph's bit run: `GRID_WIDTH` characters per row, pixel
/// (`x`, `y`) at position `y * GRID_WIDTH + x`.
proof fn lemma_glyph_bits(g: Seq<Seq<Pixel>>, n: int)
    requires
        grid_wf(g),
        0 <= n <= GRID_HEIGHT,
    ensures
        glyph_bits(g, n).len() == n * GRID_WIDTH,
        forall|x: int, y: int|
            0 <= x < GRID_WIDTH && 0 <= y < n ==> #[trigger] glyph_bits(g, n)[y * GRID_WIDTH + x]
                == bit_char(g[y][x]),
    decreases n,
{
    if n > 0 {
        lemma_glyph_bits(g, n - 1);
        lemma_row_bits(g[n - 1], GRID_WIDTH as int);
    }
}

/// One body line's bit characters are exactly its row's bit run.
proof fn lemma_bits_of_line(row: Seq<Pixel>)
    requires
        row.len() == GRID_WIDTH,
    ensures
        bit_chars_of(line_text(row)) == row_bits(row, GRID_WIDTH as int),
{
    reveal_strlit("\tB");
    reveal_strlit(",\n");
    lemma_row_bits(row, GRID_WIDTH as int);
    lemma_bits_distribute("\tB"@ + row_bits(row, GRID_WIDTH as int), ",\n"@);
    lemma_bits_distribute("\tB"@, row_bits(row, GRID_WIDTH as int));
    lemma_bits_none("\tB"@);
    lemma_bits_none(",\n"@);
    lemma_bits_all(row_bits(row, GRID_WIDTH as int));
    assert(bit_chars_of(line_text(row)) =~= row_bits(row, GRID_WIDTH as int));
}

/// The body's bit characters are exactly the glyph's bit run.
proof fn lemma_bits_of_lines(g: Seq<Seq<Pixel>>, n: int)
    requires
        grid_wf(g),
        0 <= n <= GRID_HEIGHT,
    ensures
        bit_chars_of(lines_text(g, n)) == glyph_bits(g, n),
    decreases n,
{
    if n == 0 {
        assert(bit_chars_of(lines_text(g, 0)) =~= glyph_bits(g, 0));
    } else {
        lemma_bits_of_lines(g, n - 1);
        lemma_bits_distribute(lines_text(g, n - 1), line_text(g[n - 1]));
        lemma_bits_of_line(g[n - 1]);
    }
}

/// The header line holds the only newline before the body: skipping through
/// the first newline of the export lands exactly on the body.
proof fn lemma_after_header(g: Seq<Seq<Pixel>>, name: Seq<char>)
    requires
        grid_wf(g),
        forall|k: int| 0 <= k < name.len() ==> name[k] != '\n',
    ensures
        after_first_newline(export_text(g, name)) == lines_text(g, g.len() as int) + "};\n"@,
{
    reveal_strlit("byte ");
    reveal_strlit("[8] = {\n");
    let s = export_text(g, name);
    let h = header_text(name);
    let i = h.len() - 1;
    assert(h.len() == 13 + name.len());
    assert(s[i] == '\n');
    assert forall|k: int| 0 <= k < i implies s[k] != '\n' by {
        if k < 5 {
            assert(s[k] == "byte "@[k]);
        } else if k < 5 + name.len() {
            assert(s[k] == name[k - 5]);
        } else {
            assert(s[k] == "[8] = {\n"@[k - 5 - name.len()]);
        }
    }
    lemma_after_skips_header(s, i as int);
    assert(s.subrange(i + 1, s.len() as int) =~= lines_text(g, g.len() as int) + "};\n"@);
}

/// Round trip: re-parsing an exported literal reconstructs the grid
/// exactly, for every well-formed grid and every name free of newlines.
pub proof fn lemma_export_round_trip(g: Seq<Seq<Pixel>>, name: Seq<char>)
    requires
        grid_wf(g),
        forall|k: int| 0 <= k < name.len() ==> name[k] != '\n',
    ensures
        parse_ok(export_text(g, name)),
        parsed_grid(bit_chars_of(after_first_newline(export_text(g, name)))) == g,
{
    reveal_strlit("};\n");
    lemma_after_header(g, name);
    lemma_bits_distribute(lines_text(g, g.len() as int), "};\n"@);
    lemma_bits_none("};\n"@);
    lemma_bits_of_lines(g, GRID_HEIGHT as int);
    lemma_glyph_bits(g, GRID_HEIGHT as int);
    let bits = bit_chars_of(after_first_newline(export_text(g, name)));
    assert(bits =~= glyph_bits(g, GRID_HEIGHT as int));
    assert(parsed_grid(bits) =~~= g);
}

} // verus!
