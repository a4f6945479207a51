//! Geometry-preview decisions: the glyph a material name is drawn
//! with, the material colour palette, and how a sampled slice (one
//! cell hit per pixel) becomes a `0x00RRGGBB` framebuffer or a block of
//! text.
use crate::text::{ascii_lower, digit_char, is_ascii_text, push_char, chars_of, contains, seq_contains, split_whitespace, to_lowercase, unicode_lowercase, ws_tokens};
use crate::decay::str_eq;
use vstd::prelude::*;

verus! {

/// Glyph for an already lower-cased material name: the first keyword
/// family that matches decides; a name matching no family gets `' '`.
pub open spec fn glyph_of_lowercase(n: Seq<char>) -> char {
    let found = |k: Seq<char>| seq_contains(n, k);
    let fuel = found("uo2"@) || found("uo₂"@) || found("uranium"@) || found("fuel"@) || found(
        "first cycle"@,
    ) || found("1st cycle"@) || found("second cycle"@) || found("2nd cycle"@) || found("third cycle"@)
        || found("3rd cycle"@) || found("boc"@) || found("eoc"@) || found("fresh"@) || found("mid-core"@)
        || found("mid core"@);
    if found("heavy water"@) || found("d2o"@) || found("d₂o"@) {
        'D'
    } else if found("light water"@) || found("h2o"@) || found("h₂o"@) || (found("water"@) && !found(
        "heavy"@,
    )) {
        '.'
    } else if found("mox"@) || found("plutonium"@) || found("puo2"@) || found("puo₂"@) {
        'M'
    } else if fuel {
        if found("burnt"@) || found("depleted"@) || found("spent"@) || found("third"@) || found(
            "3rd cycle"@,
        ) || found("eoc"@) {
            'b'
        } else if found("mid"@) || found("second"@) || found("2nd"@) {
            'm'
        } else {
            '#'
        }
    } else if found("zircaloy"@) || found("clad"@) || found("zr "@) || n == "zr"@ {
        '+'
    } else if found("steel"@) || found("vessel"@) || found("barrel"@) || found("iron"@) || ws_tokens(
        n,
    ).contains("ss"@) {
        '='
    } else if found("concrete"@) {
        ':'
    } else if found("control"@) || found("rcca"@) || found("b4c"@) || found("b₄c"@) || found("aic"@)
        || found("absorber"@) {
        'X'
    } else if found("lead-bismuth"@) || found("lbe"@) || found("pbbi"@) {
        'p'
    } else if found("lead"@) {
        'P'
    } else if found("graphite"@) || found("carbon"@) {
        'C'
    } else if found("sodium"@) || ws_tokens(n).contains("na"@) {
        '~'
    } else if found("air"@) || found("void"@) || found("vacuum"@) {
        ' '
    } else if found("reflector"@) {
        'r'
    } else if found("moderator"@) {
        ','
    } else {
        ' '
    }
}

/// `word` is one of the whitespace-separated words of `s`.
fn has_word(s: &str, word: &str) -> (b: bool)
    ensures
        b == ws_tokens(s@).contains(word@),
{
    let toks = split_whitespace(s);
    let ghost all = ws_tokens(s@);
    let mut i: usize = 0;
    while i < toks.len()
        invariant
            all == ws_tokens(s@),
            toks@.map_values(|t: String| t@) == all,
            i <= toks@.len(),
            forall|q: int| 0 <= q < i ==> all[q] != word@,
        decreases toks@.len() - i,
    {
        assert(all[i as int] == toks@[i as int]@);
        if str_eq(toks[i].as_str(), word) {
            return true;
        }
        i += 1;
    }
    false
}

/// Glyph for a material name that is already lower-case (see
/// [`glyph_of_lowercase`]).
pub fn glyph_for_lowercase_name(n: &str) -> (g: char)
    ensures
        g == glyph_of_lowercase(n@),
{
    let v = chars_of(n);
    if contains(&v, "heavy water") || contains(&v, "d2o") || contains(&v, "d₂o") {
        return 'D';
    }
    if contains(&v, "light water") || contains(&v, "h2o") || contains(&v, "h₂o") || (contains(
        &v,
        "water",
    ) && !contains(&v, "heavy")) {
        return '.';
    }
    if contains(&v, "mox") || contains(&v, "plutonium") || contains(&v, "puo2") || contains(
        &v,
        "puo₂",
    ) {
        return 'M';
    }
    let is_fuel = contains(&v, "uo2") || contains(&v, "uo₂") || contains(&v, "uranium")
        || contains(&v, "fuel") || contains(&v, "first cycle") || contains(&v, "1st cycle")
        || contains(&v, "second cycle") || contains(&v, "2nd cycle") || contains(
        &v,
        "third cycle",
    ) || contains(&v, "3rd cycle") || contains(&v, "boc") || contains(&v, "eoc") || contains(
        &v,
        "fresh",
    ) || contains(&v, "mid-core") || contains(&v, "mid core");
    if is_fuel {
        if contains(&v, "burnt") || contains(&v, "depleted") || contains(&v, "spent") || contains(
            &v,
            "third",
        ) || contains(&v, "3rd cycle") || contains(&v, "eoc") {
            return 'b';
        }
        if contains(&v, "mid") || contains(&v, "second") || contains(&v, "2nd") {
            return 'm';
        }
        return '#';
    }
    if contains(&v, "zircaloy") || contains(&v, "clad") || contains(&v, "zr ") || str_eq(n, "zr") {
        return '+';
    }
    if contains(&v, "steel") || contains(&v, "vessel") || contains(&v, "barrel") || contains(
        &v,
        "iron",
    ) || has_word(n, "ss") {
        return '=';
    }
    if contains(&v, "concrete") {
        return ':';
    }
    if contains(&v, "control") || contains(&v, "rcca") || contains(&v, "b4c") || contains(
        &v,
        "b₄c",
    ) || contains(&v, "aic") || contains(&v, "absorber") {
        return 'X';
    }
    if contains(&v, "lead-bismuth") || contains(&v, "lbe") || contains(&v, "pbbi") {
        return 'p';
    }
    if contains(&v, "lead") {
        return 'P';
    }
    if contains(&v, "graphite") || contains(&v, "carbon") {
        return 'C';
    }
    if contains(&v, "sodium") || has_word(n, "na") {
        return '~';
    }
    if contains(&v, "air") || contains(&v, "void") || contains(&v, "vacuum") {
        return ' ';
    }
    if contains(&v, "reflector") {
        return 'r';
    }
    if contains(&v, "moderator") {
        return ',';
    }
    ' '
}

/// Pick a glyph from a material name using the keyword families of
/// [`glyph_of_lowercase`] on its Unicode lower-case form; `' '` for
/// void-like and unknown names.
pub fn ascii_glyph_for_name(name: &str) -> (g: char)
    ensures
        g == glyph_of_lowercase(unicode_lowercase(name@)),
        is_ascii_text(name@) ==> g == glyph_of_lowercase(name@.map_values(|c: char| ascii_lower(c))),
{
    let n = to_lowercase(name);
    glyph_for_lowercase_name(n.as_str())
}

/// A colour as `(red, green, blue)`.
pub open spec fn rgb(c: [u8; 3]) -> (u8, u8, u8) {
    (c[0], c[1], c[2])
}

/// `0x00RRGGBB` packing of a colour.
pub open spec fn packed(c: [u8; 3]) -> u32 {
    (c[0] as nat * 65536 + c[1] as nat * 256 + c[2] as nat) as u32
}

/// Pack a colour into a `0x00RRGGBB` pixel.
pub fn pack_rgb(c: [u8; 3]) -> (px: u32)
    ensures
        px == packed(c),
        px < 0x100_0000,
{
    let r = c[0];
    let g = c[1];
    let b = c[2];
    let px = ((r as u32) << 16u32) | ((g as u32) << 8u32) | (b as u32);
    assert(px == (r as nat * 65536 + g as nat * 256 + b as nat) as u32 && px < 0x100_0000)
        by (bit_vector)
        requires
            px == ((r as u32) << 16u32) | ((g as u32) << 8u32) | (b as u32),
    ;
    px
}

/// Per-material colour palette, indexed by material. Indices past the
/// end of `colors`, and pixels outside every cell, get `void`.
#[derive(Debug, Clone)]
pub struct MaterialPalette {
    pub colors: Vec<[u8; 3]>,
    pub void: [u8; 3],
}

/// Colour a palette gives to a pixel whose material is `mat`
/// (`None`: the pixel is in no cell).
pub open spec fn palette_color(p: MaterialPalette, mat: Option<usize>) -> [u8; 3] {
    match mat {
        Some(m) => if m < p.colors@.len() {
            p.colors@[m as int]
        } else {
            p.void
        },
        None => p.void,
    }
}

/// Every material inside the palette is painted with its own colour;
/// the void colour is only for materials past the end of the palette
/// and for pixels in no cell.
pub proof fn law_palette_lookup(p: MaterialPalette, m: usize)
    ensures
        m < p.colors@.len() ==> palette_color(p, Some(m)) == p.colors@[m as int],
        m >= p.colors@.len() ==> palette_color(p, Some(m)) == p.void,
        palette_color(p, None) == p.void,
{
}

/// Two palettes that agree on a material's colour paint it alike,
/// whatever else they hold; so adding colours at the end never changes
/// the colour of a material that already had one.
pub proof fn law_palette_extension(p: MaterialPalette, q: MaterialPalette, m: usize)
    requires
        m < p.colors@.len(),
        p.colors@.len() <= q.colors@.len(),
        p.colors@ == q.colors@.subrange(0, p.colors@.len() as int),
    ensures
        palette_color(q, Some(m)) == palette_color(p, Some(m)),
{
    assert(q.colors@[m as int] == q.colors@.subrange(0, p.colors@.len() as int)[m as int]);
}

/// The colours of the default palette, in material order: fuel,
/// clad, water, control, moderator/reflector, instrumentation,
/// steel, concrete.
pub open spec fn default_palette_colors() -> Seq<(u8, u8, u8)> {
    seq![
        (200u8, 80u8, 60u8),
        (120u8, 120u8, 120u8),
        (60u8, 130u8, 220u8),
        (255u8, 220u8, 60u8),
        (60u8, 200u8, 100u8),
        (180u8, 100u8, 200u8),
        (220u8, 220u8, 220u8),
        (80u8, 60u8, 40u8),
    ]
}

impl Default for MaterialPalette {
    fn default() -> (p: Self)
        ensures
            p.colors@.map_values(|c: [u8; 3]| rgb(c)) == default_palette_colors(),
            rgb(p.void) == (12u8, 12u8, 16u8),
    {
        let p = MaterialPalette {
            colors: vec![
                [200, 80, 60],
                [120, 120, 120],
                [60, 130, 220],
                [255, 220, 60],
                [60, 200, 100],
                [180, 100, 200],
                [220, 220, 220],
                [80, 60, 40],
            ],
            void: [12, 12, 16],
        };
        assert(p.colors@.map_values(|c: [u8; 3]| rgb(c)) =~= default_palette_colors());
        p
    }
}

impl MaterialPalette {
    /// Colour of material `mat`, or `void` past the end of the palette.
    pub fn color_of(&self, mat: Option<usize>) -> (c: [u8; 3])
        ensures
            c == palette_color(*self, mat),
            mat is Some && mat.unwrap() < self.colors@.len() ==> c == self.colors@[mat.unwrap() as int],
            !(mat is Some && mat.unwrap() < self.colors@.len()) ==> c == self.void,
    {
        match mat {
            Some(m) => if m < self.colors.len() {
                self.colors[m]
            } else {
                self.void
            },
            None => self.void,
        }
    }
}

/// Turn a sampled slice into a framebuffer: `materials[p]` is the
/// material of the cell that contains pixel `p` (row-major, top row
/// first), or `None` when no cell does; each pixel gets its palette
/// colour packed as `0x00RRGGBB`.
pub fn paint_framebuffer(materials: &Vec<Option<usize>>, palette: &MaterialPalette) -> (buf: Vec<u32>)
    ensures
        buf@.len() == materials@.len(),
        forall|p: int| 0 <= p < buf@.len() ==> buf@[p] == packed(palette_color(*palette, #[trigger] materials@[p])),
{
    let mut buf: Vec<u32> = Vec::new();
    let mut i: usize = 0;
    while i < materials.len()
        invariant
            i <= materials@.len(),
            buf@.len() == i,
            forall|p: int| 0 <= p < i ==> buf@[p] == packed(palette_color(*palette, #[trigger] materials@[p])),
        decreases materials@.len() - i,
    {
        let c = palette.color_of(materials[i]);
        buf.push(pack_rgb(c));
        i += 1;
    }
    buf
}

/// Decimal digits of a byte, without leading zeros.
pub open spec fn decimal(x: u8) -> Seq<char> {
    if x < 10 {
        seq![digit_char(x as nat)]
    } else if x < 100 {
        seq![digit_char(x as nat / 10), digit_char(x as nat % 10)]
    } else {
        seq![digit_char(x as nat / 100), digit_char((x as nat / 10) % 10), digit_char(x as nat % 10)]
    }
}

fn push_digit(s: &mut String, d: u8)
    requires
        d < 10,
    ensures
        final(s)@ == old(s)@.push(digit_char(d as nat)),
{
    let b: u8 = 48 + d;
    push_char(s, b as char);
}

fn push_decimal(s: &mut String, x: u8)
    ensures
        final(s)@ == old(s)@ + decimal(x),
{
    if x < 10 {
        push_digit(s, x);
    } else if x < 100 {
        push_digit(s, x / 10);
        push_digit(s, x % 10);
    } else {
        push_digit(s, x / 100);
        push_digit(s, (x / 10) % 10);
        push_digit(s, x % 10);
    }
    assert(s@ =~= old(s)@ + decimal(x));
}

/// ANSI escape that sets the background to `c` (24-bit), or back to
/// the terminal default.
pub open spec fn background_escape(c: Option<[u8; 3]>) -> Seq<char> {
    match c {
        Some(c) => "\x1b[48;2;"@ + decimal(c[0]) + ";"@ + decimal(c[1]) + ";"@ + decimal(c[2]) + "m"@,
        None => "\x1b[49m"@,
    }
}

fn push_background_escape(s: &mut String, c: Option<[u8; 3]>)
    ensures
        final(s)@ == old(s)@ + background_escape(c),
{
    match c {
        Some(c) => {
            s.append("\x1b[48;2;");
            push_decimal(s, c[0]);
            s.append(";");
            push_decimal(s, c[1]);
            s.append(";");
            push_decimal(s, c[2]);
            s.append("m");
        },
        None => {
            s.append("\x1b[49m");
        },
    }
    assert(s@ =~= old(s)@ + background_escape(c));
}

/// Glyph of a pixel: the material's glyph, `' '` past the end of the
/// table or outside every cell.
pub open spec fn glyph_at(glyphs: Seq<char>, mat: Option<usize>) -> char {
    match mat {
        Some(m) => if m < glyphs.len() {
            glyphs[m as int]
        } else {
            ' '
        },
        None => ' ',
    }
}

/// Background colour of a pixel, if its material has one.
pub open spec fn colour_at(colours: Seq<Option<[u8; 3]>>, mat: Option<usize>) -> Option<[u8; 3]> {
    match mat {
        Some(m) => if m < colours.len() {
            colours[m as int]
        } else {
            None
        },
        None => None,
    }
}

/// Text of one row of pixels: each pixel's glyph, preceded by a
/// background escape whenever colouring is on and the colour differs
/// from the last one emitted (`last`); the row ends with a full reset
/// (when colouring) and a newline.
pub open spec fn row_text(
    mats: Seq<Option<usize>>,
    glyphs: Seq<char>,
    colours: Seq<Option<[u8; 3]>>,
    colour: bool,
    last: Option<[u8; 3]>,
) -> Seq<char>
    decreases mats.len(),
{
    if mats.len() == 0 {
        (if colour {
            "\x1b[0m"@
        } else {
            seq![]
        }).push('\n')
    } else {
        let this = colour_at(colours, mats[0]);
        let g = glyph_at(glyphs, mats[0]);
        if colour && this != last {
            background_escape(this).push(g) + row_text(mats.drop_first(), glyphs, colours, colour, this)
        } else {
            seq![g] + row_text(mats.drop_first(), glyphs, colours, colour, last)
        }
    }
}

/// Text of the first `rows` rows of a `width`-pixel-wide slice.
pub open spec fn frame_text(
    mats: Seq<Option<usize>>,
    width: nat,
    rows: nat,
    glyphs: Seq<char>,
    colours: Seq<Option<[u8; 3]>>,
    colour: bool,
) -> Seq<char>
    decreases rows,
{
    if rows == 0 {
        seq![]
    } else {
        frame_text(mats, width, (rows - 1) as nat, glyphs, colours, colour) + row_text(
            mats.subrange((rows - 1) * width, (rows * width) as int),
            glyphs,
            colours,
            colour,
            None,
        )
    }
}

fn same_colour(a: Option<[u8; 3]>, b: Option<[u8; 3]>) -> (eq: bool)
    ensures
        eq == (a == b),
{
    match (a, b) {
        (Some(x), Some(y)) => {
            let e = x[0] == y[0] && x[1] == y[1] && x[2] == y[2];
            proof {
                if e {
                    assert(x@ =~= y@);
                    assert(x == y);
                }
            }
            e
        },
        (None, None) => true,
        _ => false,
    }
}

fn glyph_of_pixel(glyphs: &Vec<char>, mat: Option<usize>) -> (g: char)
    ensures
        g == glyph_at(glyphs@, mat),
{
    match mat {
        Some(m) => if m < glyphs.len() {
            glyphs[m]
        } else {
            ' '
        },
        None => ' ',
    }
}

fn colour_of_pixel(colours: &Vec<Option<[u8; 3]>>, mat: Option<usize>) -> (c: Option<[u8; 3]>)
    ensures
        c == colour_at(colours@, mat),
{
    match mat {
        Some(m) => if m < colours.len() {
            colours[m]
        } else {
            None
        },
        None => None,
    }
}

/// Render a sampled slice as text. `materials[p]` is the material of
/// the cell containing pixel `p` (row-major, top row first), `None`
/// outside every cell; `glyphs[m]` is the character of material `m`.
/// With `colour`, each glyph is drawn over the 24-bit background
/// colour `colours[m]` (escapes are emitted only when the colour
/// changes, and every row ends with a reset).
pub fn ascii_frame(
    materials: &Vec<Option<usize>>,
    width: usize,
    height: usize,
    glyphs: &Vec<char>,
    colours: &Vec<Option<[u8; 3]>>,
    colour: bool,
) -> (text: String)
    requires
        materials@.len() == width * height,
    ensures
        text@ == frame_text(materials@, width as nat, height as nat, glyphs@, colours@, colour),
{
    let mut out = String::new();
    let total = materials.len();
    let mut py: usize = 0;
    while py < height
        invariant
            materials@.len() == width * height,
            total == materials@.len(),
            py <= height,
            out@ == frame_text(materials@, width as nat, py as nat, glyphs@, colours@, colour),
        decreases height - py,
    {
        assert((py + 1) * width <= height * width) by (nonlinear_arith)
            requires
                py < height,
        ;
        assert((py + 1) * width == py * width + width) by (nonlinear_arith);
        assert(py * width + width <= materials@.len());
        let start: usize = py * width;
        let ghost row = materials@.subrange(start as int, start + width);
        let ghost before = out@;
        let mut last: Option<[u8; 3]> = None;
        let mut px: usize = 0;
        assert(row.skip(0) =~= row);
        while px < width
            invariant
                materials@.len() == width * height,
                total == materials@.len(),
                start + width <= materials@.len(),
                row == materials@.subrange(start as int, start + width),
                px <= width,
                out@ + row_text(row.skip(px as int), glyphs@, colours@, colour, last) == before
                    + row_text(row, glyphs@, colours@, colour, None),
            decreases width - px,
        {
            let ghost o = out@;
            let ghost rest = row.skip(px as int);
            assert(rest[0] == materials@[start + px]);
            assert(rest.drop_first() =~= row.skip(px + 1));
            let mat = materials[start + px];
            let g = glyph_of_pixel(glyphs, mat);
            let this = colour_of_pixel(colours, mat);
            let ghost last0 = last;
            if colour && !same_colour(this, last) {
                push_background_escape(&mut out, this);
                last = this;
            }
            push_char(&mut out, g);
            proof {
                assert(out@ + row_text(row.skip(px + 1), glyphs@, colours@, colour, last) =~= o
                    + row_text(rest, glyphs@, colours@, colour, last0));
            }
            px += 1;
        }
        if colour {
            out.append("\x1b[0m");
        }
        push_char(&mut out, '\n');
        proof {
            assert(row.skip(width as int) =~= Seq::<Option<usize>>::empty());
            assert(out@ =~= before + row_text(row, glyphs@, colours@, colour, None));
        }
        py += 1;
    }
    out
}



/// One legend line: with colouring and a colour for the material, the
/// glyph drawn on that background; otherwise the glyph in quotes.
pub open spec fn legend_line(name: Seq<char>, g: char, c: Option<[u8; 3]>, colour: bool) -> Seq<char> {
    if colour && c is Some {
        "  "@ + background_escape(c) + " "@ + seq![g] + " \x1b[0m  "@ + name + "\n"@
    } else {
        "  '"@ + seq![g] + "'  "@ + name + "\n"@
    }
}

/// The legend lines of the first `k` materials.
pub open spec fn legend_lines(
    names: Seq<Seq<char>>,
    glyphs: Seq<char>,
    colours: Seq<Option<[u8; 3]>>,
    colour: bool,
    k: int,
) -> Seq<char>
    decreases k,
{
    if k <= 0 {
        seq![]
    } else {
        legend_lines(names, glyphs, colours, colour, k - 1) + legend_line(
            names[k - 1],
            glyphs[k - 1],
            if k - 1 < colours.len() {
                colours[k - 1]
            } else {
                None
            },
            colour,
        )
    }
}

/// Text of the legend printed under a text frame: a `legend:` header,
/// then one line per material that has both a name and a glyph, in
/// material order. `colours[m]` is the background of material `m`
/// (none past the end of `colours`).
pub fn legend_text(
    names: &Vec<String>,
    glyphs: &Vec<char>,
    colours: &Vec<Option<[u8; 3]>>,
    colour: bool,
) -> (text: String)
    ensures
        text@ == "legend:\n"@ + legend_lines(
            names@.map_values(|n: String| n@),
            glyphs@,
            colours@,
            colour,
            if names@.len() < glyphs@.len() {
                names@.len() as int
            } else {
                glyphs@.len() as int
            },
        ),
{
    let ghost nv = names@.map_values(|n: String| n@);
    let mut out = String::from_str("legend:\n");
    let n = if names.len() < glyphs.len() {
        names.len()
    } else {
        glyphs.len()
    };
    let mut i: usize = 0;
    while i < n
        invariant
            nv == names@.map_values(|n: String| n@),
            n <= names@.len(),
            n <= glyphs@.len(),
            i <= n,
            out@ == "legend:\n"@ + legend_lines(nv, glyphs@, colours@, colour, i as int),
        decreases n - i,
    {
        let ghost before = out@;
        let g = glyphs[i];
        let c: Option<[u8; 3]> = if i < colours.len() {
            colours[i]
        } else {
            None
        };
        assert(nv[i as int] == names@[i as int]@);
        match c {
            Some(_) if colour => {
                out.append("  ");
                push_background_escape(&mut out, c);
                out.append(" ");
                push_char(&mut out, g);
                out.append(" \x1b[0m  ");
                out.append(names[i].as_str());
                out.append("\n");
            },
            _ => {
                out.append("  '");
                push_char(&mut out, g);
                out.append("'  ");
                out.append(names[i].as_str());
                out.append("\n");
            },
        }
        assert(out@ =~= before + legend_line(nv[i as int], g, c, colour));
        i += 1;
    }
    out
}


/// What a text preview prints: the frame of the slice, then its legend.
/// Without colour this is the rows of glyphs, `"legend:\n"`, and one
/// `"  'g'  name\n"` line per material that has a name and a glyph.
pub fn ascii_preview_text(
    materials: &Vec<Option<usize>>,
    width: usize,
    height: usize,
    names: &Vec<String>,
    glyphs: &Vec<char>,
    colours: &Vec<Option<[u8; 3]>>,
    colour: bool,
) -> (text: String)
    requires
        materials@.len() == width * height,
    ensures
        text@ == frame_text(materials@, width as nat, height as nat, glyphs@, colours@, colour)
            + "legend:\n"@ + legend_lines(
            names@.map_values(|n: String| n@),
            glyphs@,
            colours@,
            colour,
            if names@.len() < glyphs@.len() {
                names@.len() as int
            } else {
                glyphs@.len() as int
            },
        ),
{
    let mut text = ascii_frame(materials, width, height, glyphs, colours, colour);
    let legend = legend_text(names, glyphs, colours, colour);
    text.append(legend.as_str());
    text
}



/// The glyph of every material name, in order (see [`ascii_glyph_for_name`]).
pub open spec fn name_glyphs(names: Seq<Seq<char>>) -> Seq<char> {
    names.map_values(|n: Seq<char>| glyph_of_lowercase(unicode_lowercase(n)))
}

/// Glyphs derived from material names, one per name.
pub fn glyphs_for_names(names: &Vec<String>) -> (glyphs: Vec<char>)
    ensures
        glyphs@ == name_glyphs(names@.map_values(|n: String| n@)),
{
    let ghost nv = names@.map_values(|n: String| n@);
    let mut glyphs: Vec<char> = Vec::new();
    let mut i: usize = 0;
    while i < names.len()
        invariant
            nv == names@.map_values(|n: String| n@),
            i <= names@.len(),
            glyphs@ =~= name_glyphs(nv).take(i as int),
        decreases names@.len() - i,
    {
        let g = ascii_glyph_for_name(names[i].as_str());
        assert(nv[i as int] == names@[i as int]@);
        glyphs.push(g);
        i += 1;
        assert(glyphs@ =~= name_glyphs(nv).take(i as int));
    }
    assert(name_glyphs(nv).take(i as int) =~= name_glyphs(nv));
    glyphs
}

/// The plain-text preview of a slice whose materials are known by
/// name: the frame drawn with each material's name glyph, then
/// `"legend:\n"` and one `"  'g'  name\n"` line per material.
pub fn plain_ascii_preview(
    materials: &Vec<Option<usize>>,
    width: usize,
    height: usize,
    names: &Vec<String>,
) -> (text: String)
    requires
        materials@.len() == width * height,
    ensures
        text@ == frame_text(
            materials@,
            width as nat,
            height as nat,
            name_glyphs(names@.map_values(|n: String| n@)),
            seq![],
            false,
        ) + "legend:\n"@ + legend_lines(
            names@.map_values(|n: String| n@),
            name_glyphs(names@.map_values(|n: String| n@)),
            seq![],
            false,
            names@.len() as int,
        ),
{
    let glyphs = glyphs_for_names(names);
    let colours: Vec<Option<[u8; 3]>> = Vec::new();
    assert(colours@ =~= seq![]);
    ascii_preview_text(materials, width, height, names, &glyphs, &colours, false)
}

/// Without colour a legend line is the glyph in quotes and the name:
/// `"  'g'  name\n"`, whatever colour the material has.
pub proof fn law_plain_legend_line(name: Seq<char>, g: char, c: Option<[u8; 3]>)
    ensures
        legend_line(name, g, c, false) == "  '"@ + seq![g] + "'  "@ + name + "\n"@,
{
}

/// Position in a colourless frame of pixel column `c` of row `r`
/// (column `width` is the row's newline).
pub open spec fn text_position(width: nat, r: int, c: int) -> int {
    r * (width + 1) + c
}

proof fn lemma_plain_row_text(mats: Seq<Option<usize>>, glyphs: Seq<char>, colours: Seq<Option<[u8; 3]>>, last: Option<[u8; 3]>)
    ensures
        row_text(mats, glyphs, colours, false, last).len() == mats.len() + 1,
        forall|i: int|
            0 <= i < mats.len() ==> #[trigger] row_text(mats, glyphs, colours, false, last)[i]
                == glyph_at(glyphs, mats[i]),
        row_text(mats, glyphs, colours, false, last)[mats.len() as int] == '\n',
    decreases mats.len(),
{
    if mats.len() > 0 {
        lemma_plain_row_text(mats.drop_first(), glyphs, colours, last);
        let t = row_text(mats, glyphs, colours, false, last);
        let r = row_text(mats.drop_first(), glyphs, colours, false, last);
        assert(t == seq![glyph_at(glyphs, mats[0])] + r);
        assert forall|i: int| 0 <= i < mats.len() implies #[trigger] t[i] == glyph_at(glyphs, mats[i]) by {
            if i > 0 {
                assert(t[i] == r[i - 1]);
                assert(mats.drop_first()[i - 1] == mats[i]);
            }
        }
    }
}

/// Without colour, a frame is exactly its glyphs: `height` rows of
/// `width` glyphs, each row ended by a newline, so the text has
/// `height · (width + 1)` characters and pixel `(r, c)` is drawn at
/// position `r · (width + 1) + c`.
pub proof fn law_plain_frame_layout(
    mats: Seq<Option<usize>>,
    width: nat,
    height: nat,
    glyphs: Seq<char>,
    colours: Seq<Option<[u8; 3]>>,
)
    requires
        mats.len() == width * height,
    ensures
        frame_text(mats, width, height, glyphs, colours, false).len() == height * (width + 1),
        forall|r: int, c: int|
            0 <= r < height && 0 <= c < width ==> frame_text(mats, width, height, glyphs, colours, false)[
                #[trigger] text_position(width, r, c)] == glyph_at(glyphs, mats[r * width + c]),
        forall|r: int|
            0 <= r < height ==> frame_text(mats, width, height, glyphs, colours, false)[
                #[trigger] text_position(width, r, width as int)] == '\n',
{
    assert(height * width == width * height) by (nonlinear_arith);
    lemma_frame_prefix(mats, width, height, glyphs, colours);
}

/// The first rows of a frame do not depend on what comes after them.
proof fn lemma_frame_prefix(
    mats: Seq<Option<usize>>,
    width: nat,
    rows: nat,
    glyphs: Seq<char>,
    colours: Seq<Option<[u8; 3]>>,
)
    requires
        rows * width <= mats.len(),
    ensures
        frame_text(mats, width, rows, glyphs, colours, false).len() == rows * (width + 1),
        forall|r: int, c: int|
            0 <= r < rows && 0 <= c < width ==> frame_text(mats, width, rows, glyphs, colours, false)[
                #[trigger] text_position(width, r, c)] == glyph_at(glyphs, mats[r * width + c]),
        forall|r: int|
            0 <= r < rows ==> frame_text(mats, width, rows, glyphs, colours, false)[
                #[trigger] text_position(width, r, width as int)] == '\n',
    decreases rows,
{
    if rows > 0 {
        let h1 = (rows - 1) as nat;
        assert(h1 * width + width == rows * width) by (nonlinear_arith)
            requires
                h1 == rows - 1,
        ;
        let row = mats.subrange((h1 * width) as int, (rows * width) as int);
        lemma_frame_prefix(mats, width, h1, glyphs, colours);
        lemma_plain_row_text(row, glyphs, colours, None);
        assert(h1 * (width + 1) + width + 1 == rows * (width + 1)) by (nonlinear_arith)
            requires
                h1 == rows - 1,
        ;
        let f = frame_text(mats, width, rows, glyphs, colours, false);
        assert forall|r: int, c: int|
            0 <= r < rows && 0 <= c < width implies f[#[trigger] text_position(width, r, c)] == glyph_at(
                glyphs,
                mats[r * width + c],
            ) by {
            if r < h1 {
                assert(r * (width + 1) + c < h1 * (width + 1)) by (nonlinear_arith)
                    requires
                        r < h1,
                        c < width,
                ;
            } else {
                assert(r * (width + 1) + c == h1 * (width + 1) + c) by (nonlinear_arith)
                    requires
                        r == h1,
                ;
                assert(r * width + c == h1 * width + c) by (nonlinear_arith)
                    requires
                        r == h1,
                ;
            }
        }
        assert forall|r: int| 0 <= r < rows implies f[#[trigger] text_position(width, r, width as int)] == '\n' by {
            if r < h1 {
                assert(r * (width + 1) + width < h1 * (width + 1)) by (nonlinear_arith)
                    requires
                        r < h1,
                ;
            } else {
                assert(r * (width + 1) + width == h1 * (width + 1) + width) by (nonlinear_arith)
                    requires
                        r == h1,
                ;
            }
        }
    }
}

} // verus!
