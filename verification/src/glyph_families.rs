//! Laws of the material glyphs: each keyword family of
//! [`glyph_of_lowercase`] gives its glyph to every name that holds one
//! of its keywords and no keyword of a family tried before it, and a
//! glyph is only ever given for a keyword of its family.
use crate::preview::glyph_of_lowercase;
use crate::text::{seq_contains, ws_tokens};
use vstd::prelude::*;

verus! {

/// Place of a glyph's keyword family in the order the families are
/// tried: heavy water, light water, MOX, fuel (burnt, mid-cycle and
/// fresh alike), cladding, steel, concrete, control absorber,
/// lead-bismuth, lead, graphite, sodium, then air and void (and names
/// of no family), reflector, moderator.
pub open spec fn family_rank(g: char) -> int {
    if g == 'D' { 0 }
    else if g == '.' { 1 }
    else if g == 'M' { 2 }
    else if g == 'b' || g == 'm' || g == '#' { 3 }
    else if g == '+' { 4 }
    else if g == '=' { 5 }
    else if g == ':' { 6 }
    else if g == 'X' { 7 }
    else if g == 'p' { 8 }
    else if g == 'P' { 9 }
    else if g == 'C' { 10 }
    else if g == '~' { 11 }
    else if g == ' ' { 12 }
    else if g == 'r' { 13 }
    else { 14 }
}

/// Every glyph a name can get is one of the palette's glyphs.
pub proof fn law_glyph_is_known(n: Seq<char>)
    ensures
        ({
            let g = glyph_of_lowercase(n);
            g == 'D' || g == '.' || g == 'M' || g == 'b' || g == 'm' || g == '#' || g == '+' || g == '='
                || g == ':' || g == 'X' || g == 'p' || g == 'P' || g == 'C' || g == '~' || g == ' '
                || g == 'r' || g == ','
        }),
{
}

/// A lower-cased name holding a heavy water keyword is drawn with 'D'
/// unless a family tried earlier claims it; and 'D' is drawn only for
/// such a name.
pub proof fn law_glyph_heavy_water(n: Seq<char>)
    ensures
        seq_contains(n, "heavy water"@) || seq_contains(n, "d2o"@) || seq_contains(n, "d₂o"@) ==> family_rank(glyph_of_lowercase(n)) <= 0,
        glyph_of_lowercase(n) == 'D' ==> seq_contains(n, "heavy water"@) || seq_contains(n, "d2o"@) || seq_contains(n, "d₂o"@),
{
}

/// A lower-cased name holding a light water keyword is drawn with '.'
/// unless a family tried earlier claims it; and '.' is drawn only for
/// such a name.
pub proof fn law_glyph_light_water(n: Seq<char>)
    ensures
        seq_contains(n, "light water"@) || seq_contains(n, "h2o"@) || seq_contains(n, "h₂o"@) || (seq_contains(n, "water"@) && !seq_contains(n, "heavy"@)) ==> family_rank(glyph_of_lowercase(n)) <= 1,
        glyph_of_lowercase(n) == '.' ==> seq_contains(n, "light water"@) || seq_contains(n, "h2o"@) || seq_contains(n, "h₂o"@) || (seq_contains(n, "water"@) && !seq_contains(n, "heavy"@)),
{
}

/// A lower-cased name holding a MOX fuel keyword is drawn with 'M'
/// unless a family tried earlier claims it; and 'M' is drawn only for
/// such a name.
pub proof fn law_glyph_mox(n: Seq<char>)
    ensures
        seq_contains(n, "mox"@) || seq_contains(n, "plutonium"@) || seq_contains(n, "puo2"@) || seq_contains(n, "puo₂"@) ==> family_rank(glyph_of_lowercase(n)) <= 2,
        glyph_of_lowercase(n) == 'M' ==> seq_contains(n, "mox"@) || seq_contains(n, "plutonium"@) || seq_contains(n, "puo2"@) || seq_contains(n, "puo₂"@),
{
}

/// A lower-cased name holding a cladding keyword is drawn with '+'
/// unless a family tried earlier claims it; and '+' is drawn only for
/// such a name.
pub proof fn law_glyph_cladding(n: Seq<char>)
    ensures
        seq_contains(n, "zircaloy"@) || seq_contains(n, "clad"@) || seq_contains(n, "zr "@) || n == "zr"@ ==> family_rank(glyph_of_lowercase(n)) <= 4,
        glyph_of_lowercase(n) == '+' ==> seq_contains(n, "zircaloy"@) || seq_contains(n, "clad"@) || seq_contains(n, "zr "@) || n == "zr"@,
{
}

/// A lower-cased name holding a structural steel keyword is drawn with '='
/// unless a family tried earlier claims it; and '=' is drawn only for
/// such a name.
pub proof fn law_glyph_steel(n: Seq<char>)
    ensures
        seq_contains(n, "steel"@) || seq_contains(n, "vessel"@) || seq_contains(n, "barrel"@) || seq_contains(n, "iron"@) || ws_tokens(n).contains("ss"@) ==> family_rank(glyph_of_lowercase(n)) <= 5,
        glyph_of_lowercase(n) == '=' ==> seq_contains(n, "steel"@) || seq_contains(n, "vessel"@) || seq_contains(n, "barrel"@) || seq_contains(n, "iron"@) || ws_tokens(n).contains("ss"@),
{
}

/// A lower-cased name holding a concrete keyword is drawn with ':'
/// unless a family tried earlier claims it; and ':' is drawn only for
/// such a name.
pub proof fn law_glyph_concrete(n: Seq<char>)
    ensures
        seq_contains(n, "concrete"@) ==> family_rank(glyph_of_lowercase(n)) <= 6,
        glyph_of_lowercase(n) == ':' ==> seq_contains(n, "concrete"@),
{
}

/// A lower-cased name holding a control absorber keyword is drawn with 'X'
/// unless a family tried earlier claims it; and 'X' is drawn only for
/// such a name.
pub proof fn law_glyph_absorber(n: Seq<char>)
    ensures
        seq_contains(n, "control"@) || seq_contains(n, "rcca"@) || seq_contains(n, "b4c"@) || seq_contains(n, "b₄c"@) || seq_contains(n, "aic"@) || seq_contains(n, "absorber"@) ==> family_rank(glyph_of_lowercase(n)) <= 7,
        glyph_of_lowercase(n) == 'X' ==> seq_contains(n, "control"@) || seq_contains(n, "rcca"@) || seq_contains(n, "b4c"@) || seq_contains(n, "b₄c"@) || seq_contains(n, "aic"@) || seq_contains(n, "absorber"@),
{
}

/// A lower-cased name holding a lead-bismuth keyword is drawn with 'p'
/// unless a family tried earlier claims it; and 'p' is drawn only for
/// such a name.
pub proof fn law_glyph_lead_bismuth(n: Seq<char>)
    ensures
        seq_contains(n, "lead-bismuth"@) || seq_contains(n, "lbe"@) || seq_contains(n, "pbbi"@) ==> family_rank(glyph_of_lowercase(n)) <= 8,
        glyph_of_lowercase(n) == 'p' ==> seq_contains(n, "lead-bismuth"@) || seq_contains(n, "lbe"@) || seq_contains(n, "pbbi"@),
{
}

/// A lower-cased name holding a lead keyword is drawn with 'P'
/// unless a family tried earlier claims it; and 'P' is drawn only for
/// such a name.
pub proof fn law_glyph_lead(n: Seq<char>)
    ensures
        seq_contains(n, "lead"@) ==> family_rank(glyph_of_lowercase(n)) <= 9,
        glyph_of_lowercase(n) == 'P' ==> seq_contains(n, "lead"@),
{
}

/// A lower-cased name holding a graphite keyword is drawn with 'C'
/// unless a family tried earlier claims it; and 'C' is drawn only for
/// such a name.
pub proof fn law_glyph_graphite(n: Seq<char>)
    ensures
        seq_contains(n, "graphite"@) || seq_contains(n, "carbon"@) ==> family_rank(glyph_of_lowercase(n)) <= 10,
        glyph_of_lowercase(n) == 'C' ==> seq_contains(n, "graphite"@) || seq_contains(n, "carbon"@),
{
}

/// A lower-cased name holding a sodium keyword is drawn with '~'
/// unless a family tried earlier claims it; and '~' is drawn only for
/// such a name.
pub proof fn law_glyph_sodium(n: Seq<char>)
    ensures
        seq_contains(n, "sodium"@) || ws_tokens(n).contains("na"@) ==> family_rank(glyph_of_lowercase(n)) <= 11,
        glyph_of_lowercase(n) == '~' ==> seq_contains(n, "sodium"@) || ws_tokens(n).contains("na"@),
{
}

/// A lower-cased name holding a fuel keyword is drawn with a fuel glyph
/// unless a family tried earlier claims it: burnt ('b') when it also
/// holds a burnt-up keyword, else mid-cycle ('m') when it holds a
/// mid-cycle keyword, else fresh ('#'); and a fuel glyph is drawn only
/// for such a name.
pub proof fn law_glyph_fuel(n: Seq<char>)
    ensures
        seq_contains(n, "uo2"@) || seq_contains(n, "uo₂"@) || seq_contains(n, "uranium"@) || seq_contains(n, "fuel"@) || seq_contains(n, "first cycle"@) || seq_contains(n, "1st cycle"@) || seq_contains(n, "second cycle"@) || seq_contains(n, "2nd cycle"@) || seq_contains(n, "third cycle"@) || seq_contains(n, "3rd cycle"@) || seq_contains(n, "boc"@) || seq_contains(n, "eoc"@) || seq_contains(n, "fresh"@) || seq_contains(n, "mid-core"@) || seq_contains(n, "mid core"@) ==> family_rank(glyph_of_lowercase(n)) <= 3,
        (seq_contains(n, "uo2"@) || seq_contains(n, "uo₂"@) || seq_contains(n, "uranium"@) || seq_contains(n, "fuel"@) || seq_contains(n, "first cycle"@) || seq_contains(n, "1st cycle"@) || seq_contains(n, "second cycle"@) || seq_contains(n, "2nd cycle"@) || seq_contains(n, "third cycle"@) || seq_contains(n, "3rd cycle"@) || seq_contains(n, "boc"@) || seq_contains(n, "eoc"@) || seq_contains(n, "fresh"@) || seq_contains(n, "mid-core"@) || seq_contains(n, "mid core"@)) && (seq_contains(n, "burnt"@) || seq_contains(n, "depleted"@) || seq_contains(n, "spent"@) || seq_contains(n, "third"@) || seq_contains(n, "3rd cycle"@) || seq_contains(n, "eoc"@)) ==> glyph_of_lowercase(n) != 'm' && glyph_of_lowercase(n) != '#',
        (seq_contains(n, "uo2"@) || seq_contains(n, "uo₂"@) || seq_contains(n, "uranium"@) || seq_contains(n, "fuel"@) || seq_contains(n, "first cycle"@) || seq_contains(n, "1st cycle"@) || seq_contains(n, "second cycle"@) || seq_contains(n, "2nd cycle"@) || seq_contains(n, "third cycle"@) || seq_contains(n, "3rd cycle"@) || seq_contains(n, "boc"@) || seq_contains(n, "eoc"@) || seq_contains(n, "fresh"@) || seq_contains(n, "mid-core"@) || seq_contains(n, "mid core"@)) && (seq_contains(n, "mid"@) || seq_contains(n, "second"@) || seq_contains(n, "2nd"@)) ==> glyph_of_lowercase(n) != '#',
        family_rank(glyph_of_lowercase(n)) == 3 ==> seq_contains(n, "uo2"@) || seq_contains(n, "uo₂"@) || seq_contains(n, "uranium"@) || seq_contains(n, "fuel"@) || seq_contains(n, "first cycle"@) || seq_contains(n, "1st cycle"@) || seq_contains(n, "second cycle"@) || seq_contains(n, "2nd cycle"@) || seq_contains(n, "third cycle"@) || seq_contains(n, "3rd cycle"@) || seq_contains(n, "boc"@) || seq_contains(n, "eoc"@) || seq_contains(n, "fresh"@) || seq_contains(n, "mid-core"@) || seq_contains(n, "mid core"@),
        glyph_of_lowercase(n) == 'b' ==> seq_contains(n, "burnt"@) || seq_contains(n, "depleted"@) || seq_contains(n, "spent"@) || seq_contains(n, "third"@) || seq_contains(n, "3rd cycle"@) || seq_contains(n, "eoc"@),
        glyph_of_lowercase(n) == 'm' ==> seq_contains(n, "mid"@) || seq_contains(n, "second"@) || seq_contains(n, "2nd"@),
{
}

/// Air, void and vacuum are drawn blank unless a family tried earlier
/// claims the name.
pub proof fn law_glyph_void(n: Seq<char>)
    ensures
        seq_contains(n, "air"@) || seq_contains(n, "void"@) || seq_contains(n, "vacuum"@) ==> family_rank(glyph_of_lowercase(n)) <= 12,
{
}

/// A reflector that is not air or void is drawn with 'r' unless a
/// family tried earlier claims it; and 'r' is drawn only for such a
/// name.
pub proof fn law_glyph_reflector(n: Seq<char>)
    ensures
        seq_contains(n, "reflector"@) && !(seq_contains(n, "air"@) || seq_contains(n, "void"@) || seq_contains(n, "vacuum"@)) ==> family_rank(glyph_of_lowercase(n)) <= 13
            && glyph_of_lowercase(n) != ' ',
        glyph_of_lowercase(n) == 'r' ==> seq_contains(n, "reflector"@),
{
}

/// A moderator that is not air or void is drawn with ',' unless a
/// family tried earlier claims it; and ',' is drawn only for such a
/// name.
pub proof fn law_glyph_moderator(n: Seq<char>)
    ensures
        seq_contains(n, "moderator"@) && !(seq_contains(n, "air"@) || seq_contains(n, "void"@) || seq_contains(n, "vacuum"@)) ==> glyph_of_lowercase(n) != ' ',
        glyph_of_lowercase(n) == ',' ==> seq_contains(n, "moderator"@),
{
}

} // verus!
