//! Decisions of the nuclide loader that do not touch the data files:
//! which reactions a configuration asks for, whether a nuclide carries
//! continuum inelastic scattering, the nuclide name recovered from a
//! file path, and how a short threshold-reaction table is aligned on
//! the master energy grid.
use vstd::prelude::*;

verus! {

broadcast use vstd::string::group_string_axioms;

/// Per-call switches for how much physics to load. All default `true`
/// — turn things off when you want a fast-loading minimal nuclide.
#[derive(Debug, Clone, Copy)]
pub struct LoaderConfig {
    pub include_inelastic: bool,
    pub include_n2n: bool,
    pub include_n3n: bool,
    pub include_nu_bar: bool,
    pub include_fission_spectrum: bool,
    pub include_anisotropic_elastic: bool,
    pub include_urr: bool,
    pub include_discrete_levels: bool,
}

impl Default for LoaderConfig {
    fn default() -> (c: Self)
        ensures
            c.include_inelastic,
            c.include_n2n,
            c.include_n3n,
            c.include_nu_bar,
            c.include_fission_spectrum,
            c.include_anisotropic_elastic,
            c.include_urr,
            c.include_discrete_levels,
    {
        LoaderConfig {
            include_inelastic: true,
            include_n2n: true,
            include_n3n: true,
            include_nu_bar: true,
            include_fission_spectrum: true,
            include_anisotropic_elastic: true,
            include_urr: true,
            include_discrete_levels: true,
        }
    }
}

/// MT number of fission.
pub const MT_FISSION: u32 = 18;

/// MT number of radiative capture.
pub const MT_CAPTURE: u32 = 102;

/// MT number of total inelastic scattering.
pub const MT_INELASTIC: u32 = 4;

/// MT number of (n,2n).
pub const MT_N2N: u32 = 16;

/// MT number of (n,3n).
pub const MT_N3N: u32 = 17;

/// MT number of the inelastic continuum level.
pub const MT_CONTINUUM_INELASTIC: u32 = 91;

/// The optional cross-section reactions a configuration loads, in the
/// order the loader reads them: fission and capture always, then
/// inelastic, (n,2n) and (n,3n) where switched on.
pub open spec fn planned_mts(cfg: LoaderConfig) -> Seq<u32> {
    seq![MT_FISSION, MT_CAPTURE] + (if cfg.include_inelastic {
        seq![MT_INELASTIC]
    } else {
        seq![]
    }) + (if cfg.include_n2n {
        seq![MT_N2N]
    } else {
        seq![]
    }) + (if cfg.include_n3n {
        seq![MT_N3N]
    } else {
        seq![]
    })
}

impl LoaderConfig {
    /// MT numbers of the optional cross sections to read, in reading
    /// order (elastic, MT 2, is always read first and is not listed).
    pub fn cross_section_mts(&self) -> (mts: Vec<u32>)
        ensures
            mts@ == planned_mts(*self),
    {
        let mut mts: Vec<u32> = Vec::new();
        mts.push(MT_FISSION);
        mts.push(MT_CAPTURE);
        if self.include_inelastic {
            mts.push(MT_INELASTIC);
        }
        if self.include_n2n {
            mts.push(MT_N2N);
        }
        if self.include_n3n {
            mts.push(MT_N3N);
        }
        mts
    }
}

/// Whether one of the discrete inelastic levels loaded (given by their
/// MT numbers) is the continuum level MT 91.
pub fn has_continuum_inelastic(level_mts: &Vec<u32>) -> (found: bool)
    ensures
        found == exists|i: int| 0 <= i < level_mts.len() && level_mts@[i] == MT_CONTINUUM_INELASTIC,
{
    let mut i: usize = 0;
    while i < level_mts.len()
        invariant
            i <= level_mts.len(),
            forall|j: int| 0 <= j < i ==> level_mts@[j] != MT_CONTINUUM_INELASTIC,
        decreases level_mts.len() - i,
    {
        if level_mts[i] == MT_CONTINUUM_INELASTIC {
            return true;
        }
        i = i + 1;
    }
    false
}

/// A character of a plain file name: ASCII letter, digit, `_` or `-`.
pub open spec fn is_name_char(c: char) -> bool {
    ||| 'a' <= c <= 'z'
    ||| 'A' <= c <= 'Z'
    ||| '0' <= c <= '9'
    ||| c == '_'
    ||| c == '-'
}

/// A non-empty run of plain file-name characters: no separator, no
/// dot, no drive prefix on any platform.
pub open spec fn is_plain_name(s: Seq<char>) -> bool {
    s.len() > 0 && forall|i: int| 0 <= i < s.len() ==> is_name_char(#[trigger] s[i])
}

/// `path` is a plain name, a dot at position `i`, and a plain extension.
pub open spec fn dotted_plain_name(path: Seq<char>, i: int) -> bool {
    &&& 0 < i < path.len()
    &&& path[i] == '.'
    &&& is_plain_name(path.take(i))
    &&& is_plain_name(path.skip(i + 1))
}

/// `part` occurs as a contiguous run inside `whole`.
pub open spec fn is_slice_of(part: Seq<char>, whole: Seq<char>) -> bool {
    exists|i: int| 0 <= i <= whole.len() - part.len() && #[trigger] whole.subrange(i, i + part.len()) == part
}

/// A stem, when there is one, is a piece of the path.
pub open spec fn stem_within(stem: Option<String>, path: Seq<char>) -> bool {
    match stem {
        Some(s) => is_slice_of(s@, path),
        None => true,
    }
}

/// There is a stem and it reads `expected`.
pub open spec fn stem_is(stem: Option<String>, expected: Seq<char>) -> bool {
    match stem {
        Some(s) => s@ == expected,
        None => false,
    }
}

/// `path` has none of the forms that only some platforms read as a
/// prefix: no `\\`, no `:`, and it does not open with `//`. In such a
/// path `/` separates components on every platform.
pub open spec fn unprefixed(path: Seq<char>) -> bool {
    &&& forall|i: int| 0 <= i < path.len() ==> #[trigger] path[i] != '\\' && path[i] != ':'
    &&& !(path.len() >= 2 && path[0] == '/' && path[1] == '/')
}

/// A plain name, or a plain name with one plain extension.
pub open spec fn plain_file_name(f: Seq<char>) -> bool {
    is_plain_name(f) || exists|i: int| dotted_plain_name(f, i)
}

/// The stem of a [`plain_file_name`]: the name without its extension.
pub open spec fn plain_file_stem(f: Seq<char>) -> Seq<char> {
    if is_plain_name(f) {
        f
    } else {
        f.take(choose|i: int| dotted_plain_name(f, i))
    }
}

/// The component after the `/` at position `k` is the last one of an
/// unprefixed path, and it is a [`plain_file_name`].
pub open spec fn file_after_slash(path: Seq<char>, k: int) -> bool {
    &&& unprefixed(path)
    &&& 0 <= k < path.len()
    &&& path[k] == '/'
    &&& plain_file_name(path.skip(k + 1))
}

/// The empty path and the root `/` have no file name.
pub open spec fn has_no_file_name(path: Seq<char>) -> bool {
    path.len() == 0 || path == seq!['/']
}

/// `std::path::Path::file_stem` of the path `path`, as text.
///
/// The std documentation says the stem is the file name (the last
/// component, none for the empty path or the root) without its final
/// extension, and the whole file name when it has no embedded `.`.
/// Paths with `\\`, `:` or a leading `//` are read differently on some
/// platforms (prefixes, other separators), so for them the contract
/// says only that a stem is a piece of the path. It states: a stem is a
/// piece of the path; the empty path and `/` have none; a plain name,
/// with or without one plain extension, alone or as the last component
/// after a `/` of an unprefixed path, has the name as its stem.
#[verifier::external_body]
fn path_file_stem(path: &str) -> (stem: Option<String>)
    ensures
        stem_within(stem, path@),
        has_no_file_name(path@) ==> stem is None,
        is_plain_name(path@) ==> stem_is(stem, path@),
        forall|i: int| #[trigger] dotted_plain_name(path@, i) ==> stem_is(stem, path@.take(i)),
        forall|k: int| #[trigger] file_after_slash(path@, k) ==> stem_is(stem, plain_file_stem(path@.skip(k + 1))),
{
    std::path::Path::new(path).file_stem().and_then(|s| s.to_str()).map(|s| s.to_string())
}

/// The nuclide name for a file stem: the stem itself, or `"unknown"`
/// when the path has none.
pub fn nuclide_name_from_stem(stem: Option<String>) -> (name: String)
    ensures
        name@ == match stem {
            Some(s) => s@,
            None => "unknown"@,
        },
{
    match stem {
        Some(s) => s,
        None => String::from_str("unknown"),
    }
}

/// Recover a clean nuclide name from a path like `…/U235.h5` → `"U235"`;
/// `"unknown"` when the path has no file name.
pub fn stem_to_nuclide_name(path: &str) -> (name: String)
    ensures
        name@ == "unknown"@ || is_slice_of(name@, path@),
        is_plain_name(path@) ==> name@ == path@,
        forall|i: int| #[trigger] dotted_plain_name(path@, i) ==> name@ == path@.take(i),
        forall|k: int| #[trigger] file_after_slash(path@, k) ==> name@ == plain_file_stem(path@.skip(k + 1)),
        has_no_file_name(path@) ==> name@ == "unknown"@,
{
    let stem = path_file_stem(path);
    nuclide_name_from_stem(stem)
}

/// Align a reaction table that ships fewer points than the master
/// energy grid on the tail of that grid (threshold reactions start
/// late): the first `n - xs.len()` entries are `zero`, the rest are
/// `xs` in order. A table of full length is returned as it is.
pub fn tail_align<T: Copy>(xs: &Vec<T>, n: usize, zero: T) -> (padded: Vec<T>)
    requires
        xs.len() <= n,
    ensures
        padded.len() == n,
        forall|i: int| 0 <= i < n - xs.len() ==> #[trigger] padded@[i] == zero,
        forall|i: int| n - xs.len() <= i < n ==> #[trigger] padded@[i] == xs@[i - (n - xs.len())],
{
    let offset = n - xs.len();
    let mut padded: Vec<T> = Vec::new();
    let mut i: usize = 0;
    while i < n
        invariant
            i <= n,
            offset == n - xs.len(),
            padded.len() == i,
            forall|j: int| 0 <= j < i && j < offset ==> #[trigger] padded@[j] == zero,
            forall|j: int| offset <= j < i ==> #[trigger] padded@[j] == xs@[j - offset],
        decreases n - i,
    {
        if i < offset {
            padded.push(zero);
        } else {
            padded.push(xs[i - offset]);
        }
        i = i + 1;
    }
    padded
}

} // verus!
