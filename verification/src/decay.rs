//! Depletion chains and the OpenMC `chain.xml` reader.
//!
//! A chain is an ordered list of nuclides, each with its decay modes,
//! transmutation reactions and (for fissionable nuclides) fission
//! product yields. Numeric attributes are kept as the text of the
//! document once they have been checked to be real-number literals;
//! turning them into machine reals is left to the caller.
//!
//! The reader understands
//!   * `<nuclide name half_life decay_energy>`
//!   * `<decay type target branching_ratio>`
//!   * `<reaction type target Q branching_ratio>`
//!   * `<neutron_fission_yields>` holding `<energies>` and one
//!     `<fission_yields energy="…">` per incident energy, each with
//!     whitespace-separated `<products>` and `<data>`.
use crate::text::chars_of;
use vstd::prelude::*;

verus! {

/// Where a decay or transmutation reaction sends its product. A
/// channel without a `target` attribute is `Lost` (mass leaves the
/// tracked set).
#[derive(Debug, Clone, PartialEq, Eq)]
pub enum ReactionTarget {
    Nuclide(String),
    Lost,
}

impl View for ReactionTarget {
    type V = Option<Seq<char>>;

    open spec fn view(&self) -> Option<Seq<char>> {
        match self {
            ReactionTarget::Nuclide(n) => Some(n@),
            ReactionTarget::Lost => None,
        }
    }
}

pub open spec fn opt_text(o: Option<String>) -> Option<Seq<char>> {
    match o {
        Some(s) => Some(s@),
        None => None,
    }
}

pub open spec fn texts(v: Seq<String>) -> Seq<Seq<char>> {
    v.map_values(|s: String| s@)
}

/// One radioactive-decay branch. `branching_ratio` is `None` when the
/// document leaves it out (it then means 1).
#[derive(Debug, Clone)]
pub struct DecayMode {
    pub mode: String,
    pub target: ReactionTarget,
    pub branching_ratio: Option<String>,
}

pub struct DecayModeView {
    pub mode: Seq<char>,
    pub target: Option<Seq<char>>,
    pub branching_ratio: Option<Seq<char>>,
}

impl View for DecayMode {
    type V = DecayModeView;

    open spec fn view(&self) -> DecayModeView {
        DecayModeView {
            mode: self.mode@,
            target: self.target@,
            branching_ratio: opt_text(self.branching_ratio),
        }
    }
}

/// One transmutation reaction: (n,gamma), (n,2n), fission, ...
/// `q_value` absent means 0, `branching_ratio` absent means 1.
#[derive(Debug, Clone)]
pub struct ReactionChannel {
    pub mt: String,
    pub target: ReactionTarget,
    pub q_value: Option<String>,
    pub branching_ratio: Option<String>,
}

pub struct ReactionChannelView {
    pub mt: Seq<char>,
    pub target: Option<Seq<char>>,
    pub q_value: Option<Seq<char>>,
    pub branching_ratio: Option<Seq<char>>,
}

impl View for ReactionChannel {
    type V = ReactionChannelView;

    open spec fn view(&self) -> ReactionChannelView {
        ReactionChannelView {
            mt: self.mt@,
            target: self.target@,
            q_value: opt_text(self.q_value),
            branching_ratio: opt_text(self.branching_ratio),
        }
    }
}

/// Fission-product yields at one incident energy: product names and
/// the yields parallel to them.
#[derive(Debug, Clone, Default)]
pub struct YieldTable {
    pub products: Vec<String>,
    pub yields: Vec<String>,
}

pub struct YieldTableView {
    pub products: Seq<Seq<char>>,
    pub yields: Seq<Seq<char>>,
}

impl View for YieldTable {
    type V = YieldTableView;

    open spec fn view(&self) -> YieldTableView {
        YieldTableView { products: texts(self.products@), yields: texts(self.yields@) }
    }
}

/// Yield tables in document order, each with the text of its incident
/// energy. Every table of the document is kept; when two share an
/// energy, a reader on real numbers takes the later one.
#[derive(Debug, Clone, Default)]
pub struct FissionYields {
    pub tables: Vec<(String, YieldTable)>,
}

pub open spec fn yield_entry_view(e: (String, YieldTable)) -> (Seq<char>, YieldTableView) {
    (e.0@, e.1@)
}

impl View for FissionYields {
    type V = Seq<(Seq<char>, YieldTableView)>;

    open spec fn view(&self) -> Seq<(Seq<char>, YieldTableView)> {
        self.tables@.map_values(|e: (String, YieldTable)| yield_entry_view(e))
    }
}

/// Chain entry for one nuclide.
#[derive(Debug, Clone)]
pub struct DecayNuclide {
    pub name: String,
    /// Half-life in seconds; `None` for stable nuclides.
    pub half_life: Option<String>,
    /// Recoverable decay energy per decay (eV); `None` means 0.
    pub decay_energy: Option<String>,
    pub decay_modes: Vec<DecayMode>,
    pub reactions: Vec<ReactionChannel>,
    pub fission_yields: Option<FissionYields>,
}

pub struct DecayNuclideView {
    pub name: Seq<char>,
    pub half_life: Option<Seq<char>>,
    pub decay_energy: Option<Seq<char>>,
    pub decay_modes: Seq<DecayModeView>,
    pub reactions: Seq<ReactionChannelView>,
    pub fission_yields: Option<Seq<(Seq<char>, YieldTableView)>>,
}

pub open spec fn yields_view(o: Option<FissionYields>) -> Option<Seq<(Seq<char>, YieldTableView)>> {
    match o {
        Some(f) => Some(f@),
        None => None,
    }
}

impl View for DecayNuclide {
    type V = DecayNuclideView;

    open spec fn view(&self) -> DecayNuclideView {
        DecayNuclideView {
            name: self.name@,
            half_life: opt_text(self.half_life),
            decay_energy: opt_text(self.decay_energy),
            decay_modes: self.decay_modes@.map_values(|m: DecayMode| m@),
            reactions: self.reactions@.map_values(|r: ReactionChannel| r@),
            fission_yields: yields_view(self.fission_yields),
        }
    }
}

/// The nuclide view of a bare entry: a name and nothing else.
pub open spec fn bare_nuclide(name: Seq<char>) -> DecayNuclideView {
    DecayNuclideView {
        name,
        half_life: None,
        decay_energy: None,
        decay_modes: seq![],
        reactions: seq![],
        fission_yields: None,
    }
}

impl DecayNuclide {
    /// A nuclide with only a name: stable, no decay energy, no channels.
    pub fn new(name: String) -> (n: Self)
        ensures
            n@ == bare_nuclide(name@),
    {
        let n = DecayNuclide {
            name,
            half_life: None,
            decay_energy: None,
            decay_modes: Vec::new(),
            reactions: Vec::new(),
            fission_yields: None,
        };
        assert(n@.decay_modes =~= seq![]);
        assert(n@.reactions =~= seq![]);
        n
    }
}

/// Index of the last nuclide named `name` in `ns`, if any.
pub open spec fn last_index_of(ns: Seq<DecayNuclideView>, name: Seq<char>) -> Option<nat>
    decreases ns.len(),
{
    if ns.len() == 0 {
        None
    } else if ns.last().name == name {
        Some((ns.len() - 1) as nat)
    } else {
        last_index_of(ns.drop_last(), name)
    }
}


/// Position in `chain` of the nuclide a channel with target `target`
/// feeds, if it is there.
pub open spec fn resolve_target(chain: Seq<DecayNuclideView>, target: Option<Seq<char>>) -> Option<nat> {
    match target {
        Some(name) => last_index_of(chain, name),
        None => None,
    }
}

/// The link `(parent, channel, child)` of channel `k` of `parent` when
/// its target resolves to `child`, else nothing.
pub open spec fn link_of(parent: int, k: int, child: Option<nat>) -> Seq<(usize, usize, usize)> {
    match child {
        Some(c) => seq![(parent as usize, k as usize, c as usize)],
        None => seq![],
    }
}

/// Decay links of the first `k` decay modes of nuclide `p`.
pub open spec fn decay_links_of(chain: Seq<DecayNuclideView>, p: int, k: int) -> Seq<
    (usize, usize, usize),
>
    decreases k,
{
    if k <= 0 {
        seq![]
    } else {
        decay_links_of(chain, p, k - 1) + link_of(
            p,
            k - 1,
            resolve_target(chain, chain[p].decay_modes[k - 1].target),
        )
    }
}

/// Decay links of the first `n` nuclides, parent by parent.
pub open spec fn decay_links_upto(chain: Seq<DecayNuclideView>, n: int) -> Seq<(usize, usize, usize)>
    decreases n,
{
    if n <= 0 {
        seq![]
    } else {
        decay_links_upto(chain, n - 1) + decay_links_of(chain, n - 1, chain[n - 1].decay_modes.len() as int)
    }
}

/// A reaction feeds a named target through its branching ratio; fission
/// spreads over the yield table instead and has no single child.
pub open spec fn reaction_child(chain: Seq<DecayNuclideView>, r: ReactionChannelView) -> Option<nat> {
    if r.mt == "fission"@ {
        None
    } else {
        resolve_target(chain, r.target)
    }
}

/// Reaction links of the first `k` reactions of nuclide `p`.
pub open spec fn reaction_links_of(chain: Seq<DecayNuclideView>, p: int, k: int) -> Seq<
    (usize, usize, usize),
>
    decreases k,
{
    if k <= 0 {
        seq![]
    } else {
        reaction_links_of(chain, p, k - 1) + link_of(
            p,
            k - 1,
            reaction_child(chain, chain[p].reactions[k - 1]),
        )
    }
}

/// Reaction links of the first `n` nuclides, parent by parent.
pub open spec fn reaction_links_upto(chain: Seq<DecayNuclideView>, n: int) -> Seq<
    (usize, usize, usize),
>
    decreases n,
{
    if n <= 0 {
        seq![]
    } else {
        reaction_links_upto(chain, n - 1) + reaction_links_of(
            chain,
            n - 1,
            chain[n - 1].reactions.len() as int,
        )
    }
}

/// Appending a nuclide makes it what its name finds, and leaves every
/// other name finding what it found before.
pub proof fn law_push_then_find(chain: Seq<DecayNuclideView>, n: DecayNuclideView, other: Seq<char>)
    ensures
        last_index_of(chain.push(n), n.name) == Some(chain.len()),
        other != n.name ==> last_index_of(chain.push(n), other) == last_index_of(chain, other),
{
    assert(chain.push(n).drop_last() =~= chain);
}

/// A name found in a chain names the nuclide at the position found.
pub proof fn law_found_names_match(chain: Seq<DecayNuclideView>, name: Seq<char>)
    ensures
        last_index_of(chain, name) matches Some(i) ==> i < chain.len() && chain[i as int].name == name,
    decreases chain.len(),
{
    if chain.len() > 0 && chain.last().name != name {
        law_found_names_match(chain.drop_last(), name);
    }
}


/// Every position of the chain and of each nuclide's channel lists
/// fits in a `usize` (as it does for any chain held in memory).
pub open spec fn chain_fits(chain: Seq<DecayNuclideView>) -> bool {
    &&& chain.len() <= usize::MAX
    &&& forall|i: int|
        0 <= i < chain.len() ==> (#[trigger] chain[i]).decay_modes.len() <= usize::MAX
            && chain[i].reactions.len() <= usize::MAX
}

/// A link `(parent, channel, child)` of a decay mode is sound: both
/// positions are in the chain, the channel is a decay mode of the
/// parent, and the child is the most recent nuclide named as its target.
pub open spec fn decay_link_sound(chain: Seq<DecayNuclideView>, l: (usize, usize, usize)) -> bool {
    &&& l.0 < chain.len()
    &&& l.1 < chain[l.0 as int].decay_modes.len()
    &&& resolve_target(chain, chain[l.0 as int].decay_modes[l.1 as int].target) == Some(l.2 as nat)
}

proof fn lemma_decay_links_of_sound(chain: Seq<DecayNuclideView>, p: int, k: int)
    requires
        chain_fits(chain),
        0 <= p < chain.len(),
        k <= chain[p].decay_modes.len(),
    ensures
        forall|i: int| 0 <= i < decay_links_of(chain, p, k).len() ==> decay_link_sound(chain, #[trigger] decay_links_of(chain, p, k)[i]),
    decreases k,
{
    if k > 0 {
        lemma_decay_links_of_sound(chain, p, k - 1);
        let prev = decay_links_of(chain, p, k - 1);
        let cur = decay_links_of(chain, p, k);
        let child = resolve_target(chain, chain[p].decay_modes[k - 1].target);
        if let Some(c) = child {
            lemma_resolved_target_in_chain(chain, chain[p].decay_modes[k - 1].target);
        }
        assert forall|i: int| 0 <= i < cur.len() implies decay_link_sound(chain, #[trigger] cur[i]) by {
            if i < prev.len() {
                assert(cur[i] == prev[i]);
            }
        }
    }
}

/// A resolved target lies inside the chain.
proof fn lemma_resolved_target_in_chain(chain: Seq<DecayNuclideView>, target: Option<Seq<char>>)
    ensures
        resolve_target(chain, target) matches Some(c) ==> c < chain.len(),
{
    if let Some(name) = target {
        law_found_names_match(chain, name);
    }
}

/// Every decay link of a chain is sound (see [`decay_link_sound`]).
pub proof fn law_decay_links_sound(chain: Seq<DecayNuclideView>, n: int)
    requires
        chain_fits(chain),
        0 <= n <= chain.len(),
    ensures
        forall|i: int| 0 <= i < decay_links_upto(chain, n).len() ==> decay_link_sound(chain, #[trigger] decay_links_upto(chain, n)[i]),
    decreases n,
{
    if n > 0 {
        law_decay_links_sound(chain, n - 1);
        lemma_decay_links_of_sound(chain, n - 1, chain[n - 1].decay_modes.len() as int);
        let prev = decay_links_upto(chain, n - 1);
        let last = decay_links_of(chain, n - 1, chain[n - 1].decay_modes.len() as int);
        let cur = decay_links_upto(chain, n);
        assert forall|i: int| 0 <= i < cur.len() implies decay_link_sound(chain, #[trigger] cur[i]) by {
            if i < prev.len() {
                assert(cur[i] == prev[i]);
            } else {
                assert(cur[i] == last[i - prev.len()]);
            }
        }
    }
}

/// A link `(parent, channel, child)` of a reaction is sound: both
/// positions are in the chain, the channel is a non-fission reaction
/// of the parent, and the child is the most recent nuclide named as its
/// target.
pub open spec fn reaction_link_sound(chain: Seq<DecayNuclideView>, l: (usize, usize, usize)) -> bool {
    &&& l.0 < chain.len()
    &&& l.1 < chain[l.0 as int].reactions.len()
    &&& chain[l.0 as int].reactions[l.1 as int].mt != "fission"@
    &&& resolve_target(chain, chain[l.0 as int].reactions[l.1 as int].target) == Some(l.2 as nat)
}

proof fn lemma_reaction_links_of_sound(chain: Seq<DecayNuclideView>, p: int, k: int)
    requires
        chain_fits(chain),
        0 <= p < chain.len(),
        k <= chain[p].reactions.len(),
    ensures
        forall|i: int| 0 <= i < reaction_links_of(chain, p, k).len() ==> reaction_link_sound(chain, #[trigger] reaction_links_of(chain, p, k)[i]),
    decreases k,
{
    if k > 0 {
        lemma_reaction_links_of_sound(chain, p, k - 1);
        let prev = reaction_links_of(chain, p, k - 1);
        let cur = reaction_links_of(chain, p, k);
        let r = chain[p].reactions[k - 1];
        lemma_resolved_target_in_chain(chain, r.target);
        assert forall|i: int| 0 <= i < cur.len() implies reaction_link_sound(chain, #[trigger] cur[i]) by {
            if i < prev.len() {
                assert(cur[i] == prev[i]);
            } else if let Some(c) = reaction_child(chain, r) {
                assert(r.mt != "fission"@);
                assert(resolve_target(chain, r.target) == Some(c));
                assert(cur[i] == (p as usize, (k - 1) as usize, c as usize));
            }
        }
    }
}

/// Every reaction link of a chain is sound (see [`reaction_link_sound`]).
pub proof fn law_reaction_links_sound(chain: Seq<DecayNuclideView>, n: int)
    requires
        chain_fits(chain),
        0 <= n <= chain.len(),
    ensures
        forall|i: int| 0 <= i < reaction_links_upto(chain, n).len() ==> reaction_link_sound(chain, #[trigger] reaction_links_upto(chain, n)[i]),
    decreases n,
{
    if n > 0 {
        law_reaction_links_sound(chain, n - 1);
        lemma_reaction_links_of_sound(chain, n - 1, chain[n - 1].reactions.len() as int);
        let prev = reaction_links_upto(chain, n - 1);
        let last = reaction_links_of(chain, n - 1, chain[n - 1].reactions.len() as int);
        let cur = reaction_links_upto(chain, n);
        assert forall|i: int| 0 <= i < cur.len() implies reaction_link_sound(chain, #[trigger] cur[i]) by {
            if i < prev.len() {
                assert(cur[i] == prev[i]);
            } else {
                assert(cur[i] == last[i - prev.len()]);
            }
        }
    }
}


/// A depletion chain: nuclides in insertion order, looked up by name.
/// When a name occurs more than once, the most recent entry wins.
#[derive(Debug, Clone)]
pub struct DecayChain {
    pub nuclides: Vec<DecayNuclide>,
}

impl View for DecayChain {
    type V = Seq<DecayNuclideView>;

    open spec fn view(&self) -> Seq<DecayNuclideView> {
        self.nuclides@.map_values(|n: DecayNuclide| n@)
    }
}

impl Default for DecayChain {
    fn default() -> (c: Self)
        ensures
            c@ == Seq::<DecayNuclideView>::empty(),
    {
        DecayChain::new()
    }
}

impl DecayChain {
    /// An empty chain.
    pub fn new() -> (c: Self)
        ensures
            c@ == Seq::<DecayNuclideView>::empty(),
    {
        let c = DecayChain { nuclides: Vec::new() };
        assert(c@ =~= Seq::<DecayNuclideView>::empty());
        c
    }

    /// Append a nuclide; returns its position.
    pub fn push(&mut self, n: DecayNuclide) -> (idx: usize)
        requires
            old(self)@.len() < usize::MAX,
        ensures
            idx == old(self)@.len(),
            final(self)@ == old(self)@.push(n@),
    {
        let idx = self.nuclides.len();
        self.nuclides.push(n);
        assert(self@ =~= old(self)@.push(n@));
        idx
    }

    /// Position of the most recently pushed nuclide called `name`.
    pub fn index_of(&self, name: &str) -> (idx: Option<usize>)
        ensures
            match last_index_of(self@, name@) {
                Some(i) => idx == Some(i as usize),
                None => idx is None,
            },
    {
        let mut i = self.nuclides.len();
        assert(self@.take(i as int) =~= self@);
        while i > 0
            invariant
                i <= self@.len(),
                last_index_of(self@, name@) == last_index_of(self@.take(i as int), name@),
            decreases i,
        {
            let ghost pre = self@.take(i as int);
            assert(pre.last() == self@[i - 1]);
            if str_eq(self.nuclides[i - 1].name.as_str(), name) {
                return Some(i - 1);
            }
            assert(pre.drop_last() =~= self@.take(i - 1));
            i -= 1;
        }
        None
    }

    /// Number of nuclides.
    pub fn len(&self) -> (n: usize)
        ensures
            n == self@.len(),
    {
        self.nuclides.len()
    }

    /// Whether the chain holds no nuclide.
    pub fn is_empty(&self) -> (b: bool)
        ensures
            b == (self@.len() == 0),
    {
        self.nuclides.len() == 0
    }

    /// Position of the nuclide a channel feeds, if it is in the chain.
    pub fn target_index(&self, target: &ReactionTarget) -> (idx: Option<usize>)
        ensures
            match target@ {
                Some(name) => match last_index_of(self@, name) {
                    Some(i) => idx == Some(i as usize),
                    None => idx is None,
                },
                None => idx is None,
            },
    {
        match target {
            ReactionTarget::Nuclide(name) => self.index_of(name.as_str()),
            ReactionTarget::Lost => None,
        }
    }

    /// Every decay mode whose target is in the chain, as
    /// `(parent, mode, child)` positions, parent by parent and mode by
    /// mode: the off-diagonal decay terms of the transmutation matrix.
    pub fn decay_links(&self) -> (links: Vec<(usize, usize, usize)>)
        ensures
            links@ == decay_links_upto(self@, self@.len() as int),
    {
        let mut links: Vec<(usize, usize, usize)> = Vec::new();
        let mut p: usize = 0;
        while p < self.nuclides.len()
            invariant
                p <= self@.len(),
                links@ == decay_links_upto(self@, p as int),
            decreases self@.len() - p,
        {
            let modes = &self.nuclides[p].decay_modes;
            let ghost mv = self@[p as int].decay_modes;
            assert(mv.len() == modes@.len());
            let mut m: usize = 0;
            while m < modes.len()
                invariant
                    p < self@.len(),
                    mv == self@[p as int].decay_modes,
                    mv == modes@.map_values(|d: DecayMode| d@),
                    m <= modes@.len(),
                    links@ == decay_links_upto(self@, p as int) + decay_links_of(self@, p as int, m as int),
                decreases modes@.len() - m,
            {
                assert(mv[m as int] == modes@[m as int]@);
                let child = self.target_index(&modes[m].target);
                let ghost before = links@;
                match child {
                    Some(c) => {
                        links.push((p, m, c));
                    },
                    None => {},
                }
                assert(links@ =~= decay_links_upto(self@, p as int) + decay_links_of(self@, p as int, m + 1));
                m = m + 1;
            }
            p = p + 1;
        }
        links
    }

    /// Every non-fission reaction whose target is in the chain, as
    /// `(parent, reaction, child)` positions, parent by parent and
    /// reaction by reaction: the off-diagonal transmutation terms that
    /// do not go through a fission yield table.
    pub fn reaction_links(&self) -> (links: Vec<(usize, usize, usize)>)
        ensures
            links@ == reaction_links_upto(self@, self@.len() as int),
    {
        let mut links: Vec<(usize, usize, usize)> = Vec::new();
        let mut p: usize = 0;
        while p < self.nuclides.len()
            invariant
                p <= self@.len(),
                links@ == reaction_links_upto(self@, p as int),
            decreases self@.len() - p,
        {
            let reactions = &self.nuclides[p].reactions;
            let ghost rv = self@[p as int].reactions;
            assert(rv.len() == reactions@.len());
            let mut r: usize = 0;
            while r < reactions.len()
                invariant
                    p < self@.len(),
                    rv == self@[p as int].reactions,
                    rv == reactions@.map_values(|c: ReactionChannel| c@),
                    r <= reactions@.len(),
                    links@ == reaction_links_upto(self@, p as int) + reaction_links_of(self@, p as int, r as int),
                decreases reactions@.len() - r,
            {
                assert(rv[r as int] == reactions@[r as int]@);
                let is_fission = str_eq(reactions[r].mt.as_str(), "fission");
                let child = if is_fission {
                    None
                } else {
                    self.target_index(&reactions[r].target)
                };
                match child {
                    Some(c) => {
                        links.push((p, r, c));
                    },
                    None => {},
                }
                assert(links@ =~= reaction_links_upto(self@, p as int) + reaction_links_of(self@, p as int, r + 1));
                r = r + 1;
            }
            p = p + 1;
        }
        links
    }
}

/// Equality of two strings, character by character.
pub fn str_eq(a: &str, b: &str) -> (eq: bool)
    ensures
        eq == (a@ == b@),
{
    let x = chars_of(a);
    let y = chars_of(b);
    if x.len() != y.len() {
        return false;
    }
    let mut k: usize = 0;
    while k < x.len()
        invariant
            x@ == a@,
            y@ == b@,
            x@.len() == y@.len(),
            k <= x@.len(),
            forall|q: int| 0 <= q < k ==> x@[q] == y@[q],
        decreases x@.len() - k,
    {
        if x[k] != y[k] {
            return false;
        }
        k += 1;
    }
    assert(a@ =~= b@);
    true
}

} // verus!
