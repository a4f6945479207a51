//! The OpenMC `chain.xml` reader: a state machine driven by the events
//! of an XML pull reader.
use crate::decay::{
    bare_nuclide, DecayChain, DecayMode, DecayModeView, DecayNuclide, DecayNuclideView,
    ReactionChannel, ReactionChannelView, ReactionTarget, YieldTable, YieldTableView,
    FissionYields, texts,
};
use crate::text::{
    chars_of, decimal_text, is_real_number, is_real_number_text, push_usize_decimal, split_whitespace,
    trim_range, trim_ws, ws_tokens,
};
use quick_xml::events::attributes::AttrError;
use crate::xml::{
    attribute_view, XmlAttributeView, XmlElement, XmlElementView, XmlEvent, XmlEventReader,
    XmlEventView, xml_event_at,
};
use vstd::prelude::*;
use vstd::std_specs::convert::FromSpecImpl;

verus! {

/// Why a chain document was rejected.
#[derive(Debug)]
pub enum ChainXmlError {
    /// Reading the document failed.
    Io(std::io::Error),
    /// The XML layer reported an error (syntax, escapes, encoding).
    Xml(quick_xml::Error),
    /// An attribute of a tag could not be parsed.
    Attribute(AttrError),
    /// A required attribute is missing from the tag named `tag`.
    MissingAttribute { tag: Vec<u8>, key: String },
    /// A numeric attribute or token is not a real-number literal.
    NotANumber(String),
    /// A `<fission_yields>` block lists a different number of products
    /// than of yields.
    YieldCountMismatch { energy: String, products: usize, data: usize },
}

pub enum ChainXmlErrorView {
    Io,
    Xml,
    Attribute,
    MissingAttribute(Seq<u8>, Seq<char>),
    NotANumber(Seq<char>),
    YieldCountMismatch(Seq<char>, nat, nat),
}

impl View for ChainXmlError {
    type V = ChainXmlErrorView;

    open spec fn view(&self) -> ChainXmlErrorView {
        match self {
            ChainXmlError::Io(_) => ChainXmlErrorView::Io,
            ChainXmlError::Xml(_) => ChainXmlErrorView::Xml,
            ChainXmlError::Attribute(_) => ChainXmlErrorView::Attribute,
            ChainXmlError::MissingAttribute { tag, key } => ChainXmlErrorView::MissingAttribute(
                tag@,
                key@,
            ),
            ChainXmlError::NotANumber(s) => ChainXmlErrorView::NotANumber(s@),
            ChainXmlError::YieldCountMismatch { energy, products, data } =>
                ChainXmlErrorView::YieldCountMismatch(energy@, *products as nat, *data as nat),
        }
    }
}



/// What `String::from_utf8_lossy` gives for the bytes `b`.
pub uninterp spec fn utf8_lossy_text(b: Seq<u8>) -> Seq<char>;

/// Every byte is ASCII.
pub open spec fn is_ascii_bytes(b: Seq<u8>) -> bool {
    forall|i: int| 0 <= i < b.len() ==> #[trigger] b[i] < 128
}

/// Calls `String::from_utf8_lossy`. Names its result; ASCII bytes are
/// valid UTF-8 and come back as the characters they encode.
#[verifier::external_body]
fn utf8_lossy(b: &Vec<u8>) -> (text: String)
    ensures
        text@ == utf8_lossy_text(b@),
        is_ascii_bytes(b@) ==> text@ == b@.map_values(|x: u8| x as char),
{
    String::from_utf8_lossy(b).into_owned()
}

/// Calls `quick_xml::Error`'s `Display` (through `ToString`); nothing
/// is claimed of the text.
#[verifier::external_body]
fn xml_error_text(e: &quick_xml::Error) -> String {
    e.to_string()
}

/// Calls `AttrError`'s `Display` (through `ToString`); nothing is
/// claimed of the text.
#[verifier::external_body]
fn attr_error_text(e: &AttrError) -> String {
    e.to_string()
}

/// Why the float parser rejects `s` once trimmed: empty, or malformed.
pub open spec fn float_error_text(s: Seq<char>) -> Seq<char> {
    if trim_ws(s).len() == 0 {
        "cannot parse float from empty string"@
    } else {
        "invalid float literal"@
    }
}

/// Prefix of every message about the document's content.
pub open spec fn schema_prefix() -> Seq<char> {
    "chain.xml schema error: "@
}

/// `head` starts `m`.
pub open spec fn starts_with(m: Seq<char>, head: Seq<char>) -> bool {
    m.len() >= head.len() && m.take(head.len() as int) == head
}

impl ChainXmlError {
    /// Human-readable description. The I/O and XML-layer messages end
    /// in the text of the underlying error.
    pub fn message(&self) -> (m: String)
        ensures
            match self {
                ChainXmlError::Io(_) => starts_with(m@, "I/O error reading chain.xml: "@),
                ChainXmlError::Xml(_) => starts_with(m@, "XML parse error in chain.xml: "@),
                ChainXmlError::Attribute(_) => starts_with(m@, schema_prefix()),
                ChainXmlError::MissingAttribute { tag, key } => m@ == schema_prefix() + "<"@
                    + utf8_lossy_text(tag@) + ">: missing required attribute '"@ + key@ + "'"@,
                ChainXmlError::NotANumber(s) => m@ == schema_prefix() + "not a real number: '"@
                    + s@ + "' ("@ + float_error_text(s@) + ")"@,
                ChainXmlError::YieldCountMismatch { energy, products, data } => m@
                    == schema_prefix() + "fission_yields at "@ + energy@ + " eV: products "@
                    + decimal_text(*products as nat) + " ≠ data "@ + decimal_text(*data as nat),
            },
    {
        match self {
            ChainXmlError::Io(e) => {
                let mut m = String::from_str("I/O error reading chain.xml: ");
                let ghost head = m@;
                assert(head == "I/O error reading chain.xml: "@);
                let t = crate::error::io_error_text(e);
                m.append(t.as_str());
                assert(m@ == head + t@);
                assert(m@.take(head.len() as int) =~= head);
                assert(starts_with(m@, "I/O error reading chain.xml: "@));
                m
            },
            ChainXmlError::Xml(e) => {
                let mut m = String::from_str("XML parse error in chain.xml: ");
                let ghost head = m@;
                m.append(xml_error_text(e).as_str());
                assert(m@.take(head.len() as int) =~= head);
                m
            },
            ChainXmlError::Attribute(e) => {
                let mut m = String::from_str("chain.xml schema error: ");
                let ghost head = m@;
                m.append(attr_error_text(e).as_str());
                assert(m@.take(head.len() as int) =~= head);
                m
            },
            ChainXmlError::MissingAttribute { tag, key } => {
                let mut m = String::from_str("chain.xml schema error: ");
                m.append("<");
                let t = utf8_lossy(tag);
                m.append(t.as_str());
                m.append(">: missing required attribute '");
                m.append(key.as_str());
                m.append("'");
                m
            },
            ChainXmlError::NotANumber(s) => {
                let v = chars_of(s.as_str());
                let (a, z) = trim_range(&v);
                let mut m = String::from_str("chain.xml schema error: ");
                m.append("not a real number: '");
                m.append(s.as_str());
                m.append("' (");
                if a == z {
                    m.append("cannot parse float from empty string");
                } else {
                    m.append("invalid float literal");
                }
                m.append(")");
                m
            },
            ChainXmlError::YieldCountMismatch { energy, products, data } => {
                let mut m = String::from_str("chain.xml schema error: ");
                m.append("fission_yields at ");
                m.append(energy.as_str());
                m.append(" eV: products ");
                push_usize_decimal(&mut m, *products);
                m.append(" ≠ data ");
                push_usize_decimal(&mut m, *data);
                m
            },
        }
    }
}

impl From<std::io::Error> for ChainXmlError {
    fn from(e: std::io::Error) -> (r: Self) {
        ChainXmlError::Io(e)
    }
}

impl FromSpecImpl<std::io::Error> for ChainXmlError {
    open spec fn obeys_from_spec() -> bool {
        true
    }

    open spec fn from_spec(v: std::io::Error) -> ChainXmlError {
        ChainXmlError::Io(v)
    }
}

impl From<quick_xml::Error> for ChainXmlError {
    fn from(e: quick_xml::Error) -> (r: Self) {
        ChainXmlError::Xml(e)
    }
}

impl FromSpecImpl<quick_xml::Error> for ChainXmlError {
    open spec fn obeys_from_spec() -> bool {
        true
    }

    open spec fn from_spec(v: quick_xml::Error) -> ChainXmlError {
        ChainXmlError::Xml(v)
    }
}

/// Which text block the reader is currently collecting.
#[derive(Debug, Clone, Copy, PartialEq, Eq, Structural)]
pub enum TextTarget {
    Energies,
    Products,
    Data,
}

/// Raw tag bytes spell the ASCII text `s`.
pub open spec fn bytes_match(b: Seq<u8>, s: Seq<char>) -> bool {
    b.len() == s.len() && forall|i: int| 0 <= i < b.len() ==> b[i] as u32 == #[trigger] s[i] as u32
}

/// The value of the first attribute keyed `key`; an unparsable
/// attribute met before it is an error, and so is a value that could
/// not be unescaped.
pub open spec fn find_attr(
    attrs: Seq<Option<XmlAttributeView>>,
    key: Seq<char>,
) -> Result<Option<Seq<char>>, ChainXmlErrorView>
    decreases attrs.len(),
{
    if attrs.len() == 0 {
        Ok(None)
    } else {
        match attrs[0] {
            None => Err(ChainXmlErrorView::Attribute),
            Some(a) => if bytes_match(a.key, key) {
                match a.value {
                    Some(v) => Ok(Some(v)),
                    None => Err(ChainXmlErrorView::Xml),
                }
            } else {
                find_attr(attrs.drop_first(), key)
            },
        }
    }
}

pub open spec fn required_attr(el: XmlElementView, key: Seq<char>) -> Result<
    Seq<char>,
    ChainXmlErrorView,
> {
    match find_attr(el.attributes, key) {
        Err(e) => Err(e),
        Ok(None) => Err(ChainXmlErrorView::MissingAttribute(el.name, key)),
        Ok(Some(v)) => Ok(v),
    }
}

/// An optional attribute whose value, when present, must be a real number.
pub open spec fn number_attr(el: XmlElementView, key: Seq<char>) -> Result<
    Option<Seq<char>>,
    ChainXmlErrorView,
> {
    match find_attr(el.attributes, key) {
        Err(e) => Err(e),
        Ok(None) => Ok(None),
        Ok(Some(v)) => if is_real_number_text(v) {
            Ok(Some(v))
        } else {
            Err(ChainXmlErrorView::NotANumber(v))
        },
    }
}

/// `<decay type target branching_ratio>`, attributes read in that order.
pub open spec fn decay_mode_of(el: XmlElementView) -> Result<DecayModeView, ChainXmlErrorView> {
    match required_attr(el, "type"@) {
        Err(e) => Err(e),
        Ok(mode) => match find_attr(el.attributes, "target"@) {
            Err(e) => Err(e),
            Ok(target) => match number_attr(el, "branching_ratio"@) {
                Err(e) => Err(e),
                Ok(br) => Ok(DecayModeView { mode, target, branching_ratio: br }),
            },
        },
    }
}

/// `<reaction type target Q branching_ratio>`, attributes read in that order.
pub open spec fn reaction_of(el: XmlElementView) -> Result<ReactionChannelView, ChainXmlErrorView> {
    match required_attr(el, "type"@) {
        Err(e) => Err(e),
        Ok(mt) => match find_attr(el.attributes, "target"@) {
            Err(e) => Err(e),
            Ok(target) => match number_attr(el, "Q"@) {
                Err(e) => Err(e),
                Ok(q) => match number_attr(el, "branching_ratio"@) {
                    Err(e) => Err(e),
                    Ok(br) => Ok(
                        ReactionChannelView { mt, target, q_value: q, branching_ratio: br },
                    ),
                },
            },
        },
    }
}

/// `<nuclide name half_life decay_energy>`, attributes read in that order.
pub open spec fn nuclide_of(el: XmlElementView) -> Result<DecayNuclideView, ChainXmlErrorView> {
    match required_attr(el, "name"@) {
        Err(e) => Err(e),
        Ok(name) => match number_attr(el, "half_life"@) {
            Err(e) => Err(e),
            Ok(hl) => match number_attr(el, "decay_energy"@) {
                Err(e) => Err(e),
                Ok(de) => Ok(
                    DecayNuclideView { half_life: hl, decay_energy: de, ..bare_nuclide(name) },
                ),
            },
        },
    }
}

/// A reaction channel keeps, field by field, the values of its own
/// element's attributes: `type` as the reaction, `target`, `Q` and
/// `branching_ratio` (each `None` when absent); and an element whose
/// `type` is present and whose `Q` and `branching_ratio`, when present,
/// are real numbers always gives a channel.
pub proof fn law_reaction_keeps_its_attributes(el: XmlElementView)
    ensures
        reaction_of(el) matches Ok(r) ==> {
            &&& find_attr(el.attributes, "type"@) == Ok::<_, ChainXmlErrorView>(Some(r.mt))
            &&& find_attr(el.attributes, "target"@) == Ok::<_, ChainXmlErrorView>(r.target)
            &&& find_attr(el.attributes, "Q"@) == Ok::<_, ChainXmlErrorView>(r.q_value)
            &&& find_attr(el.attributes, "branching_ratio"@) == Ok::<_, ChainXmlErrorView>(
                r.branching_ratio,
            )
        },
        (find_attr(el.attributes, "type"@) matches Ok(Some(_))) && (find_attr(el.attributes, "target"@) is Ok)
            && (find_attr(el.attributes, "Q"@) matches Ok(q) && numeric_ok(q)) && (find_attr(
            el.attributes,
            "branching_ratio"@,
        ) matches Ok(b) && numeric_ok(b)) ==> reaction_of(el) is Ok,
{
}

/// A decay mode keeps the values of its own element's attributes:
/// `type` as the mode, `target` and `branching_ratio` (each `None` when
/// absent); and an element whose `type` is present and whose
/// `branching_ratio`, when present, is a real number always gives a mode.
pub proof fn law_decay_mode_keeps_its_attributes(el: XmlElementView)
    ensures
        decay_mode_of(el) matches Ok(d) ==> {
            &&& find_attr(el.attributes, "type"@) == Ok::<_, ChainXmlErrorView>(Some(d.mode))
            &&& find_attr(el.attributes, "target"@) == Ok::<_, ChainXmlErrorView>(d.target)
            &&& find_attr(el.attributes, "branching_ratio"@) == Ok::<_, ChainXmlErrorView>(
                d.branching_ratio,
            )
        },
        (find_attr(el.attributes, "type"@) matches Ok(Some(_))) && (find_attr(el.attributes, "target"@) is Ok)
            && (find_attr(el.attributes, "branching_ratio"@) matches Ok(b) && numeric_ok(b))
            ==> decay_mode_of(el) is Ok,
{
}

/// A nuclide starts from its own element's attributes: `name`,
/// `half_life` and `decay_energy` (each `None` when absent), with no
/// decay modes, reactions or yields yet; and an element whose `name` is
/// present and whose `half_life` and `decay_energy`, when present, are
/// real numbers always gives a nuclide.
pub proof fn law_nuclide_keeps_its_attributes(el: XmlElementView)
    ensures
        nuclide_of(el) matches Ok(n) ==> {
            &&& find_attr(el.attributes, "name"@) == Ok::<_, ChainXmlErrorView>(Some(n.name))
            &&& find_attr(el.attributes, "half_life"@) == Ok::<_, ChainXmlErrorView>(n.half_life)
            &&& find_attr(el.attributes, "decay_energy"@) == Ok::<_, ChainXmlErrorView>(
                n.decay_energy,
            )
            &&& n.decay_modes.len() == 0
            &&& n.reactions.len() == 0
            &&& n.fission_yields is None
        },
        (find_attr(el.attributes, "name"@) matches Ok(Some(_))) && (find_attr(el.attributes, "half_life"@)
            matches Ok(h) && numeric_ok(h)) && (find_attr(el.attributes, "decay_energy"@) matches Ok(e)
            && numeric_ok(e)) ==> nuclide_of(el) is Ok,
{
}

/// The first token that is not a real number.
pub open spec fn first_non_number(toks: Seq<Seq<char>>) -> Option<Seq<char>>
    decreases toks.len(),
{
    if toks.len() == 0 {
        None
    } else if !is_real_number_text(toks[0]) {
        Some(toks[0])
    } else {
        first_non_number(toks.drop_first())
    }
}

/// State of the reader between events.
pub struct ParserView {
    pub chain: Seq<DecayNuclideView>,
    pub current: Option<DecayNuclideView>,
    pub in_yields: bool,
    pub tables: Seq<(Seq<char>, YieldTableView)>,
    pub energy: Option<Seq<char>>,
    pub products: Seq<Seq<char>>,
    pub data: Seq<Seq<char>>,
    pub text_target: Option<TextTarget>,
}

pub open spec fn initial_parser() -> ParserView {
    ParserView {
        chain: seq![],
        current: None,
        in_yields: false,
        tables: seq![],
        energy: None,
        products: seq![],
        data: seq![],
        text_target: None,
    }
}

/// Append a decay mode to the open nuclide (nothing happens outside one).
pub open spec fn add_decay(p: ParserView, el: XmlElementView) -> Result<ParserView, ChainXmlErrorView> {
    match p.current {
        None => Ok(p),
        Some(n) => match decay_mode_of(el) {
            Err(e) => Err(e),
            Ok(m) => Ok(
                ParserView {
                    current: Some(DecayNuclideView { decay_modes: n.decay_modes.push(m), ..n }),
                    ..p
                },
            ),
        },
    }
}

/// Append a reaction to the open nuclide (nothing happens outside one).
pub open spec fn add_reaction(p: ParserView, el: XmlElementView) -> Result<ParserView, ChainXmlErrorView> {
    match p.current {
        None => Ok(p),
        Some(n) => match reaction_of(el) {
            Err(e) => Err(e),
            Ok(r) => Ok(
                ParserView {
                    current: Some(DecayNuclideView { reactions: n.reactions.push(r), ..n }),
                    ..p
                },
            ),
        },
    }
}

pub open spec fn on_start(p: ParserView, el: XmlElementView) -> Result<ParserView, ChainXmlErrorView> {
    let name = el.name;
    if bytes_match(name, "nuclide"@) {
        match nuclide_of(el) {
            Err(e) => Err(e),
            Ok(n) => Ok(ParserView { current: Some(n), ..p }),
        }
    } else if bytes_match(name, "decay"@) {
        add_decay(p, el)
    } else if bytes_match(name, "reaction"@) {
        add_reaction(p, el)
    } else if bytes_match(name, "neutron_fission_yields"@) {
        Ok(ParserView { in_yields: true, tables: seq![], ..p })
    } else if bytes_match(name, "energies"@) && p.in_yields {
        Ok(ParserView { text_target: Some(TextTarget::Energies), ..p })
    } else if bytes_match(name, "fission_yields"@) && p.in_yields {
        match required_attr(el, "energy"@) {
            Err(e) => Err(e),
            Ok(en) => if !is_real_number_text(en) {
                Err(ChainXmlErrorView::NotANumber(en))
            } else {
                Ok(ParserView { energy: Some(en), products: seq![], data: seq![], ..p })
            },
        }
    } else if bytes_match(name, "products"@) && p.in_yields {
        Ok(ParserView { text_target: Some(TextTarget::Products), ..p })
    } else if bytes_match(name, "data"@) && p.in_yields {
        Ok(ParserView { text_target: Some(TextTarget::Data), ..p })
    } else {
        Ok(p)
    }
}

/// A self-closing tag: a `<nuclide/>` is a complete nuclide without
/// channels; a `<decay/>` or `<reaction/>` joins the open nuclide.
pub open spec fn on_empty(p: ParserView, el: XmlElementView) -> Result<ParserView, ChainXmlErrorView> {
    if bytes_match(el.name, "nuclide"@) {
        match nuclide_of(el) {
            Err(e) => Err(e),
            Ok(n) => Ok(ParserView { chain: p.chain.push(n), ..p }),
        }
    } else if bytes_match(el.name, "decay"@) {
        add_decay(p, el)
    } else if bytes_match(el.name, "reaction"@) {
        add_reaction(p, el)
    } else {
        Ok(p)
    }
}

pub open spec fn on_text(p: ParserView, t: Option<Seq<char>>) -> Result<ParserView, ChainXmlErrorView> {
    match p.text_target {
        None => Ok(p),
        Some(target) => match t {
            None => Err(ChainXmlErrorView::Xml),
            Some(s) => {
                let toks = ws_tokens(s);
                match target {
                    TextTarget::Products => Ok(ParserView { products: p.products + toks, ..p }),
                    TextTarget::Energies => match first_non_number(toks) {
                        Some(bad) => Err(ChainXmlErrorView::NotANumber(bad)),
                        None => Ok(p),
                    },
                    TextTarget::Data => match first_non_number(toks) {
                        Some(bad) => Err(ChainXmlErrorView::NotANumber(bad)),
                        None => Ok(ParserView { data: p.data + toks, ..p }),
                    },
                }
            },
        },
    }
}

pub open spec fn on_end(p: ParserView, name: Seq<u8>) -> Result<ParserView, ChainXmlErrorView> {
    if bytes_match(name, "nuclide"@) {
        match p.current {
            Some(n) => Ok(ParserView { chain: p.chain.push(n), current: None, ..p }),
            None => Ok(p),
        }
    } else if bytes_match(name, "fission_yields"@) && p.in_yields {
        match p.energy {
            None => Ok(p),
            Some(en) => if p.products.len() != p.data.len() {
                Err(ChainXmlErrorView::YieldCountMismatch(en, p.products.len(), p.data.len()))
            } else {
                Ok(
                    ParserView {
                        energy: None,
                        tables: p.tables.push(
                            (en, YieldTableView { products: p.products, yields: p.data }),
                        ),
                        products: seq![],
                        data: seq![],
                        ..p
                    },
                )
            },
        }
    } else if bytes_match(name, "neutron_fission_yields"@) {
        match p.current {
            Some(n) => Ok(
                ParserView {
                    in_yields: false,
                    current: Some(DecayNuclideView { fission_yields: Some(p.tables), ..n }),
                    tables: seq![],
                    ..p
                },
            ),
            None => Ok(ParserView { in_yields: false, ..p }),
        }
    } else if bytes_match(name, "energies"@) || bytes_match(name, "products"@) || bytes_match(
        name,
        "data"@,
    ) {
        Ok(ParserView { text_target: None, ..p })
    } else {
        Ok(p)
    }
}

/// Reading one event completes at most one nuclide.
proof fn lemma_step_grows_chain_by_at_most_one(p: ParserView, ev: XmlEventView)
    ensures
        step(p, ev) matches Ok(q) ==> q.chain.len() <= p.chain.len() + 1,
{
}

/// Effect of one event on the reader state.
pub open spec fn step(p: ParserView, ev: XmlEventView) -> Result<ParserView, ChainXmlErrorView> {
    match ev {
        XmlEventView::Start(el) => on_start(p, el),
        XmlEventView::Empty(el) => on_empty(p, el),
        XmlEventView::Text(t) => on_text(p, t),
        XmlEventView::End(name) => on_end(p, name),
        XmlEventView::Eof => Ok(p),
        XmlEventView::Other => Ok(p),
    }
}

/// Reading `input` from its `k`-th event on, in state `p`, with at most
/// `fuel` further events: the nuclides completed by the end of the
/// document, or the first error.
pub open spec fn run(input: Seq<u8>, k: nat, p: ParserView, fuel: nat) -> Result<
    Seq<DecayNuclideView>,
    ChainXmlErrorView,
>
    decreases fuel,
{
    match xml_event_at(input, k) {
        None => Err(ChainXmlErrorView::Xml),
        Some(XmlEventView::Eof) => Ok(p.chain),
        Some(ev) => match step(p, ev) {
            Err(e) => Err(e),
            Ok(q) => if fuel == 0 {
                Ok(q.chain)
            } else {
                run(input, k + 1, q, (fuel - 1) as nat)
            },
        },
    }
}

/// What reading the whole document `input` gives.
pub open spec fn parse_chain_spec(input: Seq<u8>) -> Result<Seq<DecayNuclideView>, ChainXmlErrorView> {
    run(input, 0, initial_parser(), input.len())
}


/// An optional numeric field holds a real-number literal when present.
pub open spec fn numeric_ok(o: Option<Seq<char>>) -> bool {
    o matches Some(t) ==> is_real_number_text(t)
}

/// Every token is a real-number literal.
pub open spec fn all_numbers(toks: Seq<Seq<char>>) -> bool {
    forall|i: int| 0 <= i < toks.len() ==> is_real_number_text(#[trigger] toks[i])
}

/// A yield table at a real incident energy, with one real yield per
/// product.
pub open spec fn table_ok(t: (Seq<char>, YieldTableView)) -> bool {
    &&& is_real_number_text(t.0)
    &&& t.1.products.len() == t.1.yields.len()
    &&& all_numbers(t.1.yields)
}

pub open spec fn tables_ok(ts: Seq<(Seq<char>, YieldTableView)>) -> bool {
    forall|i: int| 0 <= i < ts.len() ==> table_ok(#[trigger] ts[i])
}

/// Every numeric attribute of the nuclide is a real-number literal and
/// every yield table is complete.
pub open spec fn nuclide_ok(n: DecayNuclideView) -> bool {
    &&& numeric_ok(n.half_life)
    &&& numeric_ok(n.decay_energy)
    &&& forall|i: int|
        0 <= i < n.decay_modes.len() ==> numeric_ok(#[trigger] n.decay_modes[i].branching_ratio)
    &&& forall|i: int|
        0 <= i < n.reactions.len() ==> numeric_ok(#[trigger] n.reactions[i].q_value) && numeric_ok(
            n.reactions[i].branching_ratio,
        )
    &&& n.fission_yields matches Some(ts) ==> tables_ok(ts)
}

/// Every nuclide of the chain is well formed.
pub open spec fn chain_ok(c: Seq<DecayNuclideView>) -> bool {
    forall|i: int| 0 <= i < c.len() ==> nuclide_ok(#[trigger] c[i])
}

/// The reader state holds only well-formed pieces.
pub open spec fn parser_ok(p: ParserView) -> bool {
    &&& chain_ok(p.chain)
    &&& p.current matches Some(n) ==> nuclide_ok(n)
    &&& tables_ok(p.tables)
    &&& numeric_ok(p.energy)
    &&& all_numbers(p.data)
}

proof fn lemma_first_non_number(toks: Seq<Seq<char>>)
    ensures
        first_non_number(toks) is None ==> all_numbers(toks),
    decreases toks.len(),
{
    if toks.len() > 0 {
        lemma_first_non_number(toks.drop_first());
        if first_non_number(toks) is None {
            assert forall|i: int| 0 <= i < toks.len() implies is_real_number_text(
                #[trigger] toks[i],
            ) by {
                if i > 0 {
                    assert(toks[i] == toks.drop_first()[i - 1]);
                }
            }
        }
    }
}

proof fn lemma_step_keeps_parser_ok(p: ParserView, ev: XmlEventView)
    requires
        parser_ok(p),
    ensures
        step(p, ev) matches Ok(q) ==> parser_ok(q),
{
    match ev {
        XmlEventView::Start(el) => {
            if let Ok(q) = step(p, ev) {
                if let Some(n) = q.current {
                    assert(nuclide_ok(n)) by {
                        if let Some(m) = p.current {
                            assert forall|i: int| 0 <= i < n.decay_modes.len() implies numeric_ok(
                                #[trigger] n.decay_modes[i].branching_ratio,
                            ) by {
                                if i < m.decay_modes.len() && n.decay_modes.len() == m.decay_modes.len() + 1 {
                                    assert(n.decay_modes[i] == m.decay_modes[i]);
                                }
                            }
                            assert forall|i: int| 0 <= i < n.reactions.len() implies numeric_ok(
                                #[trigger] n.reactions[i].q_value,
                            ) && numeric_ok(n.reactions[i].branching_ratio) by {
                                if i < m.reactions.len() && n.reactions.len() == m.reactions.len() + 1 {
                                    assert(n.reactions[i] == m.reactions[i]);
                                }
                            }
                        }
                    }
                }
            }
        },
        XmlEventView::Empty(el) => {
            if let Ok(q) = step(p, ev) {
                if let Some(n) = q.current {
                    let m = p.current.unwrap();
                    assert forall|i: int| 0 <= i < n.decay_modes.len() implies numeric_ok(
                        #[trigger] n.decay_modes[i].branching_ratio,
                    ) by {
                        if i < m.decay_modes.len() && n.decay_modes.len() == m.decay_modes.len() + 1 {
                            assert(n.decay_modes[i] == m.decay_modes[i]);
                        }
                    }
                    assert forall|i: int| 0 <= i < n.reactions.len() implies numeric_ok(
                        #[trigger] n.reactions[i].q_value,
                    ) && numeric_ok(n.reactions[i].branching_ratio) by {
                        if i < m.reactions.len() && n.reactions.len() == m.reactions.len() + 1 {
                            assert(n.reactions[i] == m.reactions[i]);
                        }
                    }
                }
            }
        },
        XmlEventView::Text(t) => {
            if let Some(s) = t {
                lemma_first_non_number(ws_tokens(s));
                if let Ok(q) = step(p, ev) {
                    assert forall|i: int| 0 <= i < q.data.len() implies is_real_number_text(
                        #[trigger] q.data[i],
                    ) by {
                        if i >= p.data.len() && q.data.len() > p.data.len() {
                            assert(q.data[i] == ws_tokens(s)[i - p.data.len()]);
                        }
                    }
                }
            }
        },
        XmlEventView::End(name) => {
            if let Ok(q) = step(p, ev) {
                assert forall|i: int| 0 <= i < q.chain.len() implies nuclide_ok(#[trigger] q.chain[i]) by {
                    if i < p.chain.len() {
                        assert(q.chain[i] == p.chain[i]);
                    }
                }
                assert forall|i: int| 0 <= i < q.tables.len() implies table_ok(#[trigger] q.tables[i]) by {
                    if i < p.tables.len() {
                        assert(q.tables[i] == p.tables[i]);
                    }
                }
            }
        },
        _ => {},
    }
}

proof fn lemma_run_keeps_chain_ok(input: Seq<u8>, k: nat, p: ParserView, fuel: nat)
    requires
        parser_ok(p),
    ensures
        run(input, k, p, fuel) matches Ok(c) ==> chain_ok(c),
    decreases fuel,
{
    if let Some(ev) = xml_event_at(input, k) {
        if ev != XmlEventView::Eof {
            lemma_step_keeps_parser_ok(p, ev);
            if let Ok(q) = step(p, ev) {
                if fuel > 0 {
                    lemma_run_keeps_chain_ok(input, k + 1, q, (fuel - 1) as nat);
                }
            }
        }
    }
}

/// Every chain the reader accepts is well formed: each half-life, decay
/// energy, branching ratio and Q value it keeps is a real-number
/// literal, and each fission-yield table has a real incident energy and
/// one real yield per product.
pub proof fn law_parsed_chain_well_formed(input: Seq<u8>)
    ensures
        parse_chain_spec(input) matches Ok(chain) ==> chain_ok(chain),
{
    lemma_run_keeps_chain_ok(input, 0, initial_parser(), input.len());
}

pub open spec fn chain_result_view(r: Result<DecayChain, ChainXmlError>) -> Result<
    Seq<DecayNuclideView>,
    ChainXmlErrorView,
> {
    match r {
        Ok(c) => Ok(c@),
        Err(e) => Err(e@),
    }
}

pub open spec fn attr_result_view(r: Result<Option<String>, ChainXmlError>) -> Result<
    Option<Seq<char>>,
    ChainXmlErrorView,
> {
    match r {
        Ok(Some(s)) => Ok(Some(s@)),
        Ok(None) => Ok(None),
        Err(e) => Err(e@),
    }
}

/// Whether the raw bytes `b` spell `s`.
fn bytes_are(b: &Vec<u8>, s: &str) -> (eq: bool)
    ensures
        eq == bytes_match(b@, s@),
{
    let c = chars_of(s);
    if b.len() != c.len() {
        return false;
    }
    let mut i: usize = 0;
    while i < b.len()
        invariant
            c@ == s@,
            b@.len() == c@.len(),
            i <= b@.len(),
            forall|q: int| 0 <= q < i ==> b@[q] as u32 == #[trigger] c@[q] as u32,
        decreases b@.len() - i,
    {
        if b[i] as u32 != c[i] as u32 {
            return false;
        }
        i += 1;
    }
    true
}

/// The value of the first attribute keyed `key` (see [`find_attr`]).
fn optional_attr(el: &XmlElement, key: &str) -> (r: Result<Option<String>, ChainXmlError>)
    ensures
        attr_result_view(r) == find_attr(el@.attributes, key@),
{
    let ghost attrs = el@.attributes;
    let mut i: usize = 0;
    assert(attrs.skip(0) =~= attrs);
    while i < el.attributes.len()
        invariant
            attrs == el@.attributes,
            i <= el.attributes@.len(),
            find_attr(attrs, key@) == find_attr(attrs.skip(i as int), key@),
        decreases el.attributes@.len() - i,
    {
        let ghost rest = attrs.skip(i as int);
        assert(rest[0] == attribute_view(el.attributes@[i as int]));
        assert(rest.drop_first() =~= attrs.skip(i + 1));
        match &el.attributes[i] {
            Err(e) => {
                return Err(ChainXmlError::Attribute(e.clone()));
            },
            Ok(a) => {
                if bytes_are(&a.key, key) {
                    match &a.value {
                        Ok(v) => {
                            return Ok(Some(v.clone()));
                        },
                        Err(e) => {
                            return Err(ChainXmlError::Xml(e.clone()));
                        },
                    }
                }
            },
        }
        i += 1;
    }
    assert(attrs.skip(i as int) =~= Seq::<Option<XmlAttributeView>>::empty());
    Ok(None)
}

fn required_attr_exec(el: &XmlElement, key: &str) -> (r: Result<String, ChainXmlError>)
    ensures
        match r {
            Ok(s) => required_attr(el@, key@) == Ok::<Seq<char>, ChainXmlErrorView>(s@),
            Err(e) => required_attr(el@, key@) == Err::<Seq<char>, ChainXmlErrorView>(e@),
        },
{
    match optional_attr(el, key) {
        Ok(Some(v)) => Ok(v),
        Ok(None) => Err(
            ChainXmlError::MissingAttribute { tag: el.name.clone(), key: String::from_str(key) },
        ),
        Err(e) => Err(e),
    }
}

fn number_attr_exec(el: &XmlElement, key: &str) -> (r: Result<Option<String>, ChainXmlError>)
    ensures
        attr_result_view(r) == number_attr(el@, key@),
{
    match optional_attr(el, key) {
        Ok(Some(v)) => {
            if is_real_number(v.as_str()) {
                Ok(Some(v))
            } else {
                Err(ChainXmlError::NotANumber(v))
            }
        },
        Ok(None) => Ok(None),
        Err(e) => Err(e),
    }
}

fn target_of(t: Option<String>) -> (r: ReactionTarget)
    ensures
        r@ == crate::decay::opt_text(t),
{
    match t {
        Some(n) => ReactionTarget::Nuclide(n),
        None => ReactionTarget::Lost,
    }
}

fn parse_decay(el: &XmlElement) -> (r: Result<DecayMode, ChainXmlError>)
    ensures
        match r {
            Ok(m) => decay_mode_of(el@) == Ok::<DecayModeView, ChainXmlErrorView>(m@),
            Err(e) => decay_mode_of(el@) == Err::<DecayModeView, ChainXmlErrorView>(e@),
        },
{
    let mode = match required_attr_exec(el, "type") {
        Ok(m) => m,
        Err(e) => {
            return Err(e);
        },
    };
    let target = match optional_attr(el, "target") {
        Ok(t) => target_of(t),
        Err(e) => {
            return Err(e);
        },
    };
    let branching_ratio = match number_attr_exec(el, "branching_ratio") {
        Ok(b) => b,
        Err(e) => {
            return Err(e);
        },
    };
    Ok(DecayMode { mode, target, branching_ratio })
}

fn parse_reaction(el: &XmlElement) -> (r: Result<ReactionChannel, ChainXmlError>)
    ensures
        match r {
            Ok(c) => reaction_of(el@) == Ok::<ReactionChannelView, ChainXmlErrorView>(c@),
            Err(e) => reaction_of(el@) == Err::<ReactionChannelView, ChainXmlErrorView>(e@),
        },
{
    let mt = match required_attr_exec(el, "type") {
        Ok(m) => m,
        Err(e) => {
            return Err(e);
        },
    };
    let target = match optional_attr(el, "target") {
        Ok(t) => target_of(t),
        Err(e) => {
            return Err(e);
        },
    };
    let q_value = match number_attr_exec(el, "Q") {
        Ok(q) => q,
        Err(e) => {
            return Err(e);
        },
    };
    let branching_ratio = match number_attr_exec(el, "branching_ratio") {
        Ok(b) => b,
        Err(e) => {
            return Err(e);
        },
    };
    Ok(ReactionChannel { mt, target, q_value, branching_ratio })
}

fn start_nuclide(el: &XmlElement) -> (r: Result<DecayNuclide, ChainXmlError>)
    ensures
        match r {
            Ok(n) => nuclide_of(el@) == Ok::<DecayNuclideView, ChainXmlErrorView>(n@),
            Err(e) => nuclide_of(el@) == Err::<DecayNuclideView, ChainXmlErrorView>(e@),
        },
{
    let name = match required_attr_exec(el, "name") {
        Ok(n) => n,
        Err(e) => {
            return Err(e);
        },
    };
    let half_life = match number_attr_exec(el, "half_life") {
        Ok(h) => h,
        Err(e) => {
            return Err(e);
        },
    };
    let decay_energy = match number_attr_exec(el, "decay_energy") {
        Ok(d) => d,
        Err(e) => {
            return Err(e);
        },
    };
    let mut n = DecayNuclide::new(name);
    n.half_life = half_life;
    n.decay_energy = decay_energy;
    Ok(n)
}

/// Check every whitespace-separated token of `s` is a real number;
/// returns the tokens, or the first one that is not.
fn number_tokens(s: &str) -> (r: Result<Vec<String>, ChainXmlError>)
    ensures
        r is Ok <==> first_non_number(ws_tokens(s@)) is None,
        r matches Ok(t) ==> texts(t@) == ws_tokens(s@),
        r matches Err(e) ==> e@ == ChainXmlErrorView::NotANumber(
            first_non_number(ws_tokens(s@))->0,
        ),
{
    let toks = split_whitespace(s);
    let ghost all = ws_tokens(s@);
    assert(texts(toks@) == all);
    let mut i: usize = 0;
    assert(all.skip(0) =~= all);
    while i < toks.len()
        invariant
            all == ws_tokens(s@),
            texts(toks@) == all,
            i <= toks@.len(),
            first_non_number(all) == first_non_number(all.skip(i as int)),
        decreases toks@.len() - i,
    {
        let ghost rest = all.skip(i as int);
        assert(rest[0] == toks@[i as int]@);
        assert(rest.drop_first() =~= all.skip(i + 1));
        if !is_real_number(toks[i].as_str()) {
            assert(first_non_number(rest) == Some(rest[0]));
            return Err(ChainXmlError::NotANumber(toks[i].clone()));
        }
        i += 1;
    }
    assert(all.skip(i as int) =~= Seq::<Seq<char>>::empty());
    Ok(toks)
}

/// Append `extra` to `v`.
fn append_strings(v: &mut Vec<String>, extra: Vec<String>)
    ensures
        texts(final(v)@) == texts(old(v)@) + texts(extra@),
{
    let mut extra = extra;
    let ghost ex = extra@;
    v.append(&mut extra);
    assert(texts(v@) =~= texts(old(v)@) + texts(ex));
}

/// The `chain.xml` reader: feed it the events of a document in order.
pub struct ChainParser {
    chain: DecayChain,
    current: Option<DecayNuclide>,
    in_yields: bool,
    tables: Vec<(String, YieldTable)>,
    energy: Option<String>,
    products: Vec<String>,
    data: Vec<String>,
    text_target: Option<TextTarget>,
}

pub open spec fn opt_nuclide_view(o: Option<DecayNuclide>) -> Option<DecayNuclideView> {
    match o {
        Some(n) => Some(n@),
        None => None,
    }
}

impl View for ChainParser {
    type V = ParserView;

    closed spec fn view(&self) -> ParserView {
        ParserView {
            chain: self.chain@,
            current: opt_nuclide_view(self.current),
            in_yields: self.in_yields,
            tables: self.tables@.map_values(
                |e: (String, YieldTable)| crate::decay::yield_entry_view(e),
            ),
            energy: crate::decay::opt_text(self.energy),
            products: texts(self.products@),
            data: texts(self.data@),
            text_target: self.text_target,
        }
    }
}

impl ChainParser {
    /// A reader that has seen no event yet.
    pub fn new() -> (p: Self)
        ensures
            p@ == initial_parser(),
    {
        let p = ChainParser {
            chain: DecayChain::new(),
            current: None,
            in_yields: false,
            tables: Vec::new(),
            energy: None,
            products: Vec::new(),
            data: Vec::new(),
            text_target: None,
        };
        assert(p@.tables =~= seq![]);
        assert(p@.products =~= seq![]);
        assert(p@.data =~= seq![]);
        p
    }

    /// Number of nuclides completed so far.
    pub fn chain_len(&self) -> (n: usize)
        ensures
            n == self@.chain.len(),
    {
        self.chain.len()
    }

    /// The nuclides completed so far.
    pub fn finish(self) -> (c: DecayChain)
        ensures
            c@ == self@.chain,
    {
        self.chain
    }

    fn add_decay_exec(&mut self, el: &XmlElement) -> (r: Result<(), ChainXmlError>)
        ensures
            match add_decay(old(self)@, el@) {
                Ok(q) => r is Ok && final(self)@ == q,
                Err(e) => r matches Err(x) && x@ == e,
            },
    {
        if self.current.is_some() {
            let m = match parse_decay(el) {
                Ok(m) => m,
                Err(e) => {
                    return Err(e);
                },
            };
            let mut cur = self.current.take().unwrap();
            let ghost before = cur@;
            cur.decay_modes.push(m);
            assert(cur@.decay_modes =~= before.decay_modes.push(m@));
            self.current = Some(cur);
            assert(add_decay(old(self)@, el@) == Ok::<ParserView, ChainXmlErrorView>(self@));
        }
        Ok(())
    }

    fn add_reaction_exec(&mut self, el: &XmlElement) -> (r: Result<(), ChainXmlError>)
        ensures
            match add_reaction(old(self)@, el@) {
                Ok(q) => r is Ok && final(self)@ == q,
                Err(e) => r matches Err(x) && x@ == e,
            },
    {
        if self.current.is_some() {
            let c = match parse_reaction(el) {
                Ok(c) => c,
                Err(e) => {
                    return Err(e);
                },
            };
            let mut cur = self.current.take().unwrap();
            let ghost before = cur@;
            cur.reactions.push(c);
            assert(cur@.reactions =~= before.reactions.push(c@));
            self.current = Some(cur);
            assert(add_reaction(old(self)@, el@) == Ok::<ParserView, ChainXmlErrorView>(self@));
        }
        Ok(())
    }

    fn on_start_exec(&mut self, el: &XmlElement) -> (r: Result<(), ChainXmlError>)
        ensures
            match on_start(old(self)@, el@) {
                Ok(q) => r is Ok && final(self)@ == q,
                Err(e) => r matches Err(x) && x@ == e,
            },
    {
        let name = &el.name;
        if bytes_are(name, "nuclide") {
            match start_nuclide(el) {
                Ok(n) => {
                    self.current = Some(n);
                    Ok(())
                },
                Err(e) => Err(e),
            }
        } else if bytes_are(name, "decay") {
            self.add_decay_exec(el)
        } else if bytes_are(name, "reaction") {
            self.add_reaction_exec(el)
        } else if bytes_are(name, "neutron_fission_yields") {
            self.in_yields = true;
            self.tables = Vec::new();
            assert(self@.tables =~= seq![]);
            Ok(())
        } else if bytes_are(name, "energies") && self.in_yields {
            self.text_target = Some(TextTarget::Energies);
            Ok(())
        } else if bytes_are(name, "fission_yields") && self.in_yields {
            match required_attr_exec(el, "energy") {
                Ok(en) => {
                    if !is_real_number(en.as_str()) {
                        return Err(ChainXmlError::NotANumber(en));
                    }
                    self.energy = Some(en);
                    self.products = Vec::new();
                    self.data = Vec::new();
                    assert(self@.products =~= seq![]);
                    assert(self@.data =~= seq![]);
                    Ok(())
                },
                Err(e) => Err(e),
            }
        } else if bytes_are(name, "products") && self.in_yields {
            self.text_target = Some(TextTarget::Products);
            Ok(())
        } else if bytes_are(name, "data") && self.in_yields {
            self.text_target = Some(TextTarget::Data);
            Ok(())
        } else {
            Ok(())
        }
    }

    fn on_empty_exec(&mut self, el: &XmlElement) -> (r: Result<(), ChainXmlError>)
        requires
            old(self)@.chain.len() < usize::MAX,
        ensures
            match on_empty(old(self)@, el@) {
                Ok(q) => r is Ok && final(self)@ == q,
                Err(e) => r matches Err(x) && x@ == e,
            },
    {
        if bytes_are(&el.name, "nuclide") {
            match start_nuclide(el) {
                Ok(n) => {
                    self.chain.push(n);
                    Ok(())
                },
                Err(e) => Err(e),
            }
        } else if bytes_are(&el.name, "decay") {
            self.add_decay_exec(el)
        } else if bytes_are(&el.name, "reaction") {
            self.add_reaction_exec(el)
        } else {
            Ok(())
        }
    }

    fn on_text_exec(&mut self, t: Result<String, quick_xml::Error>) -> (r: Result<(), ChainXmlError>)
        ensures
            match on_text(old(self)@, crate::xml::unescaped_view(t)) {
                Ok(q) => r is Ok && final(self)@ == q,
                Err(e) => r matches Err(x) && x@ == e,
            },
    {
        match self.text_target {
            None => Ok(()),
            Some(target) => {
                let s = match t {
                    Ok(s) => s,
                    Err(e) => {
                        return Err(ChainXmlError::Xml(e));
                    },
                };
                match target {
                    TextTarget::Products => {
                        let toks = split_whitespace(s.as_str());
                        append_strings(&mut self.products, toks);
                        Ok(())
                    },
                    TextTarget::Energies => match number_tokens(s.as_str()) {
                        Ok(_) => Ok(()),
                        Err(e) => Err(e),
                    },
                    TextTarget::Data => match number_tokens(s.as_str()) {
                        Ok(toks) => {
                            append_strings(&mut self.data, toks);
                            Ok(())
                        },
                        Err(e) => Err(e),
                    },
                }
            },
        }
    }

    fn on_end_exec(&mut self, name: &Vec<u8>) -> (r: Result<(), ChainXmlError>)
        requires
            old(self)@.chain.len() < usize::MAX,
        ensures
            match on_end(old(self)@, name@) {
                Ok(q) => r is Ok && final(self)@ == q,
                Err(e) => r matches Err(x) && x@ == e,
            },
    {
        if bytes_are(name, "nuclide") {
            match self.current.take() {
                Some(n) => {
                    self.chain.push(n);
                },
                None => {},
            }
            Ok(())
        } else if bytes_are(name, "fission_yields") && self.in_yields {
            match self.energy.take() {
                None => Ok(()),
                Some(en) => {
                    if self.products.len() != self.data.len() {
                        return Err(
                            ChainXmlError::YieldCountMismatch {
                                energy: en,
                                products: self.products.len(),
                                data: self.data.len(),
                            },
                        );
                    }
                    let mut products: Vec<String> = Vec::new();
                    let mut data: Vec<String> = Vec::new();
                    std::mem::swap(&mut products, &mut self.products);
                    std::mem::swap(&mut data, &mut self.data);
                    let ghost before = self@.tables;
                    self.tables.push((en, YieldTable { products, yields: data }));
                    assert(self@.tables =~= before.push(
                        (en@, YieldTableView { products: texts(products@), yields: texts(data@) }),
                    ));
                    assert(self@.products =~= seq![]);
                    assert(self@.data =~= seq![]);
                    Ok(())
                },
            }
        } else if bytes_are(name, "neutron_fission_yields") {
            self.in_yields = false;
            if self.current.is_some() {
                let mut tables: Vec<(String, YieldTable)> = Vec::new();
                std::mem::swap(&mut tables, &mut self.tables);
                let mut cur = self.current.take().unwrap();
                cur.fission_yields = Some(FissionYields { tables });
                self.current = Some(cur);
                assert(self@.tables =~= seq![]);
            }
            Ok(())
        } else if bytes_are(name, "energies") || bytes_are(name, "products") || bytes_are(
            name,
            "data",
        ) {
            self.text_target = None;
            Ok(())
        } else {
            Ok(())
        }
    }

    /// Apply one event of the document. The chain may hold at most
    /// `usize::MAX` nuclides.
    pub fn feed(&mut self, ev: XmlEvent) -> (r: Result<(), ChainXmlError>)
        requires
            old(self)@.chain.len() < usize::MAX,
        ensures
            match step(old(self)@, ev@) {
                Ok(q) => r is Ok && final(self)@ == q,
                Err(e) => r matches Err(x) && x@ == e,
            },
            r is Ok ==> final(self)@.chain.len() <= old(self)@.chain.len() + 1,
    {
        proof {
            lemma_step_grows_chain_by_at_most_one(self@, ev@);
        }
        match ev {
            XmlEvent::Start(el) => self.on_start_exec(&el),
            XmlEvent::Empty(el) => self.on_empty_exec(&el),
            XmlEvent::Text(t) => self.on_text_exec(t),
            XmlEvent::End(name) => self.on_end_exec(&name),
            XmlEvent::Eof => Ok(()),
            XmlEvent::Other => Ok(()),
        }
    }
}

/// Parse an OpenMC depletion chain from the bytes of a `chain.xml`
/// document.
pub fn parse_chain_xml(input: &[u8]) -> (r: Result<DecayChain, ChainXmlError>)
    ensures
        chain_result_view(r) == parse_chain_spec(input@),
{
    let mut reader = XmlEventReader::new(input);
    let mut parser = ChainParser::new();
    let n = input.len();
    let mut k: usize = 0;
    loop
        invariant
            reader.input() == input@,
            !reader.stopped(),
            reader.count() == k,
            k <= n,
            n == input@.len(),
            parser@.chain.len() <= k,
            run(input@, 0, initial_parser(), n as nat) == run(input@, k as nat, parser@, (n - k) as nat),
        decreases n - k,
    {
        let ev = match reader.read_event() {
            Ok(ev) => ev,
            Err(e) => {
                return Err(ChainXmlError::Xml(e));
            },
        };
        if let XmlEvent::Eof = ev {
            return Ok(parser.finish());
        }
        assert(k < n);
        let ghost evv = ev@;
        match parser.feed(ev) {
            Ok(()) => {},
            Err(e) => {
                return Err(e);
            },
        }
        k += 1;
    }
}

} // verus!
