use vstd::prelude::*;
use crate::markup::{attrs_view, markup_tokens, tokenize, tokens_view, AttrsView, Element, Token, TokenView};
use crate::models::{BioModelData, Compartment, Parameter, Reaction, Species};

verus! {

/// Why a document could not be loaded.
#[derive(Clone, Debug, PartialEq)]
pub enum ParserError {
    /// The markup itself is malformed: a tokenizer failure, or a name,
    /// attribute or text that could not be decoded.
    XmlError(String),
    /// A structural violation of the network format.
    InvalidStructure(String),
}

/// The list wrapper that the loader is inside of.
#[derive(PartialEq, Eq, Structural, Clone, Copy, Debug)]
pub enum Section {
    Outside,
    Compartments,
    SpeciesList,
    Parameters,
    Reactions,
}

pub struct CompartmentView {
    pub id: Seq<char>,
    pub name: Seq<char>,
}

pub struct SpeciesView {
    pub id: Seq<char>,
    pub name: Seq<char>,
    pub compartment: Seq<char>,
    pub initial_concentration: Seq<char>,
}

pub struct ReactionView {
    pub id: Seq<char>,
    pub name: Seq<char>,
    pub reactants: Seq<Seq<char>>,
    pub products: Seq<Seq<char>>,
    pub kinetic_law: Seq<char>,
}

pub struct ParameterView {
    pub id: Seq<char>,
    pub value: Seq<char>,
    pub constant: bool,
}

/// A loaded network, with each value as the text of its attribute.
pub struct ModelView {
    pub compartments: Seq<CompartmentView>,
    pub species: Seq<SpeciesView>,
    pub reactions: Seq<ReactionView>,
    pub parameters: Seq<ParameterView>,
}

/// A reaction whose children are being read.
pub struct DraftView {
    pub id: Seq<char>,
    pub name: Seq<char>,
    pub reactants: Seq<Seq<char>>,
    pub products: Seq<Seq<char>>,
    pub kinetic_law: Seq<char>,
    pub in_reactants: bool,
    pub in_products: bool,
    pub in_kinetic_law: bool,
}

pub struct LoaderView {
    pub section: Section,
    pub draft: Option<DraftView>,
    pub model: ModelView,
}

pub open spec fn texts(s: Seq<String>) -> Seq<Seq<char>> {
    s.map_values(|x: String| x@)
}

impl View for Compartment {
    type V = CompartmentView;

    open spec fn view(&self) -> CompartmentView {
        CompartmentView { id: self.id@, name: self.name@ }
    }
}

impl View for Species<String> {
    type V = SpeciesView;

    open spec fn view(&self) -> SpeciesView {
        SpeciesView {
            id: self.id@,
            name: self.name@,
            compartment: self.compartment@,
            initial_concentration: self.initial_concentration@,
        }
    }
}

impl View for Reaction {
    type V = ReactionView;

    open spec fn view(&self) -> ReactionView {
        ReactionView {
            id: self.id@,
            name: self.name@,
            reactants: texts(self.reactants@),
            products: texts(self.products@),
            kinetic_law: self.kinetic_law@,
        }
    }
}

impl View for Parameter<String> {
    type V = ParameterView;

    open spec fn view(&self) -> ParameterView {
        ParameterView { id: self.id@, value: self.value@, constant: self.constant }
    }
}

impl View for BioModelData<String> {
    type V = ModelView;

    open spec fn view(&self) -> ModelView {
        ModelView {
            compartments: self.compartments@.map_values(|c: Compartment| c@),
            species: self.species@.map_values(|s: Species<String>| s@),
            reactions: self.reactions@.map_values(|r: Reaction| r@),
            parameters: self.parameters@.map_values(|p: Parameter<String>| p@),
        }
    }
}

/// The value of the last attribute whose key is `k1` or `k2`.
pub open spec fn attr_last(a: AttrsView, k1: Seq<char>, k2: Seq<char>) -> Option<Seq<char>>
    decreases a.len(),
{
    if a.len() == 0 {
        None
    } else if a.last().0 == k1 || a.last().0 == k2 {
        Some(a.last().1)
    } else {
        attr_last(a.drop_last(), k1, k2)
    }
}

/// The value of the last attribute with key `k`, or the empty text.
pub open spec fn attr_text(a: AttrsView, k: Seq<char>) -> Seq<char> {
    match attr_last(a, k, k) {
        Some(v) => v,
        None => Seq::empty(),
    }
}

pub open spec fn compartment_of(a: AttrsView) -> Option<CompartmentView> {
    let id = attr_text(a, "id"@);
    if id.len() == 0 {
        None
    } else {
        Some(CompartmentView { id, name: attr_text(a, "name"@) })
    }
}

/// A species: its name falls back to its id; its initial concentration is
/// the later of `initialAmount` and `initialConcentration`.
pub open spec fn species_of(a: AttrsView) -> Option<SpeciesView> {
    let id = attr_text(a, "id"@);
    let name = attr_text(a, "name"@);
    if id.len() == 0 {
        None
    } else {
        Some(SpeciesView {
            id,
            name: if name.len() == 0 { id } else { name },
            compartment: attr_text(a, "compartment"@),
            initial_concentration: match attr_last(a, "initialAmount"@, "initialConcentration"@) {
                Some(v) => v,
                None => Seq::empty(),
            },
        })
    }
}

/// A parameter: constant unless marked exactly `false`.
pub open spec fn parameter_of(a: AttrsView) -> Option<ParameterView> {
    let id = attr_text(a, "id"@);
    if id.len() == 0 {
        None
    } else {
        Some(ParameterView {
            id,
            value: attr_text(a, "value"@),
            constant: match attr_last(a, "constant"@, "constant"@) {
                Some(v) => v != "false"@,
                None => true,
            },
        })
    }
}

pub open spec fn opened(a: AttrsView) -> DraftView {
    DraftView {
        id: attr_text(a, "id"@),
        name: attr_text(a, "name"@),
        reactants: Seq::empty(),
        products: Seq::empty(),
        kinetic_law: Seq::empty(),
        in_reactants: false,
        in_products: false,
        in_kinetic_law: false,
    }
}

/// The reaction a finished draft yields: none without an id; its name
/// falls back to its id.
pub open spec fn finished(d: DraftView) -> Option<ReactionView> {
    if d.id.len() == 0 {
        None
    } else {
        Some(ReactionView {
            id: d.id,
            name: if d.name.len() == 0 { d.id } else { d.name },
            reactants: d.reactants,
            products: d.products,
            kinetic_law: d.kinetic_law,
        })
    }
}

pub open spec fn push_some<T>(s: Seq<T>, x: Option<T>) -> Seq<T> {
    match x {
        Some(v) => s.push(v),
        None => s,
    }
}

/// A species reference joins the reactants while inside the reactant list,
/// else the products while inside the product list.
pub open spec fn with_reference(d: DraftView, a: AttrsView) -> DraftView {
    match attr_last(a, "species"@, "species"@) {
        Some(x) => if d.in_reactants {
            DraftView { reactants: d.reactants.push(x), ..d }
        } else if d.in_products {
            DraftView { products: d.products.push(x), ..d }
        } else {
            d
        },
        None => d,
    }
}

/// The state once the open reaction is finished.
pub open spec fn closed(s: LoaderView) -> LoaderView {
    match s.draft {
        Some(d) => LoaderView {
            section: s.section,
            draft: None,
            model: ModelView { reactions: push_some(s.model.reactions, finished(d)), ..s.model },
        },
        None => s,
    }
}

pub open spec fn with_draft(s: LoaderView, d: DraftView) -> LoaderView {
    LoaderView { draft: Some(d), ..s }
}

/// A token read inside a reaction. `None` is a decoding failure.
pub open spec fn reaction_step(s: LoaderView, d: DraftView, t: TokenView) -> Option<LoaderView> {
    match t {
        TokenView::Start(e) => if e.name == "listOfReactants"@ {
            Some(with_draft(s, DraftView { in_reactants: true, ..d }))
        } else if e.name == "listOfProducts"@ {
            Some(with_draft(s, DraftView { in_products: true, ..d }))
        } else if e.name == "kineticLaw"@ {
            Some(with_draft(s, DraftView { in_kinetic_law: true, ..d }))
        } else if e.name == "speciesReference"@ {
            match e.attributes {
                Some(a) => Some(with_draft(s, with_reference(d, a))),
                None => None,
            }
        } else {
            Some(s)
        },
        TokenView::Empty(e) => if e.name == "speciesReference"@ {
            match e.attributes {
                Some(a) => Some(with_draft(s, with_reference(d, a))),
                None => None,
            }
        } else {
            Some(s)
        },
        TokenView::End(n) => if n == "listOfReactants"@ {
            Some(with_draft(s, DraftView { in_reactants: false, ..d }))
        } else if n == "listOfProducts"@ {
            Some(with_draft(s, DraftView { in_products: false, ..d }))
        } else if n == "kineticLaw"@ {
            Some(with_draft(s, DraftView { in_kinetic_law: false, ..d }))
        } else if n == "reaction"@ {
            Some(closed(s))
        } else {
            Some(s)
        },
        TokenView::Text(x) => if d.in_kinetic_law {
            match x {
                Some(x) => Some(with_draft(s, DraftView { kinetic_law: d.kinetic_law + x, ..d })),
                None => None,
            }
        } else {
            Some(s)
        },
        TokenView::Eof => Some(closed(s)),
        TokenView::Other => Some(s),
    }
}

pub open spec fn with_section(s: LoaderView, section: Section) -> LoaderView {
    LoaderView { section, ..s }
}

pub open spec fn with_model(s: LoaderView, model: ModelView) -> LoaderView {
    LoaderView { model, ..s }
}

/// An element met outside any reaction: a list wrapper sets the section; an
/// entry of the current section is read; anything else is passed over.
pub open spec fn element_step(s: LoaderView, e: crate::markup::ElementView, start: bool) -> Option<LoaderView> {
    let m = s.model;
    if e.name == "listOfCompartments"@ {
        Some(with_section(s, Section::Compartments))
    } else if e.name == "listOfSpecies"@ {
        Some(with_section(s, Section::SpeciesList))
    } else if e.name == "listOfParameters"@ {
        Some(with_section(s, Section::Parameters))
    } else if e.name == "listOfReactions"@ {
        Some(with_section(s, Section::Reactions))
    } else if e.name == "compartment"@ && s.section == Section::Compartments {
        match e.attributes {
            Some(a) => Some(with_model(s, ModelView {
                compartments: push_some(m.compartments, compartment_of(a)), ..m })),
            None => None,
        }
    } else if e.name == "species"@ && s.section == Section::SpeciesList {
        match e.attributes {
            Some(a) => Some(with_model(s, ModelView { species: push_some(m.species, species_of(a)), ..m })),
            None => None,
        }
    } else if e.name == "parameter"@ && s.section == Section::Parameters {
        match e.attributes {
            Some(a) => Some(with_model(s, ModelView {
                parameters: push_some(m.parameters, parameter_of(a)), ..m })),
            None => None,
        }
    } else if e.name == "reaction"@ && s.section == Section::Reactions {
        match e.attributes {
            Some(a) => if start {
                Some(with_draft(s, opened(a)))
            } else {
                Some(closed(with_draft(s, opened(a))))
            },
            None => None,
        }
    } else {
        Some(s)
    }
}

/// The end tag of the current section's own wrapper leaves that section.
pub open spec fn ends_section(section: Section, n: Seq<char>) -> bool {
    match section {
        Section::Outside => false,
        Section::Compartments => n == "listOfCompartments"@,
        Section::SpeciesList => n == "listOfSpecies"@,
        Section::Parameters => n == "listOfParameters"@,
        Section::Reactions => n == "listOfReactions"@,
    }
}

/// One token of the document. `None` is a decoding failure.
pub open spec fn load_step(s: LoaderView, t: TokenView) -> Option<LoaderView> {
    match s.draft {
        Some(d) => reaction_step(s, d, t),
        None => match t {
            TokenView::Start(e) => element_step(s, e, true),
            TokenView::Empty(e) => element_step(s, e, false),
            TokenView::End(n) => if ends_section(s.section, n) {
                Some(with_section(s, Section::Outside))
            } else {
                Some(s)
            },
            _ => Some(s),
        },
    }
}

pub open spec fn initial_state() -> LoaderView {
    LoaderView {
        section: Section::Outside,
        draft: None,
        model: ModelView {
            compartments: Seq::empty(),
            species: Seq::empty(),
            reactions: Seq::empty(),
            parameters: Seq::empty(),
        },
    }
}

/// The state after reading `ts` from the start.
pub open spec fn load_prefix(ts: Seq<TokenView>) -> Option<LoaderView>
    decreases ts.len(),
{
    if ts.len() == 0 {
        Some(initial_state())
    } else {
        match load_prefix(ts.drop_last()) {
            Some(s) => load_step(s, ts.last()),
            None => None,
        }
    }
}

/// The network that the tokens `ts` describe, or `None` where one of them
/// could not be decoded. A reaction still open at the end is finished.
pub open spec fn loaded(ts: Seq<TokenView>) -> Option<ModelView> {
    match load_prefix(ts) {
        Some(s) => Some(closed(s).model),
        None => None,
    }
}

pub open spec fn opt_text(o: Option<String>) -> Option<Seq<char>> {
    match o {
        Some(v) => Some(v@),
        None => None,
    }
}

/// Whether `s` is the text `lit`.
fn text_is(s: &String, lit: &str) -> (r: bool)
    ensures
        r == (s@ == lit@),
{
    *s == String::from_str(lit)
}

/// Whether `n` is the end tag of the wrapper of `section`.
fn closes_section(section: Section, n: &String) -> (r: bool)
    ensures
        r == ends_section(section, n@),
{
    match section {
        Section::Outside => false,
        Section::Compartments => text_is(n, "listOfCompartments"),
        Section::SpeciesList => text_is(n, "listOfSpecies"),
        Section::Parameters => text_is(n, "listOfParameters"),
        Section::Reactions => text_is(n, "listOfReactions"),
    }
}

/// The value of the last attribute whose key is `k1` or `k2`.
fn last_attr(a: &Vec<(String, String)>, k1: &str, k2: &str) -> (r: Option<String>)
    ensures
        opt_text(r) == attr_last(attrs_view(a@), k1@, k2@),
{
    let key1 = String::from_str(k1);
    let key2 = String::from_str(k2);
    let mut r: Option<String> = None;
    let mut i: usize = 0;
    while i < a.len()
        invariant
            i <= a@.len(),
            key1@ == k1@,
            key2@ == k2@,
            opt_text(r) == attr_last(attrs_view(a@.take(i as int)), k1@, k2@),
        decreases a@.len() - i,
    {
        proof {
            assert(attrs_view(a@.take(i as int + 1)).drop_last() =~= attrs_view(a@.take(i as int)));
        }
        if a[i].0 == key1 || a[i].0 == key2 {
            r = Some(a[i].1.clone());
        }
        i = i + 1;
    }
    assert(a@.take(a@.len() as int) =~= a@);
    r
}

/// The value of the last attribute with key `k`, or the empty text.
fn attr_value(a: &Vec<(String, String)>, k: &str) -> (r: String)
    ensures
        r@ == attr_text(attrs_view(a@), k@),
{
    match last_attr(a, k, k) {
        Some(v) => v,
        None => String::new(),
    }
}

fn compartment_from(a: &Vec<(String, String)>) -> (r: Option<Compartment>)
    ensures
        r matches Some(c) ==> compartment_of(attrs_view(a@)) == Some(c@),
        r is None ==> compartment_of(attrs_view(a@)) is None,
{
    let id = attr_value(a, "id");
    if id.as_str().is_empty() {
        None
    } else {
        Some(Compartment { id, name: attr_value(a, "name") })
    }
}

fn species_from(a: &Vec<(String, String)>) -> (r: Option<Species<String>>)
    ensures
        r matches Some(s) ==> species_of(attrs_view(a@)) == Some(s@),
        r is None ==> species_of(attrs_view(a@)) is None,
{
    let id = attr_value(a, "id");
    if id.as_str().is_empty() {
        return None;
    }
    let given = attr_value(a, "name");
    let name = if given.as_str().is_empty() { id.clone() } else { given };
    let initial_concentration = match last_attr(a, "initialAmount", "initialConcentration") {
        Some(v) => v,
        None => String::new(),
    };
    Some(Species { id, name, compartment: attr_value(a, "compartment"), initial_concentration })
}

fn parameter_from(a: &Vec<(String, String)>) -> (r: Option<Parameter<String>>)
    ensures
        r matches Some(p) ==> parameter_of(attrs_view(a@)) == Some(p@),
        r is None ==> parameter_of(attrs_view(a@)) is None,
{
    let id = attr_value(a, "id");
    if id.as_str().is_empty() {
        return None;
    }
    let constant = match last_attr(a, "constant", "constant") {
        Some(v) => !text_is(&v, "false"),
        None => true,
    };
    Some(Parameter { id, value: attr_value(a, "value"), constant })
}

/// A reaction whose children are being read.
struct ReactionDraft {
    id: String,
    name: String,
    reactants: Vec<String>,
    products: Vec<String>,
    kinetic_law: String,
    in_reactants: bool,
    in_products: bool,
    in_kinetic_law: bool,
}

impl View for ReactionDraft {
    type V = DraftView;

    closed spec fn view(&self) -> DraftView {
        DraftView {
            id: self.id@,
            name: self.name@,
            reactants: texts(self.reactants@),
            products: texts(self.products@),
            kinetic_law: self.kinetic_law@,
            in_reactants: self.in_reactants,
            in_products: self.in_products,
            in_kinetic_law: self.in_kinetic_law,
        }
    }
}

impl ReactionDraft {
    fn open(a: &Vec<(String, String)>) -> (r: ReactionDraft)
        ensures
            r@ == opened(attrs_view(a@)),
    {
        let r = ReactionDraft {
            id: attr_value(a, "id"),
            name: attr_value(a, "name"),
            reactants: Vec::new(),
            products: Vec::new(),
            kinetic_law: String::new(),
            in_reactants: false,
            in_products: false,
            in_kinetic_law: false,
        };
        assert(texts(r.reactants@) =~= Seq::empty());
        assert(texts(r.products@) =~= Seq::empty());
        assert(r.kinetic_law@ =~= Seq::empty());
        r
    }

    fn blank() -> ReactionDraft {
        ReactionDraft {
            id: String::new(),
            name: String::new(),
            reactants: Vec::new(),
            products: Vec::new(),
            kinetic_law: String::new(),
            in_reactants: false,
            in_products: false,
            in_kinetic_law: false,
        }
    }
}

/// The loader's state: the current section, the reaction being read, and
/// the network read so far.
struct Loader {
    section: Section,
    in_reaction: bool,
    draft: ReactionDraft,
    model: BioModelData<String>,
}

impl View for Loader {
    type V = LoaderView;

    closed spec fn view(&self) -> LoaderView {
        LoaderView {
            section: self.section,
            draft: if self.in_reaction { Some(self.draft@) } else { None },
            model: self.model@,
        }
    }
}

impl Loader {
    fn new() -> (r: Loader)
        ensures
            r@ == initial_state(),
    {
        let r = Loader {
            section: Section::Outside,
            in_reaction: false,
            draft: ReactionDraft::blank(),
            model: BioModelData::new(),
        };
        assert(r.model@.compartments =~= Seq::empty());
        assert(r.model@.species =~= Seq::empty());
        assert(r.model@.reactions =~= Seq::empty());
        assert(r.model@.parameters =~= Seq::empty());
        r
    }

    /// Finishes the open reaction, if any.
    fn close(&mut self)
        ensures
            final(self)@ == closed(old(self)@),
    {
        if self.in_reaction {
            self.in_reaction = false;
            let mut d = ReactionDraft::blank();
            std::mem::swap(&mut d, &mut self.draft);
            if !d.id.as_str().is_empty() {
                let name = if d.name.as_str().is_empty() { d.id.clone() } else { d.name };
                let r = Reaction {
                    id: d.id,
                    name,
                    reactants: d.reactants,
                    products: d.products,
                    kinetic_law: d.kinetic_law,
                };
                self.model.reactions.push(r);
            }
            assert(self.model@.reactions =~= closed(old(self)@).model.reactions);
        }
    }

    /// Reads a species reference of the open reaction.
    fn reference(&mut self, e: &Element) -> (r: Result<(), ParserError>)
        requires
            old(self).in_reaction,
        ensures
            final(self).in_reaction,
            r matches Ok(_) ==> e@.attributes matches Some(a)
                && final(self)@ == with_draft(old(self)@, with_reference(old(self)@.draft->0, a)),
            r matches Err(x) ==> e@.attributes is None && x is XmlError,
    {
        match &e.attributes {
            Ok(a) => {
                let ghost d = old(self).draft;
                if let Some(x) = last_attr(a, "species", "species") {
                    if self.draft.in_reactants {
                        self.draft.reactants.push(x);
                        assert(texts(self.draft.reactants@) =~= texts(d.reactants@).push(x@));
                    } else if self.draft.in_products {
                        self.draft.products.push(x);
                        assert(texts(self.draft.products@) =~= texts(d.products@).push(x@));
                    }
                }
                assert(self.draft@ =~= with_reference(old(self)@.draft->0, attrs_view(a@)));
                Ok(())
            },
            Err(m) => Err(ParserError::XmlError(m.clone())),
        }
    }

    /// Reads a token inside the open reaction.
    fn reaction_token(&mut self, t: &Token) -> (r: Result<(), ParserError>)
        requires
            old(self).in_reaction,
        ensures
            r matches Ok(_) ==> reaction_step(old(self)@, old(self)@.draft->0, t@) == Some(final(self)@),
            r matches Err(x) ==> reaction_step(old(self)@, old(self)@.draft->0, t@) is None && x is XmlError,
    {
        match t {
            Token::Start(e) => {
                if text_is(&e.name, "listOfReactants") {
                    self.draft.in_reactants = true;
                } else if text_is(&e.name, "listOfProducts") {
                    self.draft.in_products = true;
                } else if text_is(&e.name, "kineticLaw") {
                    self.draft.in_kinetic_law = true;
                } else if text_is(&e.name, "speciesReference") {
                    return self.reference(e);
                }
                Ok(())
            },
            Token::Empty(e) => {
                if text_is(&e.name, "speciesReference") {
                    return self.reference(e);
                }
                Ok(())
            },
            Token::End(n) => {
                if text_is(n, "listOfReactants") {
                    self.draft.in_reactants = false;
                } else if text_is(n, "listOfProducts") {
                    self.draft.in_products = false;
                } else if text_is(n, "kineticLaw") {
                    self.draft.in_kinetic_law = false;
                } else if text_is(n, "reaction") {
                    self.close();
                }
                Ok(())
            },
            Token::Text(x) => {
                if self.draft.in_kinetic_law {
                    match x {
                        Ok(x) => {
                            self.draft.kinetic_law.append(x.as_str());
                        },
                        Err(m) => {
                            return Err(ParserError::XmlError(m.clone()));
                        },
                    }
                }
                Ok(())
            },
            Token::Eof => {
                self.close();
                Ok(())
            },
            Token::Other => Ok(()),
        }
    }

    /// Reads an element met outside any reaction.
    fn element(&mut self, e: &Element, start: bool) -> (r: Result<(), ParserError>)
        requires
            !old(self).in_reaction,
        ensures
            r matches Ok(_) ==> element_step(old(self)@, e@, start) == Some(final(self)@),
            r matches Err(x) ==> element_step(old(self)@, e@, start) is None && x is XmlError,
    {
        let ghost m = old(self).model@;
        if text_is(&e.name, "listOfCompartments") {
            self.section = Section::Compartments;
        } else if text_is(&e.name, "listOfSpecies") {
            self.section = Section::SpeciesList;
        } else if text_is(&e.name, "listOfParameters") {
            self.section = Section::Parameters;
        } else if text_is(&e.name, "listOfReactions") {
            self.section = Section::Reactions;
        } else if text_is(&e.name, "compartment") && self.section == Section::Compartments {
            match &e.attributes {
                Ok(a) => {
                    if let Some(c) = compartment_from(a) {
                        self.model.compartments.push(c);
                    }
                    assert(self.model@.compartments
                        =~= push_some(m.compartments, compartment_of(attrs_view(a@))));
                },
                Err(x) => {
                    return Err(ParserError::XmlError(x.clone()));
                },
            }
        } else if text_is(&e.name, "species") && self.section == Section::SpeciesList {
            match &e.attributes {
                Ok(a) => {
                    if let Some(sp) = species_from(a) {
                        self.model.species.push(sp);
                    }
                    assert(self.model@.species =~= push_some(m.species, species_of(attrs_view(a@))));
                },
                Err(x) => {
                    return Err(ParserError::XmlError(x.clone()));
                },
            }
        } else if text_is(&e.name, "parameter") && self.section == Section::Parameters {
            match &e.attributes {
                Ok(a) => {
                    if let Some(p) = parameter_from(a) {
                        self.model.parameters.push(p);
                    }
                    assert(self.model@.parameters
                        =~= push_some(m.parameters, parameter_of(attrs_view(a@))));
                },
                Err(x) => {
                    return Err(ParserError::XmlError(x.clone()));
                },
            }
        } else if text_is(&e.name, "reaction") && self.section == Section::Reactions {
            match &e.attributes {
                Ok(a) => {
                    self.draft = ReactionDraft::open(a);
                    self.in_reaction = true;
                    if !start {
                        self.close();
                    }
                },
                Err(x) => {
                    return Err(ParserError::XmlError(x.clone()));
                },
            }
        }
        Ok(())
    }

    /// Reads one token.
    fn step(&mut self, t: &Token) -> (r: Result<(), ParserError>)
        ensures
            r matches Ok(_) ==> load_step(old(self)@, t@) == Some(final(self)@),
            r matches Err(x) ==> load_step(old(self)@, t@) is None && x is XmlError,
    {
        if self.in_reaction {
            return self.reaction_token(t);
        }
        match t {
            Token::Start(e) => self.element(e, true),
            Token::Empty(e) => self.element(e, false),
            Token::End(n) => {
                if closes_section(self.section, n) {
                    self.section = Section::Outside;
                }
                Ok(())
            },
            _ => Ok(()),
        }
    }
}

proof fn lemma_failure_persists(ts: Seq<TokenView>, j: int)
    requires
        0 <= j <= ts.len(),
        load_prefix(ts.take(j)) is None,
    ensures
        load_prefix(ts) is None,
    decreases ts.len(),
{
    if j == ts.len() {
        assert(ts.take(j) =~= ts);
    } else {
        assert(ts.drop_last().take(j) =~= ts.take(j));
        lemma_failure_persists(ts.drop_last(), j);
    }
}

/// Loads a network from its markup tokens, in one forward pass. Fails
/// exactly where a token that the loader interprets could not be decoded.
pub fn load_tokens(tokens: &Vec<Token>) -> (r: Result<BioModelData<String>, ParserError>)
    ensures
        r matches Ok(m) ==> loaded(tokens_view(tokens@)) == Some(m@),
        r matches Err(x) ==> loaded(tokens_view(tokens@)) is None && x is XmlError,
{
    let ghost vs = tokens_view(tokens@);
    let mut st = Loader::new();
    let mut k: usize = 0;
    while k < tokens.len()
        invariant
            k <= tokens@.len(),
            vs == tokens_view(tokens@),
            load_prefix(vs.take(k as int)) == Some(st@),
        decreases tokens@.len() - k,
    {
        proof {
            assert(vs.take(k as int + 1).drop_last() =~= vs.take(k as int));
        }
        match st.step(&tokens[k]) {
            Ok(()) => {},
            Err(e) => {
                proof {
                    lemma_failure_persists(vs, k as int + 1);
                }
                return Err(e);
            },
        }
        k = k + 1;
    }
    assert(vs.take(k as int) =~= vs);
    st.close();
    Ok(st.model)
}

/// Loads a network from markup text: the network that the document's
/// events describe. It fails, always with a markup error, exactly where the
/// tokenizer fails or an event that the loader interprets cannot be decoded;
/// no partial network is returned.
pub fn parse_sbml(content: &str) -> (r: Result<BioModelData<String>, ParserError>)
    ensures
        r matches Ok(m) ==> (markup_tokens(content@) matches Some(ts) && loaded(ts) == Some(m@)),
        r is Err <==> (markup_tokens(content@) is None || loaded(markup_tokens(content@)->0) is None),
        r matches Err(x) ==> x is XmlError,
{
    match tokenize(content) {
        Ok(tokens) => load_tokens(&tokens),
        Err(m) => Err(ParserError::XmlError(m)),
    }
}

} // verus!
