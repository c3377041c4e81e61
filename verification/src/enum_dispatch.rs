//! The expansion pipeline: validate the sum type's shape, parse its
//! attributes, analyze its variants, and synthesize the capability
//! implementation and the conversion constructors.
//!
//! `expand_spec` is the mathematical definition of the whole pipeline;
//! `expand` is the executable entry point, proved to return exactly what
//! `expand_spec` says, for every input.

use vstd::prelude::*;
use crate::token::{Tok, Token, toks_of, str_is};
use crate::attrs::{
    AttrFault, ContainerAttribute, FnArgModifier, FunctionAttribute, FunctionAttributeV,
    FunctionParam, FunctionParamV, TypeText, VariantAttribute, clone_string, clone_type_text,
    named_args_from, named_params_from, parse_container, parse_function, parse_variant_attr,
};

verus! {

// ---------------------------------------------------------------------------
// The input: a structured sum type declaration
// ---------------------------------------------------------------------------

/// One attribute as the host hands it over: the name of its path (such as
/// `enum_dispatch` or `function`) and its body as a token sequence.
#[derive(Debug, PartialEq)]
pub struct RawAttribute {
    pub path: String,
    pub tokens: Vec<Token>,
}

/// The declared shape of a variant: no fields, named fields, or unnamed
/// fields with their payload types given as opaque text.
#[derive(Debug, PartialEq)]
pub enum FieldsShape {
    Unit,
    Named,
    Unnamed(Vec<String>),
}

/// One declared variant: its name, its field shape, and its attributes.
#[derive(Debug, PartialEq)]
pub struct VariantDeclaration {
    pub name: String,
    pub fields: FieldsShape,
    pub attrs: Vec<RawAttribute>,
}

/// The body of the annotated declaration. Only an `Enum` body can be
/// expanded.
#[derive(Debug, PartialEq)]
pub enum DeclData {
    Enum(Vec<VariantDeclaration>),
    Struct,
    Union,
}

/// The whole annotated declaration: its name, its attributes, and its body.
#[derive(Debug, PartialEq)]
pub struct SumTypeDeclaration {
    pub name: String,
    pub attrs: Vec<RawAttribute>,
    pub data: DeclData,
}

// ---------------------------------------------------------------------------
// Errors
// ---------------------------------------------------------------------------

/// Which attribute an error is anchored to: the container attribute, the
/// function attribute at an index of the declaration's attribute list, or
/// the attribute of the variant at an index of the variant list.
#[derive(Clone, Copy, PartialEq, Eq, Debug)]
pub enum AttrSource {
    Container,
    Function(usize),
    Variant(usize),
}

/// The structured error of a failed expansion. `pos` fields index the token
/// the parser stopped at, as a diagnostic anchor.
#[derive(Clone, Copy, PartialEq, Eq, Debug)]
pub enum ExpandError {
    /// The declaration is not an enum (`variant: None`), or the variant at
    /// this index does not have exactly one unnamed field.
    ShapeError { variant: Option<usize> },
    /// No container attribute was found.
    MissingAttributeError,
    /// An attribute body is malformed.
    GrammarError { source: AttrSource, pos: usize },
    /// The first parameter of the function attribute at this index of the
    /// attribute list is missing or is not a recognized receiver form.
    ReceiverError { attr: usize },
}

impl ExpandError {
    /// A human-readable description of the error.
    pub fn message(&self) -> (r: &'static str)
        ensures
            (*self matches ExpandError::ShapeError { variant: Some(_) } ==> r@
                == "EnumDispatch only works with exactly one unnamed field per variant"@),
            (*self matches ExpandError::ShapeError { variant: None } ==> r@
                == "EnumDispatch only works with enums"@),
            (*self matches ExpandError::MissingAttributeError ==> r@
                == "EnumDispatch requires a container attribute"@),
            (*self matches ExpandError::GrammarError { .. } ==> r@
                == "malformed attribute body"@),
            (*self matches ExpandError::ReceiverError { .. } ==> r@
                == "expected a receiver parameter"@),
    {
        match self {
            ExpandError::ShapeError { variant: Some(_) } => "EnumDispatch only works with exactly one unnamed field per variant",
            ExpandError::ShapeError { variant: None } => "EnumDispatch only works with enums",
            ExpandError::MissingAttributeError => "EnumDispatch requires a container attribute",
            ExpandError::GrammarError { .. } => "malformed attribute body",
            ExpandError::ReceiverError { .. } => "expected a receiver parameter",
        }
    }
}

// ---------------------------------------------------------------------------
// Variant analysis
// ---------------------------------------------------------------------------

/// Mathematical value of a variant descriptor.
pub struct ParsedVariantsV {
    pub name: Seq<char>,
    pub variant_type: Seq<char>,
    pub attributes: VariantAttribute,
}

/// The canonical descriptor of one variant: its name, its payload type, and
/// its parsed attribute flags.
#[derive(Debug, PartialEq)]
pub struct ParsedVariants {
    pub name: String,
    pub variant_type: String,
    pub attributes: VariantAttribute,
}

impl View for ParsedVariants {
    type V = ParsedVariantsV;

    open spec fn view(&self) -> ParsedVariantsV {
        ParsedVariantsV {
            name: self.name@,
            variant_type: self.variant_type@,
            attributes: self.attributes,
        }
    }
}

/// What can go wrong with one variant: a bad field shape, or a malformed
/// attribute body (with the token the parser stopped at).
#[derive(Clone, Copy, PartialEq, Eq, Debug)]
pub enum VariantFault {
    Shape,
    Grammar { pos: usize },
}

/// True when the variant has exactly one unnamed payload field.
pub open spec fn shape_ok(v: VariantDeclaration) -> bool {
    match v.fields {
        FieldsShape::Unnamed(tys) => tys@.len() == 1,
        _ => false,
    }
}

/// The payload type of a well-shaped variant.
pub open spec fn payload_of(v: VariantDeclaration) -> Seq<char>
    recommends
        shape_ok(v),
{
    match v.fields {
        FieldsShape::Unnamed(tys) => tys@[0]@,
        _ => Seq::empty(),
    }
}

/// The index of the first attribute named `path`, scanning from `i`.
pub open spec fn find_attr_from(attrs: Seq<RawAttribute>, path: Seq<char>, i: int) -> Option<int>
    decreases attrs.len() - i,
{
    if i < 0 || i >= attrs.len() {
        None
    } else if attrs[i].path@ == path {
        Some(i)
    } else {
        find_attr_from(attrs, path, i + 1)
    }
}

/// What variant analysis makes of one declared variant: the shape must be a
/// single unnamed field; the first `enum_dispatch` attribute, if any, is
/// parsed, and an absent attribute means the default flags.
pub open spec fn variant_spec(v: VariantDeclaration) -> Result<ParsedVariantsV, VariantFault> {
    if !shape_ok(v) {
        Err(VariantFault::Shape)
    } else {
        match find_attr_from(v.attrs@, "enum_dispatch"@, 0) {
            None => Ok(
                ParsedVariantsV {
                    name: v.name@,
                    variant_type: payload_of(v),
                    attributes: VariantAttribute { from: false, modifier: None },
                },
            ),
            Some(i) => match parse_variant_attr(toks_of(v.attrs@[i].tokens@), false, None) {
                Ok(va) => Ok(
                    ParsedVariantsV {
                        name: v.name@,
                        variant_type: payload_of(v),
                        attributes: va,
                    },
                ),
                Err(p) => Err(VariantFault::Grammar { pos: p as usize }),
            },
        }
    }
}

/// Finds the first attribute named `path` in `attrs`.
pub fn find_attr(attrs: &Vec<RawAttribute>, path: &str) -> (r: Option<usize>)
    ensures
        match r {
            Some(i) => i < attrs@.len() && find_attr_from(attrs@, path@, 0) == Some(i as int),
            None => find_attr_from(attrs@, path@, 0) is None,
        },
{
    let mut i: usize = 0;
    while i < attrs.len()
        invariant
            i <= attrs@.len(),
            find_attr_from(attrs@, path@, 0) == find_attr_from(attrs@, path@, i as int),
        decreases attrs@.len() - i,
    {
        if str_is(&attrs[i].path, path) {
            return Some(i);
        }
        i = i + 1;
    }
    None
}

impl ParsedVariants {
    /// Turns one declared variant into its descriptor, or reports what is
    /// wrong with it.
    pub fn try_from(v: &VariantDeclaration) -> (r: Result<ParsedVariants, VariantFault>)
        ensures
            match r {
                Ok(pv) => variant_spec(*v) == Ok::<ParsedVariantsV, VariantFault>(pv@),
                Err(f) => variant_spec(*v) == Err::<ParsedVariantsV, VariantFault>(f),
            },
    {
        let payload = match &v.fields {
            FieldsShape::Unnamed(tys) => {
                if tys.len() == 1 {
                    clone_string(&tys[0])
                } else {
                    return Err(VariantFault::Shape);
                }
            },
            _ => {
                return Err(VariantFault::Shape);
            },
        };
        let attributes = match find_attr(&v.attrs, "enum_dispatch") {
            None => VariantAttribute::default(),
            Some(i) => match VariantAttribute::parse(&v.attrs[i].tokens) {
                Ok(va) => va,
                Err(e) => {
                    return Err(VariantFault::Grammar { pos: e.pos });
                },
            },
        };
        Ok(ParsedVariants { name: clone_string(&v.name), variant_type: payload, attributes })
    }
}

// ---------------------------------------------------------------------------
// The synthesized output
// ---------------------------------------------------------------------------

/// How a forwarding arm hands the bound payload to the capability call:
/// as it is, as a reference to it, or dereferenced.
#[derive(Clone, Copy, PartialEq, Eq, Debug)]
pub enum ArmReceiver {
    Payload,
    PayloadAsRef,
    PayloadDeref,
}

/// Mathematical value of one forwarding arm.
pub struct MatchArmV {
    pub variant_name: Seq<char>,
    pub receiver: ArmReceiver,
    pub trait_type: Seq<Tok>,
    pub function_name: Seq<char>,
    pub args: Seq<Seq<char>>,
}

/// One arm of a forwarding match: for this variant, call the named function
/// of the target capability — qualified, never an inherent function — with
/// the adapted payload as receiver and the named arguments passed through
/// unchanged.
#[derive(Debug, PartialEq)]
pub struct MatchArm {
    pub variant_name: String,
    pub receiver: ArmReceiver,
    pub trait_type: TypeText,
    pub function_name: String,
    pub args: Vec<String>,
}

impl View for MatchArm {
    type V = MatchArmV;

    open spec fn view(&self) -> MatchArmV {
        MatchArmV {
            variant_name: self.variant_name@,
            receiver: self.receiver,
            trait_type: self.trait_type@,
            function_name: self.function_name@,
            args: self.args@.map_values(|s: String| s@),
        }
    }
}

/// Mathematical value of one forwarding function.
pub struct ForwardingFunctionV {
    pub name: Seq<char>,
    pub self_param: Seq<Tok>,
    pub params: Seq<FunctionParamV>,
    pub return_type: Option<Seq<Tok>>,
    pub arms: Seq<MatchArmV>,
}

/// One synthesized forwarding function: the declared name, the identical
/// receiver form, the named parameters only, the declared return type, and
/// one arm per variant in declaration order.
#[derive(Debug, PartialEq)]
pub struct ForwardingFunction {
    pub name: String,
    pub self_param: TypeText,
    pub params: Vec<FunctionParam>,
    pub return_type: Option<TypeText>,
    pub arms: Vec<MatchArm>,
}

impl View for ForwardingFunction {
    type V = ForwardingFunctionV;

    open spec fn view(&self) -> ForwardingFunctionV {
        ForwardingFunctionV {
            name: self.name@,
            self_param: self.self_param@,
            params: self.params@.map_values(|p: FunctionParam| p@),
            return_type: match self.return_type {
                Some(t) => Some(t@),
                None => None,
            },
            arms: self.arms@.map_values(|a: MatchArm| a@),
        }
    }
}

/// Mathematical value of one conversion constructor.
pub struct ConversionV {
    pub variant_name: Seq<char>,
    pub payload_type: Seq<char>,
}

/// One synthesized conversion constructor: from the payload type into the
/// sum type, wrapping the value in the named variant.
#[derive(Debug, PartialEq)]
pub struct Conversion {
    pub variant_name: String,
    pub payload_type: String,
}

impl View for Conversion {
    type V = ConversionV;

    open spec fn view(&self) -> ConversionV {
        ConversionV { variant_name: self.variant_name@, payload_type: self.payload_type@ }
    }
}

/// Mathematical value of a whole expansion.
pub struct ExpansionV {
    pub sum_type: Seq<char>,
    pub trait_type: Seq<Tok>,
    pub functions: Seq<ForwardingFunctionV>,
    pub conversions: Seq<ConversionV>,
}

/// The whole synthesized output: one capability implementation for the sum
/// type, holding the forwarding functions in declared order, and the
/// conversion constructors in variant declaration order.
#[derive(Debug, PartialEq)]
pub struct Expansion {
    pub sum_type: String,
    pub trait_type: TypeText,
    pub functions: Vec<ForwardingFunction>,
    pub conversions: Vec<Conversion>,
}

impl View for Expansion {
    type V = ExpansionV;

    open spec fn view(&self) -> ExpansionV {
        ExpansionV {
            sum_type: self.sum_type@,
            trait_type: self.trait_type@,
            functions: self.functions@.map_values(|f: ForwardingFunction| f@),
            conversions: self.conversions@.map_values(|c: Conversion| c@),
        }
    }
}

// ---------------------------------------------------------------------------
// Synthesis
// ---------------------------------------------------------------------------

/// How a variant's modifier adapts the payload in a forwarding arm: no
/// modifier passes the payload itself, `as_ref` a reference to it, `deref`
/// the dereferenced value.
pub open spec fn arm_receiver(m: Option<FnArgModifier>) -> ArmReceiver {
    match m {
        None => ArmReceiver::Payload,
        Some(FnArgModifier::AsRef) => ArmReceiver::PayloadAsRef,
        Some(FnArgModifier::Deref) => ArmReceiver::PayloadDeref,
    }
}

/// The forwarding arm of variant `pv` for function `f` of capability
/// `trait_type`.
pub open spec fn match_arm_spec(
    pv: ParsedVariantsV,
    f: FunctionAttributeV,
    trait_type: Seq<Tok>,
) -> MatchArmV {
    MatchArmV {
        variant_name: pv.name,
        receiver: arm_receiver(pv.attributes.modifier),
        trait_type,
        function_name: f.name,
        args: named_args_from(f.params, 0),
    }
}

/// The forwarding function synthesized for `f`: same name, identical
/// receiver form, named parameters only, the declared return type, and one
/// arm per variant in declaration order.
pub open spec fn forwarding_fn_spec(
    f: FunctionAttributeV,
    pvs: Seq<ParsedVariantsV>,
    trait_type: Seq<Tok>,
) -> ForwardingFunctionV {
    ForwardingFunctionV {
        name: f.name,
        self_param: f.self_param,
        params: named_params_from(f.params, 0),
        return_type: f.return_type,
        arms: Seq::new(pvs.len(), |j: int| match_arm_spec(pvs[j], f, trait_type)),
    }
}

/// The conversion constructors of the variants from index `i` on whose
/// `from` flag is set, in declaration order.
pub open spec fn conversions_from(pvs: Seq<ParsedVariantsV>, i: int) -> Seq<ConversionV>
    decreases pvs.len() - i,
{
    if i < 0 || i >= pvs.len() {
        seq![]
    } else {
        let rest = conversions_from(pvs, i + 1);
        if pvs[i].attributes.from {
            seq![ConversionV { variant_name: pvs[i].name, payload_type: pvs[i].variant_type }]
                + rest
        } else {
            rest
        }
    }
}

impl ParsedVariants {
    /// Builds this variant's forwarding arm for `function`, dispatching
    /// through `trait_name`.
    pub fn match_arm(&self, function: &FunctionAttribute, trait_name: &TypeText) -> (r: MatchArm)
        ensures
            r@ == match_arm_spec(self@, function@, trait_name@),
    {
        let receiver = match self.attributes.modifier {
            Some(FnArgModifier::AsRef) => ArmReceiver::PayloadAsRef,
            Some(FnArgModifier::Deref) => ArmReceiver::PayloadDeref,
            None => ArmReceiver::Payload,
        };
        MatchArm {
            variant_name: clone_string(&self.name),
            receiver,
            trait_type: clone_type_text(trait_name),
            function_name: clone_string(&function.name),
            args: function.arg_names(),
        }
    }
}

// ---------------------------------------------------------------------------
// The whole expansion
// ---------------------------------------------------------------------------

/// The index of the first variant from `i` on whose shape is not a single
/// unnamed field.
pub open spec fn find_bad_shape_from(vs: Seq<VariantDeclaration>, i: int) -> Option<int>
    decreases vs.len() - i,
{
    if i < 0 || i >= vs.len() {
        None
    } else if !shape_ok(vs[i]) {
        Some(i)
    } else {
        find_bad_shape_from(vs, i + 1)
    }
}

/// Where no bad shape is found from `i` on, every variant from `i` on is
/// well-shaped.
pub proof fn lemma_shapes_ok(vs: Seq<VariantDeclaration>, i: int, j: int)
    requires
        find_bad_shape_from(vs, i) is None,
        0 <= i <= j < vs.len(),
    ensures
        shape_ok(vs[j]),
    decreases j - i,
{
    if i < j {
        lemma_shapes_ok(vs, i + 1, j);
    }
}

/// The parsed function attributes among the attributes from index `i` on, in
/// order, or the index of the first one that fails with its fault.
pub open spec fn parse_fn_attrs_from(attrs: Seq<RawAttribute>, i: int) -> Result<
    Seq<FunctionAttributeV>,
    (int, (AttrFault, int)),
>
    decreases attrs.len() - i,
{
    if i < 0 || i >= attrs.len() {
        Ok(seq![])
    } else if attrs[i].path@ == "function"@ {
        match parse_function(toks_of(attrs[i].tokens@)) {
            Err(f) => Err((i, f)),
            Ok(fa) => match parse_fn_attrs_from(attrs, i + 1) {
                Ok(fas) => Ok(seq![fa] + fas),
                Err(e) => Err(e),
            },
        }
    } else {
        parse_fn_attrs_from(attrs, i + 1)
    }
}

/// The descriptors of the variants from index `i` on, in order, or the index
/// of the first one that fails with its fault.
pub open spec fn parse_variants_from(vs: Seq<VariantDeclaration>, i: int) -> Result<
    Seq<ParsedVariantsV>,
    (int, VariantFault),
>
    decreases vs.len() - i,
{
    if i < 0 || i >= vs.len() {
        Ok(seq![])
    } else {
        match variant_spec(vs[i]) {
            Err(f) => Err((i, f)),
            Ok(pv) => match parse_variants_from(vs, i + 1) {
                Ok(pvs) => Ok(seq![pv] + pvs),
                Err(e) => Err(e),
            },
        }
    }
}

/// The output of a successful expansion of `d` with capability `trait_type`,
/// function attributes `fas` and variant descriptors `pvs`.
pub open spec fn expansion_spec(
    d: SumTypeDeclaration,
    trait_type: Seq<Tok>,
    fas: Seq<FunctionAttributeV>,
    pvs: Seq<ParsedVariantsV>,
) -> ExpansionV {
    ExpansionV {
        sum_type: d.name@,
        trait_type,
        functions: Seq::new(fas.len(), |k: int| forwarding_fn_spec(fas[k], pvs, trait_type)),
        conversions: conversions_from(pvs, 0),
    }
}

/// The whole pipeline. In order: the declaration must be an enum; every
/// variant must have exactly one unnamed field; a container attribute must
/// be present and well-formed; every function attribute must parse with a
/// recognized receiver; every variant attribute must parse. The first
/// failure wins and nothing is emitted for it; otherwise the output is
/// `expansion_spec`.
pub open spec fn expand_spec(d: SumTypeDeclaration) -> Result<ExpansionV, ExpandError> {
    match d.data {
        DeclData::Enum(vs) => match find_bad_shape_from(vs@, 0) {
            Some(i) => Err(ExpandError::ShapeError { variant: Some(i as usize) }),
            None => match find_attr_from(d.attrs@, "enum_dispatch"@, 0) {
                None => Err(ExpandError::MissingAttributeError),
                Some(ci) => match parse_container(toks_of(d.attrs@[ci].tokens@)) {
                    Err(p) => Err(
                        ExpandError::GrammarError {
                            source: AttrSource::Container,
                            pos: p as usize,
                        },
                    ),
                    Ok(tt) => match parse_fn_attrs_from(d.attrs@, 0) {
                        Err((i, (AttrFault::Grammar, p))) => Err(
                            ExpandError::GrammarError {
                                source: AttrSource::Function(i as usize),
                                pos: p as usize,
                            },
                        ),
                        Err((i, (AttrFault::Receiver, _))) => Err(
                            ExpandError::ReceiverError { attr: i as usize },
                        ),
                        Ok(fas) => match parse_variants_from(vs@, 0) {
                            Err((i, VariantFault::Grammar { pos })) => Err(
                                ExpandError::GrammarError {
                                    source: AttrSource::Variant(i as usize),
                                    pos,
                                },
                            ),
                            Err((i, VariantFault::Shape)) => Err(
                                ExpandError::ShapeError { variant: Some(i as usize) },
                            ),
                            Ok(pvs) => Ok(expansion_spec(d, tt, fas, pvs)),
                        },
                    },
                },
            },
        },
        _ => Err(ExpandError::ShapeError { variant: None }),
    }
}

/// Expands one annotated sum type declaration: returns the synthesized
/// capability implementation and conversion constructors, or the first
/// error, exactly as `expand_spec` defines.
#[verifier::loop_isolation(false)]
pub fn expand(d: &SumTypeDeclaration) -> (r: Result<Expansion, ExpandError>)
    ensures
        (r matches Ok(exp) ==> expand_spec(*d) == Ok::<ExpansionV, ExpandError>(exp@)),
        (r matches Err(e) ==> expand_spec(*d) == Err::<ExpansionV, ExpandError>(e)),
{
    let vs = match &d.data {
        DeclData::Enum(vs) => vs,
        _ => {
            return Err(ExpandError::ShapeError { variant: None });
        },
    };
    // Shape pass: every variant must wrap exactly one unnamed field.
    let mut i: usize = 0;
    while i < vs.len()
        invariant
            i <= vs@.len(),
            find_bad_shape_from(vs@, 0) == find_bad_shape_from(vs@, i as int),
        decreases vs@.len() - i,
    {
        let ok = match &vs[i].fields {
            FieldsShape::Unnamed(tys) => tys.len() == 1,
            _ => false,
        };
        if !ok {
            return Err(ExpandError::ShapeError { variant: Some(i) });
        }
        i = i + 1;
    }
    assert(find_bad_shape_from(vs@, 0) is None);
    // Container attribute: must be present and hold one type reference.
    let ci = match find_attr(&d.attrs, "enum_dispatch") {
        Some(ci) => ci,
        None => {
            return Err(ExpandError::MissingAttributeError);
        },
    };
    let container = match ContainerAttribute::parse(&d.attrs[ci].tokens) {
        Ok(ca) => ca,
        Err(e) => {
            return Err(ExpandError::GrammarError { source: AttrSource::Container, pos: e.pos });
        },
    };
    let ghost tt = container.trait_type@;
    // Function attributes, in order; the first malformed one wins.
    let mut fas: Vec<FunctionAttribute> = Vec::new();
    let mut k: usize = 0;
    proof {
        assert(fas@.map_values(|f: FunctionAttribute| f@) + Seq::<FunctionAttributeV>::empty()
            =~= Seq::<FunctionAttributeV>::empty());
    }
    while k < d.attrs.len()
        invariant
            k <= d.attrs@.len(),
            parse_fn_attrs_from(d.attrs@, 0) == (match parse_fn_attrs_from(d.attrs@, k as int) {
                Ok(rest) => Ok::<Seq<FunctionAttributeV>, (int, (AttrFault, int))>(
                    fas@.map_values(|f: FunctionAttribute| f@) + rest,
                ),
                Err(e) => Err(e),
            }),
        decreases d.attrs@.len() - k,
    {
        let ghost acc = fas@.map_values(|f: FunctionAttribute| f@);
        if str_is(&d.attrs[k].path, "function") {
            match FunctionAttribute::parse(&d.attrs[k].tokens) {
                Ok(fa) => {
                    fas.push(fa);
                    proof {
                        assert(fas@.map_values(|f: FunctionAttribute| f@) =~= acc + seq![fa@]);
                        let tail = parse_fn_attrs_from(d.attrs@, k + 1);
                        if tail is Ok {
                            assert((acc + seq![fa@]) + tail->Ok_0 =~= acc + (seq![fa@]
                                + tail->Ok_0));
                        }
                    }
                },
                Err(e) => {
                    match e.fault {
                        AttrFault::Grammar => {
                            return Err(
                                ExpandError::GrammarError {
                                    source: AttrSource::Function(k),
                                    pos: e.pos,
                                },
                            );
                        },
                        AttrFault::Receiver => {
                            return Err(ExpandError::ReceiverError { attr: k });
                        },
                    }
                },
            }
        }
        k = k + 1;
    }
    let ghost fas_v = fas@.map_values(|f: FunctionAttribute| f@);
    proof {
        assert(fas_v + Seq::<FunctionAttributeV>::empty() =~= fas_v);
        assert(parse_fn_attrs_from(d.attrs@, 0) == Ok::<Seq<FunctionAttributeV>, (int, (AttrFault, int))>(
            fas_v,
        ));
    }
    // Variant descriptors, in order; the first malformed attribute wins.
    let mut pvs: Vec<ParsedVariants> = Vec::new();
    let mut vi: usize = 0;
    proof {
        assert(pvs@.map_values(|p: ParsedVariants| p@) + Seq::<ParsedVariantsV>::empty() =~= Seq::<
            ParsedVariantsV,
        >::empty());
    }
    while vi < vs.len()
        invariant
            vi <= vs@.len(),
            find_bad_shape_from(vs@, 0) is None,
            parse_variants_from(vs@, 0) == (match parse_variants_from(vs@, vi as int) {
                Ok(rest) => Ok::<Seq<ParsedVariantsV>, (int, VariantFault)>(
                    pvs@.map_values(|p: ParsedVariants| p@) + rest,
                ),
                Err(e) => Err(e),
            }),
        decreases vs@.len() - vi,
    {
        let ghost acc = pvs@.map_values(|p: ParsedVariants| p@);
        match ParsedVariants::try_from(&vs[vi]) {
            Ok(pv) => {
                pvs.push(pv);
                proof {
                    assert(pvs@.map_values(|p: ParsedVariants| p@) =~= acc + seq![pv@]);
                    let tail = parse_variants_from(vs@, vi + 1);
                    if tail is Ok {
                        assert((acc + seq![pv@]) + tail->Ok_0 =~= acc + (seq![pv@] + tail->Ok_0));
                    }
                }
            },
            Err(f) => {
                proof {
                    lemma_shapes_ok(vs@, 0, vi as int);
                }
                match f {
                    VariantFault::Grammar { pos } => {
                        return Err(
                            ExpandError::GrammarError { source: AttrSource::Variant(vi), pos },
                        );
                    },
                    VariantFault::Shape => {
                        proof {
                            assert(false);
                        }
                        return Err(ExpandError::ShapeError { variant: Some(vi) });
                    },
                }
            },
        }
        vi = vi + 1;
    }
    let ghost pvs_v = pvs@.map_values(|p: ParsedVariants| p@);
    proof {
        assert(pvs_v + Seq::<ParsedVariantsV>::empty() =~= pvs_v);
        assert(parse_variants_from(vs@, 0) == Ok::<Seq<ParsedVariantsV>, (int, VariantFault)>(pvs_v));
    }
    // Synthesis: one forwarding function per function attribute, each with
    // one arm per variant, in declaration order.
    let mut functions: Vec<ForwardingFunction> = Vec::new();
    let mut fi: usize = 0;
    while fi < fas.len()
        invariant
            fi <= fas.len(),
            fas_v == fas@.map_values(|f: FunctionAttribute| f@),
            pvs_v == pvs@.map_values(|p: ParsedVariants| p@),
            tt == container.trait_type@,
            functions@.len() == fi,
            forall|j: int|
                0 <= j < fi ==> functions@[j]@ == forwarding_fn_spec(fas_v[j], pvs_v, tt),
        decreases fas@.len() - fi,
    {
        let f = &fas[fi];
        let mut arms: Vec<MatchArm> = Vec::new();
        let mut ai: usize = 0;
        while ai < pvs.len()
            invariant
                ai <= pvs.len(),
                fas_v == fas@.map_values(|x: FunctionAttribute| x@),
                pvs_v == pvs@.map_values(|p: ParsedVariants| p@),
                tt == container.trait_type@,
                fi < fas.len(),
                f == &fas[fi as int],
                arms@.len() == ai,
                forall|j: int|
                    0 <= j < ai ==> arms@[j]@ == match_arm_spec(pvs_v[j], fas_v[fi as int], tt),
            decreases pvs@.len() - ai,
        {
            arms.push(pvs[ai].match_arm(f, &container.trait_type));
            ai = ai + 1;
        }
        let func = ForwardingFunction {
            name: clone_string(&f.name),
            self_param: clone_type_text(&f.self_param),
            params: f.named_params(),
            return_type: match &f.return_type {
                Some(t) => Some(clone_type_text(t)),
                None => None,
            },
            arms,
        };
        proof {
            assert(func@.arms =~= Seq::new(
                pvs_v.len(),
                |j: int| match_arm_spec(pvs_v[j], fas_v[fi as int], tt),
            ));
            assert(func@ == forwarding_fn_spec(fas_v[fi as int], pvs_v, tt));
        }
        functions.push(func);
        fi = fi + 1;
    }
    // Conversion constructors: one per variant whose `from` flag is set.
    let mut conversions: Vec<Conversion> = Vec::new();
    let mut ci2: usize = 0;
    proof {
        assert(conversions@.map_values(|c: Conversion| c@) + conversions_from(pvs_v, 0)
            =~= conversions_from(pvs_v, 0));
    }
    while ci2 < pvs.len()
        invariant
            ci2 <= pvs.len(),
            pvs_v == pvs@.map_values(|p: ParsedVariants| p@),
            conversions_from(pvs_v, 0) == conversions@.map_values(|c: Conversion| c@)
                + conversions_from(pvs_v, ci2 as int),
        decreases pvs@.len() - ci2,
    {
        let ghost acc = conversions@.map_values(|c: Conversion| c@);
        if pvs[ci2].attributes.from {
            let c = Conversion {
                variant_name: clone_string(&pvs[ci2].name),
                payload_type: clone_string(&pvs[ci2].variant_type),
            };
            proof {
                assert(c@ == (ConversionV {
                    variant_name: pvs_v[ci2 as int].name,
                    payload_type: pvs_v[ci2 as int].variant_type,
                }));
            }
            conversions.push(c);
            proof {
                assert(conversions@.map_values(|x: Conversion| x@) =~= acc + seq![c@]);
                assert((acc + seq![c@]) + conversions_from(pvs_v, ci2 + 1) =~= acc + (seq![c@]
                    + conversions_from(pvs_v, ci2 + 1)));
            }
        }
        ci2 = ci2 + 1;
    }
    proof {
        assert(conversions@.map_values(|c: Conversion| c@) + conversions_from(pvs_v, ci2 as int)
            =~= conversions@.map_values(|c: Conversion| c@));
    }
    let exp = Expansion {
        sum_type: clone_string(&d.name),
        trait_type: container.trait_type,
        functions,
        conversions,
    };
    proof {
        assert(exp@.functions =~= Seq::new(
            fas_v.len(),
            |k: int| forwarding_fn_spec(fas_v[k], pvs_v, tt),
        ));
        assert(exp@ == expansion_spec(*d, tt, fas_v, pvs_v));
    }
    Ok(exp)
}

} // verus!
