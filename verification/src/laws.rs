//! The general laws of the pipeline, each proved once and for all inputs:
//! grammar totality and round-tripping for container attributes, the
//! variant-attribute defaults, receiver extraction and rejection, shape
//! validation, arm ordering and modifier application, conversion emission,
//! and fail-closed behavior.

use vstd::prelude::*;
use crate::token::Tok;
use crate::attrs::{
    AttrFault, FnArgModifier, FunctionAttributeV, FunctionParamV, VariantAttribute, function_of,
    is_close_tok, is_open_tok, is_self_toks, named_args_from, parse_container, parse_function,
    parse_variant_attr, ref_self_toks, self_toks, type_run_end,
};
use crate::enum_dispatch::{
    ArmReceiver, ConversionV, DeclData, ExpandError, ExpansionV, ParsedVariantsV,
    SumTypeDeclaration, VariantDeclaration, VariantFault, arm_receiver, conversions_from,
    expand_spec, find_attr_from, find_bad_shape_from, forwarding_fn_spec, match_arm_spec,
    shape_ok, variant_spec,
};

verus! {

// ---------------------------------------------------------------------------
// Grammar totality: container attributes round-trip
// ---------------------------------------------------------------------------

/// How one token changes the nesting depth of a type token run.
pub open spec fn tok_delta(t: Tok) -> int {
    if is_open_tok(t) {
        1
    } else if is_close_tok(t) {
        -1
    } else {
        0
    }
}

/// The nesting depth in front of index `i`: openers minus closers among the
/// first `i` tokens.
pub open spec fn prefix_depth(toks: Seq<Tok>, i: int) -> int
    decreases i,
{
    if i <= 0 {
        0
    } else {
        prefix_depth(toks, i - 1) + tok_delta(toks[i - 1])
    }
}

/// A well-formed type text: nonempty; every nesting level that opens also
/// closes; the depth never goes negative (no stray closer); and no
/// separator comma at depth zero.
pub open spec fn type_text_wf(toks: Seq<Tok>) -> bool {
    &&& toks.len() > 0
    &&& prefix_depth(toks, toks.len() as int) == 0
    &&& (forall|i: int| 0 <= i <= toks.len() ==> prefix_depth(toks, i) >= 0)
    &&& (forall|i: int|
        0 <= i < toks.len() && toks[i] == Tok::Comma ==> prefix_depth(toks, i) > 0)
}

/// On a well-formed type text, the scanner started anywhere at the text's
/// own depth runs through to the end.
pub proof fn lemma_type_run_total(toks: Seq<Tok>, i: int)
    requires
        type_text_wf(toks),
        0 <= i <= toks.len(),
    ensures
        type_run_end(toks, i, prefix_depth(toks, i)) == Ok::<int, int>(toks.len() as int),
    decreases toks.len() - i,
{
    if i < toks.len() {
        let d = prefix_depth(toks, i);
        assert(prefix_depth(toks, i + 1) == d + tok_delta(toks[i]));
        assert(prefix_depth(toks, i + 1) >= 0);
        if toks[i] == Tok::Comma {
            assert(d > 0);
        }
        lemma_type_run_total(toks, i + 1);
    }
}

/// Grammar totality for container attributes: every well-formed type text
/// parses as a container attribute, and the parsed type reference is the
/// text itself, unchanged.
pub proof fn lemma_container_round_trip(toks: Seq<Tok>)
    requires
        type_text_wf(toks),
    ensures
        parse_container(toks) == Ok::<Seq<Tok>, int>(toks),
{
    lemma_type_run_total(toks, 0);
}

/// A run the scanner accepts through to the end satisfies the depth
/// conditions of well-formedness from its start on.
pub proof fn lemma_type_run_sound(toks: Seq<Tok>, i: int)
    requires
        0 <= i <= toks.len(),
        prefix_depth(toks, i) >= 0,
        type_run_end(toks, i, prefix_depth(toks, i)) == Ok::<int, int>(toks.len() as int),
    ensures
        prefix_depth(toks, toks.len() as int) == 0,
        forall|j: int| i <= j <= toks.len() ==> prefix_depth(toks, j) >= 0,
        forall|j: int| i <= j < toks.len() && toks[j] == Tok::Comma ==> prefix_depth(toks, j) > 0,
    decreases toks.len() - i,
{
    if i < toks.len() {
        let d = prefix_depth(toks, i);
        assert(prefix_depth(toks, i + 1) == d + tok_delta(toks[i]));
        lemma_type_run_sound(toks, i + 1);
    }
}

/// The complementary direction of the container round trip: whatever the
/// container grammar accepts is a well-formed type text, returned verbatim.
pub proof fn lemma_container_parse_sound(toks: Seq<Tok>)
    ensures
        parse_container(toks) is Ok ==> parse_container(toks) == Ok::<Seq<Tok>, int>(toks)
            && type_text_wf(toks),
{
    if parse_container(toks) is Ok {
        lemma_type_run_sound(toks, 0);
    }
}

// ---------------------------------------------------------------------------
// Variant-attribute defaults
// ---------------------------------------------------------------------------

/// Parsing an empty variant attribute body yields the defaults: no
/// conversion constructor, no modifier.
pub proof fn lemma_variant_attr_defaults()
    ensures
        parse_variant_attr(seq![], false, None) == Ok::<VariantAttribute, int>(
            VariantAttribute { from: false, modifier: None::<FnArgModifier> },
        ),
{
}

// ---------------------------------------------------------------------------
// Receiver extraction and rejection
// ---------------------------------------------------------------------------

/// The three receiver forms `self`, `&self` and `&mut self` are recognized.
pub proof fn lemma_receiver_forms_recognized()
    ensures
        is_self_toks(self_toks()),
        is_self_toks(ref_self_toks(false)),
        is_self_toks(ref_self_toks(true)),
{
}

/// Receiver extraction: when the first parsed parameter is a recognized
/// receiver form and nothing follows the parameter list, the signature
/// parses, the receiver is removed from the parameter list and kept, in its
/// identical form, as the signature's receiver.
pub proof fn lemma_receiver_extraction(name: Seq<char>, ps: Seq<FunctionParamV>, rest: Seq<Tok>)
    requires
        ps.len() >= 1,
        is_self_toks(ps[0].ty),
        rest.len() == 0,
    ensures
        function_of(name, ps, rest) == Ok::<FunctionAttributeV, (AttrFault, int)>(
            FunctionAttributeV {
                name,
                self_param: ps[0].ty,
                params: ps.skip(1),
                return_type: None,
            },
        ),
{
}

/// The synthesized forwarding function keeps the identical receiver form,
/// name and return type of the signature it forwards.
pub proof fn lemma_forwarding_keeps_signature(
    f: FunctionAttributeV,
    pvs: Seq<ParsedVariantsV>,
    tt: Seq<Tok>,
)
    ensures
        forwarding_fn_spec(f, pvs, tt).self_param == f.self_param,
        forwarding_fn_spec(f, pvs, tt).name == f.name,
        forwarding_fn_spec(f, pvs, tt).return_type == f.return_type,
{
}

/// Receiver rejection: a parameter list that is empty or does not start
/// with a recognized receiver form fails with a receiver fault at the list,
/// whatever follows it.
pub proof fn lemma_receiver_rejection(name: Seq<char>, ps: Seq<FunctionParamV>, rest: Seq<Tok>)
    requires
        ps.len() == 0 || !is_self_toks(ps[0].ty),
    ensures
        function_of(name, ps, rest) == Err::<FunctionAttributeV, (AttrFault, int)>(
            (AttrFault::Receiver, 0),
        ),
{
}

/// A signature without a parameter list at all fails with a receiver fault.
pub proof fn lemma_no_params_rejected(name: Seq<char>)
    ensures
        parse_function(seq![Tok::Ident("fn"@), Tok::Ident(name)]) == Err::<
            FunctionAttributeV,
            (AttrFault, int),
        >((AttrFault::Receiver, 2)),
{
    let toks = seq![Tok::Ident("fn"@), Tok::Ident(name)];
    assert(toks.skip(2) =~= Seq::<Tok>::empty());
}

// ---------------------------------------------------------------------------
// Shape validation
// ---------------------------------------------------------------------------

/// Shape validation: variant analysis reports a shape fault exactly for the
/// variants that do not have exactly one unnamed field; a variant with
/// exactly one unnamed field passes the shape check whatever its payload
/// type.
pub proof fn lemma_shape_validation(v: VariantDeclaration)
    ensures
        (variant_spec(v) == Err::<ParsedVariantsV, VariantFault>(VariantFault::Shape)) <==> !shape_ok(
            v,
        ),
{
}

// ---------------------------------------------------------------------------
// Arm ordering and modifier application
// ---------------------------------------------------------------------------

/// Arm ordering and modifier application: a forwarding function for `f` has
/// exactly one arm per variant, in declaration order; each arm names its
/// variant, dispatches through the target capability under the function's
/// name, forwards the named arguments, and adapts the payload exactly as
/// the variant's modifier says: none passes the payload itself, `as_ref` a
/// reference to it, `deref` the dereferenced value.
pub proof fn lemma_arm_ordering(f: FunctionAttributeV, pvs: Seq<ParsedVariantsV>, tt: Seq<Tok>)
    ensures
        forwarding_fn_spec(f, pvs, tt).arms.len() == pvs.len(),
        forall|j: int| #![trigger pvs[j]]
            0 <= j < pvs.len() ==> forwarding_fn_spec(f, pvs, tt).arms[j] == match_arm_spec(
                pvs[j],
                f,
                tt,
            ),
        forall|j: int| #![trigger pvs[j]]
            0 <= j < pvs.len() ==> match_arm_spec(pvs[j], f, tt).variant_name == pvs[j].name
                && match_arm_spec(pvs[j], f, tt).receiver == arm_receiver(
                pvs[j].attributes.modifier,
            ) && match_arm_spec(pvs[j], f, tt).trait_type == tt && match_arm_spec(
                pvs[j],
                f,
                tt,
            ).function_name == f.name && match_arm_spec(pvs[j], f, tt).args == named_args_from(
                f.params,
                0,
            ),
        arm_receiver(None) == ArmReceiver::Payload,
        arm_receiver(Some(FnArgModifier::AsRef)) == ArmReceiver::PayloadAsRef,
        arm_receiver(Some(FnArgModifier::Deref)) == ArmReceiver::PayloadDeref,
{
}

// ---------------------------------------------------------------------------
// Conversion emission
// ---------------------------------------------------------------------------

/// The indices, from `i` on, of the variants whose `from` flag is set, in
/// declaration order.
pub open spec fn from_indices_from(pvs: Seq<ParsedVariantsV>, i: int) -> Seq<int>
    decreases pvs.len() - i,
{
    if i < 0 || i >= pvs.len() {
        seq![]
    } else {
        let rest = from_indices_from(pvs, i + 1);
        if pvs[i].attributes.from {
            seq![i] + rest
        } else {
            rest
        }
    }
}

/// Every listed index lies in range, from `i` on, and names a variant whose
/// `from` flag is set.
pub proof fn lemma_from_indices_sound(pvs: Seq<ParsedVariantsV>, i: int)
    ensures
        forall|k: int|
            0 <= k < from_indices_from(pvs, i).len() ==> i <= #[trigger] from_indices_from(
                pvs,
                i,
            )[k] < pvs.len() && pvs[from_indices_from(pvs, i)[k]].attributes.from,
    decreases pvs.len() - i,
{
    if 0 <= i < pvs.len() {
        lemma_from_indices_sound(pvs, i + 1);
    }
}

/// Every variant from `i` on whose `from` flag is set has its index listed.
pub proof fn lemma_from_indices_complete(pvs: Seq<ParsedVariantsV>, i: int, j: int)
    requires
        0 <= i <= j < pvs.len(),
        pvs[j].attributes.from,
    ensures
        from_indices_from(pvs, i).contains(j),
    decreases j - i,
{
    if i == j {
        assert(from_indices_from(pvs, i)[0] == j);
    } else {
        lemma_from_indices_complete(pvs, i + 1, j);
        let rest = from_indices_from(pvs, i + 1);
        let k = choose|k: int| 0 <= k < rest.len() && rest[k] == j;
        if pvs[i].attributes.from {
            assert(from_indices_from(pvs, i)[k + 1] == j);
        }
    }
}

/// Conversion emission: the conversion constructors are exactly one per
/// variant whose `from` flag is set, in declaration order, each converting
/// from that variant's declared payload type into that variant.
pub proof fn lemma_conversion_emission(pvs: Seq<ParsedVariantsV>, i: int)
    requires
        0 <= i,
    ensures
        conversions_from(pvs, i) == from_indices_from(pvs, i).map_values(
            |j: int|
                ConversionV {
                    variant_name: pvs[j].name,
                    payload_type: pvs[j].variant_type,
                },
        ),
    decreases pvs.len() - i,
{
    let f = |j: int|
        ConversionV { variant_name: pvs[j].name, payload_type: pvs[j].variant_type };
    if i >= pvs.len() {
        assert(conversions_from(pvs, i) =~= from_indices_from(pvs, i).map_values(f));
    } else {
        lemma_conversion_emission(pvs, i + 1);
        if pvs[i].attributes.from {
            assert((seq![i] + from_indices_from(pvs, i + 1)).map_values(f) =~= seq![f(i)]
                + from_indices_from(pvs, i + 1).map_values(f));
            assert(conversions_from(pvs, i) =~= from_indices_from(pvs, i).map_values(f));
        } else {
            assert(conversions_from(pvs, i) =~= from_indices_from(pvs, i).map_values(f));
        }
    }
}

// ---------------------------------------------------------------------------
// Fail-closed
// ---------------------------------------------------------------------------

/// Fail-closed on a missing container attribute: an enum whose variants are
/// all well-shaped but that carries no container attribute expands to the
/// missing-attribute error alone — no capability implementation and no
/// conversion constructor is emitted.
pub proof fn lemma_fail_closed_missing_attribute(d: SumTypeDeclaration)
    requires
        ({
            &&& d.data matches DeclData::Enum(vs)
            &&& find_bad_shape_from(vs@, 0) is None
            &&& find_attr_from(d.attrs@, "enum_dispatch"@, 0) is None
        }),
    ensures
        expand_spec(d) == Err::<ExpansionV, ExpandError>(ExpandError::MissingAttributeError),
{
}

} // verus!
