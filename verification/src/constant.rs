//! Constants of the decoded module.
//!
//! A constant that names another global object carries that object's
//! [`Name`], looked up in the pass-1 table -- never a copy of the object
//! itself, and never a re-decode of it.

use crate::name::{ref_name, GlobalNameMap, GlobalNameMapV, Name, NameV};
use crate::raw::{
    lemma_raw_constants_view_index, lemma_raw_constants_view_len, wf_raw_constant,
    wf_raw_constants, RawConstant, RawConstantV,
};
use vstd::prelude::*;

verus! {

broadcast use lemma_raw_constants_view_len, lemma_raw_constants_view_index;

/// A constant of the decoded module.
#[derive(PartialEq, Eq, Debug)]
pub enum Constant {
    Int { bits: u32, value: u64 },
    Array { elements: Vec<Constant> },
    GlobalReference { name: Name },
}

/// Mathematical model of a [`Constant`].
pub ghost enum ConstantV {
    Int { bits: u32, value: u64 },
    Array { elements: Seq<ConstantV> },
    GlobalReference { name: NameV },
}

pub open spec fn constant_view(c: Constant) -> ConstantV
    decreases c,
{
    match c {
        Constant::Int { bits, value } => ConstantV::Int { bits, value },
        Constant::Array { elements } => ConstantV::Array { elements: constants_view(elements@) },
        Constant::GlobalReference { name } => ConstantV::GlobalReference { name: name.deep_view() },
    }
}

pub open spec fn constants_view(cs: Seq<Constant>) -> Seq<ConstantV>
    decreases cs,
{
    if cs.len() == 0 {
        Seq::empty()
    } else {
        constants_view(cs.subrange(0, cs.len() - 1)).push(constant_view(cs[cs.len() - 1]))
    }
}

impl DeepView for Constant {
    type V = ConstantV;

    open spec fn deep_view(&self) -> ConstantV {
        constant_view(*self)
    }
}

/// What a raw constant decodes to: the same shape, with every global
/// reference replaced by the identifier the pass-1 table holds for it.
pub open spec fn constant_of_raw(m: GlobalNameMapV, c: RawConstantV) -> ConstantV
    decreases c,
{
    match c {
        RawConstantV::Int { bits, value } => ConstantV::Int { bits, value },
        RawConstantV::Array { elements } => ConstantV::Array {
            elements: constants_of_raw(m, elements),
        },
        RawConstantV::GlobalRef { target } => ConstantV::GlobalReference {
            name: ref_name(m, target),
        },
    }
}

pub open spec fn constants_of_raw(m: GlobalNameMapV, cs: Seq<RawConstantV>) -> Seq<ConstantV>
    decreases cs,
{
    if cs.len() == 0 {
        Seq::empty()
    } else {
        constants_of_raw(m, cs.subrange(0, cs.len() - 1)).push(
            constant_of_raw(m, cs[cs.len() - 1]),
        )
    }
}

/// The size of a raw constant: the measure decoding decreases.
pub open spec fn rc_size(c: RawConstantV) -> nat
    decreases c,
{
    match c {
        RawConstantV::Int { .. } => 1,
        RawConstantV::Array { elements } => 1 + rc_list_size(elements),
        RawConstantV::GlobalRef { .. } => 1,
    }
}

pub open spec fn rc_list_size(cs: Seq<RawConstantV>) -> nat
    decreases cs,
{
    if cs.len() == 0 {
        0
    } else {
        rc_list_size(cs.subrange(0, cs.len() - 1)) + rc_size(cs[cs.len() - 1])
    }
}

pub proof fn lemma_rc_size_index(cs: Seq<RawConstantV>, k: int)
    requires
        0 <= k < cs.len(),
    ensures
        rc_size(cs[k]) <= rc_list_size(cs),
    decreases cs,
{
    if k < cs.len() - 1 {
        lemma_rc_size_index(cs.subrange(0, cs.len() - 1), k);
    }
}

pub proof fn lemma_wf_raw_constants_index(
    nf: int,
    nd: int,
    ng: int,
    na: int,
    cs: Seq<RawConstantV>,
    k: int,
)
    requires
        wf_raw_constants(nf, nd, ng, na, cs),
        0 <= k < cs.len(),
    ensures
        wf_raw_constant(nf, nd, ng, na, cs[k]),
    decreases cs,
{
    if k < cs.len() - 1 {
        lemma_wf_raw_constants_index(nf, nd, ng, na, cs.subrange(0, cs.len() - 1), k);
    }
}

/// Decode one raw constant, resolving every leaf that names another global
/// object through the pass-1 table.
pub fn constant_from_raw(c: &RawConstant, gnmap: &GlobalNameMap) -> (r: Constant)
    requires
        wf_raw_constant(
            gnmap.deep_view().defined_functions.len() as int,
            gnmap.deep_view().declared_functions.len() as int,
            gnmap.deep_view().globals.len() as int,
            gnmap.deep_view().aliases.len() as int,
            c.deep_view(),
        ),
    ensures
        r.deep_view() == constant_of_raw(gnmap.deep_view(), c.deep_view()),
    decreases rc_size(c.deep_view()),
{
    let ghost m = gnmap.deep_view();
    let ghost nf = m.defined_functions.len() as int;
    let ghost nd = m.declared_functions.len() as int;
    let ghost ng = m.globals.len() as int;
    let ghost na = m.aliases.len() as int;
    match c {
        RawConstant::Int { bits, value } => Constant::Int { bits: *bits, value: *value },
        RawConstant::Array { elements } => {
            let ghost cs_v = c.deep_view()->Array_elements;
            let n = elements.len();
            let mut elems: Vec<Constant> = Vec::new();
            let mut k: usize = 0;
            while k < n
                invariant
                    k <= n,
                    n == elements@.len(),
                    crate::raw::raw_constants_view(elements@) == cs_v,
                    rc_size(c.deep_view()) == 1 + rc_list_size(cs_v),
                    m == gnmap.deep_view(),
                    nf == m.defined_functions.len() as int,
                    nd == m.declared_functions.len() as int,
                    ng == m.globals.len() as int,
                    na == m.aliases.len() as int,
                    wf_raw_constants(nf, nd, ng, na, cs_v),
                    constants_view(elems@) == constants_of_raw(m, cs_v.subrange(0, k as int)),
                decreases n - k,
            {
                let ghost old_elems = elems@;
                proof {
                    lemma_wf_raw_constants_index(nf, nd, ng, na, cs_v, k as int);
                    lemma_rc_size_index(cs_v, k as int);
                    assert(elements@[k as int].deep_view() == cs_v[k as int]);
                }
                let e = constant_from_raw(&elements[k], gnmap);
                elems.push(e);
                proof {
                    let prefix1 = cs_v.subrange(0, k + 1 as int);
                    assert(prefix1.subrange(0, prefix1.len() - 1) =~= cs_v.subrange(0, k as int));
                    assert(elems@.subrange(0, elems@.len() - 1) =~= old_elems);
                }
                k += 1;
            }
            proof {
                assert(cs_v.subrange(0, cs_v.len() as int) =~= cs_v);
            }
            Constant::Array { elements: elems }
        },
        RawConstant::GlobalRef { target } => {
            let name = gnmap.get(target).clone();
            Constant::GlobalReference { name }
        },
    }
}

} // verus!
