//! The decoder's guarantees, stated and proved over the mathematical
//! decoding: determinism, identifier uniqueness, reference resolution, type
//! memoization, opaque-type preservation, and the rejection of non-pointer
//! global types.

use crate::error::DecodeError;
use crate::metadata::{
    lemma_md_identify_list_coherent, lemma_md_identify_list_ext, lemma_md_unassigned_all_none,
    lemma_md_unassigned_le_len, md_coherent, md_ext, md_identify, md_identify_list,
    md_node_decoded, md_unassigned, MdSt,
};
use crate::name::{assigned_name, lemma_assigned_names_distinct, NameV};
use crate::raw::{RawConstantV, RawGlobalRef, RawModuleV, RawTypeDefV, RawTypeV, wf_raw_module};
use crate::constant::ConstantV;
use crate::module::{
    all_names, decoded_aliases_upto, decoded_global_vars_upto, decoded_named_metadatas_upto,
    global_alias_name, global_var_name, global_var_of_raw, global_alias_of_raw, gnmap_of_raw,
    lemma_global_vars_err_propagates, md_init, module_of_raw, GlobalAliasV, GlobalVariableV,
    ModuleV, NamedMetadataV,
};
use crate::types::{
    def_value, lemma_types_of_raw_index, lemma_types_of_raw_len, named_struct_types_of_raw,
    pairs_lookup, type_of_raw, TypeV,
};
use vstd::prelude::*;

verus! {

/// Determinism: decoding is a function of the source graph alone, so two
/// successful decodes of the same graph agree in every field.
pub proof fn lemma_decode_deterministic(g: RawModuleV, m1: ModuleV, m2: ModuleV)
    requires
        module_of_raw(g) == Ok::<ModuleV, DecodeError>(m1),
        module_of_raw(g) == Ok::<ModuleV, DecodeError>(m2),
    ensures
        m1 == m2,
{
}

/// The textual names of the graph's global objects are pairwise distinct
/// where present (anonymous objects have the empty name, which may repeat).
pub open spec fn distinct_source_names(g: RawModuleV) -> bool {
    forall|p: int, q: int|
        0 <= p < q < all_names(g).len() && (#[trigger] all_names(g)[p]).len() > 0 && (
        #[trigger] all_names(g)[q]).len() > 0 ==> all_names(g)[p] != all_names(g)[q]
}

/// Identifier uniqueness: two distinct global objects of one graph receive
/// distinct identifiers -- textual names by hypothesis, numbers because the
/// counter never repeats a value.
pub proof fn lemma_identifier_uniqueness(g: RawModuleV, i: int, j: int)
    requires
        distinct_source_names(g),
        0 <= i < j < all_names(g).len(),
    ensures
        assigned_name(all_names(g), 0, i) != assigned_name(all_names(g), 0, j),
{
    lemma_assigned_names_distinct(all_names(g), 0, i, j);
}

/// Every successfully decoded global variable: its stored form is exactly
/// the entity decoding at its position, so in particular its identifier is
/// the one pass 1 assigned, and its type is a pointer type.
pub proof fn lemma_decoded_global_vars(g: RawModuleV, k: int)
    requires
        0 <= k <= g.globals.len(),
    ensures
        match decoded_global_vars_upto(g, k) {
            Ok(s) => s.len() == k && forall|i: int|
                0 <= i < k ==> global_var_of_raw(
                    g.type_defs,
                    gnmap_of_raw(g),
                    g.globals[i],
                    global_var_name(g, i),
                ) == Ok::<GlobalVariableV, DecodeError>(#[trigger] s[i]),
            Err(_) => true,
        },
    decreases k,
{
    if k > 0 {
        lemma_decoded_global_vars(g, k - 1);
    }
}

/// The alias counterpart of [`lemma_decoded_global_vars`].
pub proof fn lemma_decoded_aliases(g: RawModuleV, k: int)
    requires
        0 <= k <= g.aliases.len(),
    ensures
        match decoded_aliases_upto(g, k) {
            Ok(s) => s.len() == k && forall|i: int|
                0 <= i < k ==> global_alias_of_raw(
                    g.type_defs,
                    gnmap_of_raw(g),
                    g.aliases[i],
                    global_alias_name(g, i),
                ) == Ok::<GlobalAliasV, DecodeError>(#[trigger] s[i]),
            Err(_) => true,
        },
    decreases k,
{
    if k > 0 {
        lemma_decoded_aliases(g, k - 1);
    }
}

/// Identifier uniqueness over a decoded module: distinct global variables
/// carry distinct identifiers, and no variable shares its identifier with
/// an alias.
pub proof fn lemma_module_identifiers_distinct(g: RawModuleV, m: ModuleV, i: int, j: int)
    requires
        module_of_raw(g) == Ok::<ModuleV, DecodeError>(m),
        distinct_source_names(g),
        0 <= i < m.global_vars.len(),
        0 <= j < m.global_aliases.len() || (i < j < m.global_vars.len()),
    ensures
        i < j < m.global_vars.len() ==> m.global_vars[i].name != m.global_vars[j].name,
        0 <= j < m.global_aliases.len() ==> m.global_vars[i].name != m.global_aliases[j].name,
{
    let nf = g.defined_functions.len() as int;
    let nd = g.declared_functions.len() as int;
    let ng = g.globals.len() as int;
    lemma_decoded_global_vars(g, ng);
    lemma_decoded_aliases(g, g.aliases.len() as int);
    if i < j < m.global_vars.len() {
        lemma_identifier_uniqueness(g, nf + nd + i, nf + nd + j);
    }
    if 0 <= j < m.global_aliases.len() {
        lemma_identifier_uniqueness(g, nf + nd + i, nf + nd + ng + j);
    }
}

/// Pass replay: the identifier pass 2 stores in each decoded global object
/// is the identifier pass 1 recorded for that object, so no object is
/// renamed between passes.
pub proof fn lemma_pass_replay(g: RawModuleV, m: ModuleV, i: int)
    requires
        module_of_raw(g) == Ok::<ModuleV, DecodeError>(m),
    ensures
        0 <= i < m.global_vars.len() ==> m.global_vars[i].name == gnmap_of_raw(g).globals[i],
        0 <= i < m.global_aliases.len() ==> m.global_aliases[i].name == gnmap_of_raw(g).aliases[i],
{
    lemma_decoded_global_vars(g, g.globals.len() as int);
    lemma_decoded_aliases(g, g.aliases.len() as int);
}

/// Forward and circular reference resolution: when two global variables
/// reference each other through their initializers, both decode, and each
/// decoded initializer names the other's identifier.
pub proof fn lemma_circular_references_resolved(g: RawModuleV, m: ModuleV, a: int, b: int)
    requires
        module_of_raw(g) == Ok::<ModuleV, DecodeError>(m),
        0 <= a < g.globals.len(),
        0 <= b < g.globals.len(),
        g.globals[a].initializer == Some(
            RawConstantV::GlobalRef { target: RawGlobalRef::Global(b as usize) },
        ),
        g.globals[b].initializer == Some(
            RawConstantV::GlobalRef { target: RawGlobalRef::Global(a as usize) },
        ),
        b < usize::MAX as int,
        a < usize::MAX as int,
    ensures
        m.global_vars[a].initializer == Some(
            ConstantV::GlobalReference { name: global_var_name(g, b) },
        ),
        m.global_vars[b].initializer == Some(
            ConstantV::GlobalReference { name: global_var_name(g, a) },
        ),
{
    lemma_decoded_global_vars(g, g.globals.len() as int);
}

/// Type memoization: every reference to the named declaration `i` decodes
/// to the same by-name reference, and the module's table holds exactly one
/// definition behind that name.
pub proof fn lemma_type_memoization(g: RawModuleV, m: ModuleV, i: int)
    requires
        module_of_raw(g) == Ok::<ModuleV, DecodeError>(m),
        wf_raw_module(g),
        0 <= i < g.type_defs.len(),
        i < usize::MAX as int,
    ensures
        type_of_raw(g.type_defs, RawTypeV::NamedRef { index: i as usize }) == (TypeV::NamedStruct {
            name: g.type_defs[i].name,
        }),
        pairs_lookup(m.named_struct_types, g.type_defs[i].name) == Some(def_value(g.type_defs, i)),
{
    lemma_pairs_lookup_at(named_struct_types_of_raw(g.type_defs), g.type_defs, i);
}

/// With pairwise distinct keys, looking an entry's key up in the table
/// finds exactly that entry: there is one shared slot per name, never a
/// second copy.
pub proof fn lemma_pairs_lookup_distinct(s: Seq<(Seq<char>, Option<TypeV>)>, i: int)
    requires
        0 <= i < s.len(),
        forall|p: int, q: int| 0 <= p < q < s.len() ==> (#[trigger] s[p]).0 != (#[trigger] s[q]).0,
    ensures
        pairs_lookup(s, s[i].0) == Some(s[i].1),
    decreases i,
{
    if i > 0 {
        let tail = s.subrange(1, s.len() as int);
        assert forall|p: int, q: int|
            0 <= p < q < tail.len() implies (#[trigger] tail[p]).0 != (#[trigger] tail[q]).0 by {
            assert(tail[p] == s[p + 1]);
            assert(tail[q] == s[q + 1]);
        }
        assert(tail[i - 1] == s[i]);
        lemma_pairs_lookup_distinct(tail, i - 1);
    }
}

/// The bridge from declarations to table entries for [`lemma_type_memoization`].
proof fn lemma_pairs_lookup_at(s: Seq<(Seq<char>, Option<TypeV>)>, defs: Seq<RawTypeDefV>, i: int)
    requires
        s == named_struct_types_of_raw(defs),
        forall|p: int, q: int| 0 <= p < q < defs.len() ==> defs[p].name != defs[q].name,
        0 <= i < defs.len(),
    ensures
        pairs_lookup(s, defs[i].name) == Some(def_value(defs, i)),
{
    assert forall|p: int, q: int|
        0 <= p < q < s.len() implies (#[trigger] s[p]).0 != (#[trigger] s[q]).0 by {
        assert(s[p].0 == defs[p].name);
        assert(s[q].0 == defs[q].name);
    }
    assert(s[i] == (defs[i].name, def_value(defs, i)));
    lemma_pairs_lookup_distinct(s, i);
}

/// Self-referential type termination: a named declaration whose definition
/// holds a pointer back to itself decodes, and the inner reference is the
/// by-name reference to the declaration's own slot.
pub proof fn lemma_self_referential_type(defs: Seq<RawTypeDefV>, i: int, k: int, aspace: u32)
    requires
        0 <= i < defs.len(),
        i < usize::MAX as int,
        defs[i].def is Some,
        0 <= k < defs[i].def->Some_0.element_types.len(),
        defs[i].def->Some_0.element_types[k] == (RawTypeV::Pointer {
            pointee: Box::new(RawTypeV::NamedRef { index: i as usize }),
            addr_space: aspace,
        }),
    ensures
        def_value(defs, i) is Some,
        def_value(defs, i)->Some_0->Struct_element_types[k] == (TypeV::Pointer {
            pointee: Box::new(TypeV::NamedStruct { name: defs[i].name }),
            addr_space: aspace,
        }),
{
    let elems = defs[i].def->Some_0.element_types;
    lemma_types_of_raw_len(defs, elems);
    lemma_types_of_raw_index(defs, elems, k);
    assert(type_of_raw(defs, RawTypeV::NamedRef { index: i as usize }) == (TypeV::NamedStruct {
        name: defs[i].name,
    }));
    assert(type_of_raw(defs, elems[k]) == (TypeV::Pointer {
        pointee: Box::new(type_of_raw(defs, RawTypeV::NamedRef { index: i as usize })),
        addr_space: aspace,
    }));
}

/// Opaque type preservation: a declaration without a definition decodes to
/// an entry that is present in the table and deliberately empty -- not an
/// error, and not a default aggregate.
pub proof fn lemma_opaque_type_preserved(g: RawModuleV, m: ModuleV, i: int)
    requires
        module_of_raw(g) == Ok::<ModuleV, DecodeError>(m),
        wf_raw_module(g),
        0 <= i < g.type_defs.len(),
        g.type_defs[i].def is None,
    ensures
        pairs_lookup(m.named_struct_types, g.type_defs[i].name) == Some(None::<TypeV>),
{
    lemma_pairs_lookup_at(named_struct_types_of_raw(g.type_defs), g.type_defs, i);
}

/// Non-pointer global type rejection: if a global variable's resolved type
/// is not a pointer type and every global before it decodes, the whole
/// decode fails with the structural error -- never a silently wrong module.
pub proof fn lemma_non_pointer_global_rejected(g: RawModuleV, i: int)
    requires
        0 <= i < g.globals.len(),
        decoded_global_vars_upto(g, i) is Ok,
        !(type_of_raw(g.type_defs, g.globals[i].ty) is Pointer),
    ensures
        module_of_raw(g) == Err::<ModuleV, DecodeError>(DecodeError::NonPointerGlobalType),
{
    assert(decoded_global_vars_upto(g, i + 1) == Err::<Seq<GlobalVariableV>, DecodeError>(
        DecodeError::NonPointerGlobalType,
    ));
    lemma_global_vars_err_propagates(g, i + 1, g.globals.len() as int);
}

/// The converse direction: a module that decodes holds only pointer-typed
/// global variables, each with its resolved type.
pub proof fn lemma_decoded_globals_pointer_typed(g: RawModuleV, m: ModuleV, i: int)
    requires
        module_of_raw(g) == Ok::<ModuleV, DecodeError>(m),
        0 <= i < m.global_vars.len(),
    ensures
        m.global_vars[i].ty == type_of_raw(g.type_defs, g.globals[i].ty),
        m.global_vars[i].ty is Pointer,
{
    lemma_decoded_global_vars(g, g.globals.len() as int);
}

/// Metadata round trip, length part: each named metadata entry decodes to
/// one node ID per listed node.
pub proof fn lemma_md_identify_list_len(src: Seq<Seq<usize>>, ops: Seq<usize>, st: MdSt, fuel: nat)
    ensures
        match md_identify_list(src, ops, st, fuel) {
            Some(Ok((rest, st2))) => rest.len() == ops.len(),
            _ => true,
        },
    decreases fuel, 1nat, ops.len(),
{
    if ops.len() > 0 {
        match md_identify(src, ops[0], st, fuel) {
            Some(Ok((id, st1))) => {
                lemma_md_identify_list_len(src, ops.subrange(1, ops.len() as int), st1, fuel);
            },
            _ => {},
        }
    }
}

/// The indexer stays coherent over the whole run of named metadata
/// entries: IDs are in range and unique, and every settled node's table
/// entry is its decoded operand list.
#[verifier::rlimit(100)]
pub proof fn lemma_decoded_metadata_coherent(g: RawModuleV, k: int)
    requires
        0 <= k <= g.named_metadatas.len(),
        2 * g.metadata_nodes.len() <= usize::MAX as int,
    ensures
        match decoded_named_metadatas_upto(g, k) {
            Ok((s, st)) => {
                &&& md_coherent(g.metadata_nodes, st, Set::empty())
                &&& st.tbl.len() + md_unassigned(st.ids) == g.metadata_nodes.len()
                &&& s.len() == k
            },
            Err(_) => true,
        },
    decreases k,
{
    if k == 0 {
        lemma_md_unassigned_all_none(g.metadata_nodes.len());
        assert(md_init(g).ids =~= Seq::new(g.metadata_nodes.len(), |i: int| None::<usize>));
    } else {
        lemma_decoded_metadata_coherent(g, k - 1);
        match decoded_named_metadatas_upto(g, k - 1) {
            Ok((s, st)) => {
                let ops = g.named_metadatas[k - 1].operands;
                let fuel = g.metadata_nodes.len();
                lemma_md_unassigned_le_len(st.ids);
                lemma_md_identify_list_coherent(g.metadata_nodes, ops, st, fuel, Set::empty());
                lemma_md_identify_list_ext(g.metadata_nodes, ops, st, fuel);
            },
            Err(_) => {},
        }
    }
}

/// The `p`-th node ID of the decoded entry `e` is the indexer's ID for the
/// `p`-th source node the entry listed, and it never changes once the
/// entry is decoded.
#[verifier::rlimit(100)]
pub proof fn lemma_entry_node_ids(g: RawModuleV, k: int, e: int, p: int)
    requires
        2 * g.metadata_nodes.len() <= usize::MAX as int,
        0 <= e < k <= g.named_metadatas.len(),
        0 <= p < g.named_metadatas[e].operands.len(),
    ensures
        match decoded_named_metadatas_upto(g, k) {
            Ok((s, st)) => (g.named_metadatas[e].operands[p] as int) < g.metadata_nodes.len()
                && st.ids[g.named_metadatas[e].operands[p] as int] == Some(s[e].node_ids[p]),
            Err(_) => true,
        },
    decreases k,
{
    lemma_decoded_metadata_coherent(g, k - 1);
    match decoded_named_metadatas_upto(g, k - 1) {
        Ok((s, st)) => {
            let ops = g.named_metadatas[k - 1].operands;
            let fuel = g.metadata_nodes.len();
            lemma_md_unassigned_le_len(st.ids);
            lemma_md_identify_list_coherent(g.metadata_nodes, ops, st, fuel, Set::empty());
            lemma_md_identify_list_ext(g.metadata_nodes, ops, st, fuel);
            match md_identify_list(g.metadata_nodes, ops, st, fuel) {
                Some(Ok((rest, st2))) => {
                    let s2 = s.push(
                        NamedMetadataV { name: g.named_metadatas[k - 1].name, node_ids: rest },
                    );
                    if e == k - 1 {
                        assert(s2[e].node_ids == rest);
                        assert((ops[p] as int) < g.metadata_nodes.len());
                        assert(st2.ids[ops[p] as int] == Some(rest[p]));
                    } else {
                        lemma_entry_node_ids(g, k - 1, e, p);
                        let idx = g.named_metadatas[e].operands[p] as int;
                        assert(s2[e] == s[e]);
                        assert(st.ids[idx] == Some(s[e].node_ids[p]));
                        assert(md_ext(st, st2));
                        assert(st.ids.len() == g.metadata_nodes.len());
                        assert(st2.ids[idx] == st.ids[idx]);
                    }
                },
                _ => {},
            }
        },
        Err(_) => {},
    }
}

/// Metadata round trip, content part: the `p`-th ID of a decoded named
/// metadata entry denotes exactly the decoded content of the `p`-th source
/// node the entry listed, whatever the nodes' declaration order.
#[verifier::rlimit(100)]
pub proof fn lemma_metadata_round_trip(g: RawModuleV, m: ModuleV, e: int, p: int)
    requires
        module_of_raw(g) == Ok::<ModuleV, DecodeError>(m),
        2 * g.metadata_nodes.len() <= usize::MAX as int,
        0 <= e < g.named_metadatas.len(),
        0 <= p < g.named_metadatas[e].operands.len(),
    ensures
        m.named_metadatas[e].node_ids.len() == g.named_metadatas[e].operands.len(),
        (m.named_metadatas[e].node_ids[p] as int) < m.metadata_nodes.len(),
        ({
            let st = decoded_named_metadatas_upto(g, g.named_metadatas.len() as int)->Ok_0.1;
            let src_idx = g.named_metadatas[e].operands[p] as int;
            &&& m.metadata_nodes == st.tbl
            &&& st.ids[src_idx] == Some(m.named_metadatas[e].node_ids[p])
            &&& md_node_decoded(g.metadata_nodes, st, src_idx)
        }),
{
    let n = g.named_metadatas.len() as int;
    lemma_named_metadata_lengths(g, n);
    lemma_decoded_metadata_coherent(g, n);
    lemma_entry_node_ids(g, n, e, p);
    let s = decoded_named_metadatas_upto(g, n)->Ok_0.0;
    let st = decoded_named_metadatas_upto(g, n)->Ok_0.1;
    let src_idx = g.named_metadatas[e].operands[p] as int;
    assert(m.named_metadatas == s);
    assert(m.metadata_nodes == st.tbl);
    assert(st.ids[src_idx] == Some(s[e].node_ids[p]));
    assert(st.ids[src_idx] is Some);
    assert(!Set::<int>::empty().contains(src_idx));
    assert(md_node_decoded(g.metadata_nodes, st, src_idx));
    assert((st.ids[src_idx]->Some_0 as int) < st.tbl.len());
}

/// Metadata round trip at the module level: entry `e` of the decoded
/// module lists exactly as many node IDs as the source entry lists nodes,
/// under the source entry's name.
pub proof fn lemma_named_metadata_lengths(g: RawModuleV, k: int)
    requires
        0 <= k <= g.named_metadatas.len(),
    ensures
        match decoded_named_metadatas_upto(g, k) {
            Ok((s, st)) => s.len() == k && forall|e: int|
                0 <= e < k ==> (#[trigger] s[e]).name == g.named_metadatas[e].name && s[e].node_ids.len()
                    == g.named_metadatas[e].operands.len(),
            Err(_) => true,
        },
    decreases k,
{
    if k > 0 {
        lemma_named_metadata_lengths(g, k - 1);
        match decoded_named_metadatas_upto(g, k - 1) {
            Ok((s, st)) => {
                lemma_md_identify_list_len(
                    g.metadata_nodes,
                    g.named_metadatas[k - 1].operands,
                    st,
                    g.metadata_nodes.len(),
                );
            },
            Err(_) => {},
        }
    }
}

} // verus!
