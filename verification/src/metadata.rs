//! The metadata indexer: every metadata node receives a stable integer ID
//! on first encounter, registered before the node's operands are decoded,
//! so the possibly cyclic metadata graph is walked without re-entering a
//! node.  Every reference to a node, from an operand list or a named
//! metadata entry, is an ID into the finished table.

use crate::error::DecodeError;
use crate::raw::RawMetadataNode;
use vstd::prelude::*;

verus! {

/// The stable ID of a decoded metadata node: its position in the module's
/// metadata node table.
pub type MetadataNodeID = usize;

/// A decoded metadata node: its operands, each the ID of another decoded
/// node.
#[derive(PartialEq, Eq, Clone, Debug)]
pub struct MetadataNode {
    pub operands: Vec<MetadataNodeID>,
}

impl DeepView for MetadataNode {
    type V = Seq<usize>;

    open spec fn deep_view(&self) -> Seq<usize> {
        self.operands@
    }
}

/// The table of decoded metadata nodes, keyed by assigned ID.
pub type MetadataNodeMap = Vec<MetadataNode>;

/// Decode-time state of the indexer: for every source node, its assigned ID
/// if it has one, and the table of decoded nodes built so far.  A node's
/// table entry stays empty between registration and the end of its own
/// decoding.
pub ghost struct MdSt {
    pub ids: Seq<Option<usize>>,
    pub tbl: Seq<Seq<usize>>,
}

/// What identifying source node `i` does to the state: returns the
/// already-assigned ID unchanged, or registers the next sequential ID,
/// decodes the node's operands (which may re-enter the indexer), and then
/// fills the node's table entry.  `None` means the fuel ran out, which a
/// caller with fuel at least [`md_unassigned`] never observes.
pub open spec fn md_identify(src: Seq<Seq<usize>>, i: usize, st: MdSt, fuel: nat) -> Option<
    Result<(usize, MdSt), DecodeError>,
>
    decreases fuel, 0nat, 0nat,
{
    if i >= src.len() {
        Some(Err(DecodeError::MetadataRefNotFound))
    } else if st.ids[i as int] is Some {
        Some(Ok((st.ids[i as int]->Some_0, st)))
    } else if fuel == 0 {
        None
    } else {
        let id = st.tbl.len() as usize;
        let st1 = MdSt {
            ids: st.ids.update(i as int, Some(id)),
            tbl: st.tbl.push(Seq::empty()),
        };
        match md_identify_list(src, src[i as int], st1, (fuel - 1) as nat) {
            None => None,
            Some(Err(e)) => Some(Err(e)),
            Some(Ok((ops, st2))) => Some(
                Ok((id, MdSt { ids: st2.ids, tbl: st2.tbl.update(id as int, ops) })),
            ),
        }
    }
}

pub open spec fn md_identify_list(
    src: Seq<Seq<usize>>,
    ops: Seq<usize>,
    st: MdSt,
    fuel: nat,
) -> Option<Result<(Seq<usize>, MdSt), DecodeError>>
    decreases fuel, 1nat, ops.len(),
{
    if ops.len() == 0 {
        Some(Ok((Seq::empty(), st)))
    } else {
        match md_identify(src, ops[0], st, fuel) {
            None => None,
            Some(Err(e)) => Some(Err(e)),
            Some(Ok((id, st1))) => match md_identify_list(
                src,
                ops.subrange(1, ops.len() as int),
                st1,
                fuel,
            ) {
                None => None,
                Some(Err(e)) => Some(Err(e)),
                Some(Ok((rest, st2))) => Some(Ok((seq![id] + rest, st2))),
            },
        }
    }
}

/// The number of source nodes without an assigned ID: the indexer's fuel
/// requirement and decreasing measure.
pub open spec fn md_unassigned(ids: Seq<Option<usize>>) -> nat
    decreases ids,
{
    if ids.len() == 0 {
        0
    } else {
        md_unassigned(ids.subrange(0, ids.len() - 1)) + if ids[ids.len() - 1] is None {
            1nat
        } else {
            0nat
        }
    }
}

pub proof fn lemma_md_unassigned_update(ids: Seq<Option<usize>>, i: int, v: usize)
    requires
        0 <= i < ids.len(),
        ids[i] is None,
    ensures
        md_unassigned(ids.update(i, Some(v))) + 1 == md_unassigned(ids),
    decreases ids,
{
    let s2 = ids.update(i, Some(v));
    if i == ids.len() - 1 {
        assert(s2.subrange(0, s2.len() - 1) =~= ids.subrange(0, ids.len() - 1));
    } else {
        assert(s2.subrange(0, s2.len() - 1) =~= ids.subrange(0, ids.len() - 1).update(i, Some(v)));
        lemma_md_unassigned_update(ids.subrange(0, ids.len() - 1), i, v);
    }
}

pub proof fn lemma_md_unassigned_mono(s1: Seq<Option<usize>>, s2: Seq<Option<usize>>)
    requires
        s1.len() == s2.len(),
        forall|i: int| 0 <= i < s1.len() && s1[i] is Some ==> s2[i] == s1[i],
    ensures
        md_unassigned(s2) <= md_unassigned(s1),
    decreases s1,
{
    if s1.len() > 0 {
        lemma_md_unassigned_mono(s1.subrange(0, s1.len() - 1), s2.subrange(0, s2.len() - 1));
    }
}

pub proof fn lemma_md_unassigned_all_none(n: nat)
    ensures
        md_unassigned(Seq::new(n, |i: int| None::<usize>)) == n,
    decreases n,
{
    let s = Seq::new(n, |i: int| None::<usize>);
    if n > 0 {
        assert(s.subrange(0, s.len() - 1) =~= Seq::new((n - 1) as nat, |i: int| None::<usize>));
        lemma_md_unassigned_all_none((n - 1) as nat);
    }
}

pub proof fn lemma_md_unassigned_le_len(ids: Seq<Option<usize>>)
    ensures
        md_unassigned(ids) <= ids.len(),
    decreases ids,
{
    if ids.len() > 0 {
        lemma_md_unassigned_le_len(ids.subrange(0, ids.len() - 1));
    }
}

/// One state extends another: every assigned ID survives unchanged, and
/// the already-built part of the table survives unchanged.
pub open spec fn md_ext(st: MdSt, st2: MdSt) -> bool {
    &&& st2.ids.len() == st.ids.len()
    &&& forall|j: int| 0 <= j < st.ids.len() && st.ids[j] is Some ==> st2.ids[j] == st.ids[j]
    &&& st2.tbl.len() >= st.tbl.len()
    &&& forall|j: int| 0 <= j < st.tbl.len() ==> st2.tbl[j] == st.tbl[j]
}

/// Successful identification only extends the state, and assigns exactly
/// one table entry per ID it hands out.
pub proof fn lemma_md_identify_ext(src: Seq<Seq<usize>>, i: usize, st: MdSt, fuel: nat)
    requires
        st.ids.len() == src.len(),
        fuel + st.tbl.len() + md_unassigned(st.ids) <= usize::MAX,
    ensures
        match md_identify(src, i, st, fuel) {
            Some(Ok((id, st2))) => md_ext(st, st2) && st2.tbl.len() + md_unassigned(st2.ids)
                == st.tbl.len() + md_unassigned(st.ids),
            _ => true,
        },
    decreases fuel, 0nat, 0nat,
{
    if i < src.len() && st.ids[i as int] is None && fuel > 0 {
        let id = st.tbl.len() as usize;
        let st1 = MdSt {
            ids: st.ids.update(i as int, Some(id)),
            tbl: st.tbl.push(Seq::empty()),
        };
        lemma_md_unassigned_update(st.ids, i as int, id);
        lemma_md_identify_list_ext(src, src[i as int], st1, (fuel - 1) as nat);
        match md_identify_list(src, src[i as int], st1, (fuel - 1) as nat) {
            Some(Ok((ops, st2))) => {
                let stf = MdSt { ids: st2.ids, tbl: st2.tbl.update(id as int, ops) };
                assert(md_ext(st, stf));
            },
            _ => {},
        }
    }
}

pub proof fn lemma_md_identify_list_ext(
    src: Seq<Seq<usize>>,
    ops: Seq<usize>,
    st: MdSt,
    fuel: nat,
)
    requires
        st.ids.len() == src.len(),
        fuel + st.tbl.len() + md_unassigned(st.ids) <= usize::MAX,
    ensures
        match md_identify_list(src, ops, st, fuel) {
            Some(Ok((rest, st2))) => md_ext(st, st2) && st2.tbl.len() + md_unassigned(st2.ids)
                == st.tbl.len() + md_unassigned(st.ids),
            _ => true,
        },
    decreases fuel, 1nat, ops.len(),
{
    if ops.len() > 0 {
        lemma_md_identify_ext(src, ops[0], st, fuel);
        match md_identify(src, ops[0], st, fuel) {
            Some(Ok((id, st1))) => {
                lemma_md_identify_list_ext(src, ops.subrange(1, ops.len() as int), st1, fuel);

            },
            _ => {},
        }
    }
}

/// Source node `i` is fully decoded in `st`: its operands all carry IDs,
/// and its own table entry lists exactly those IDs, in operand order.
pub open spec fn md_node_decoded(src: Seq<Seq<usize>>, st: MdSt, i: int) -> bool {
    &&& forall|k: int|
        0 <= k < src[i].len() ==> (src[i][k] as int) < src.len() && st.ids[#[trigger] src[i][k] as int] is Some
    &&& st.tbl[st.ids[i]->Some_0 as int] == Seq::new(
        src[i].len(),
        |k: int| st.ids[src[i][k] as int]->Some_0,
    )
}

/// The indexer's invariant, away from the nodes in `pend` whose own frames
/// are still open: every assigned ID is in the table's range, no two nodes
/// share an ID, and every settled node's table entry holds its decoded
/// operand list.
pub open spec fn md_coherent(src: Seq<Seq<usize>>, st: MdSt, pend: Set<int>) -> bool {
    &&& st.ids.len() == src.len()
    &&& forall|i: int|
        0 <= i < src.len() && #[trigger] st.ids[i] is Some ==> (st.ids[i]->Some_0 as int)
            < st.tbl.len()
    &&& forall|i: int, j: int|
        0 <= i < src.len() && 0 <= j < src.len() && #[trigger] st.ids[i] is Some
            && #[trigger] st.ids[j] is Some && st.ids[i] == st.ids[j] ==> i == j
    &&& forall|i: int|
        0 <= i < src.len() && #[trigger] st.ids[i] is Some && !pend.contains(i)
            ==> md_node_decoded(src, st, i)
    &&& forall|i: int| #[trigger] pend.contains(i) ==> 0 <= i < src.len() && st.ids[i] is Some
}

/// Identification preserves coherence, and settles the identified node.
pub proof fn lemma_md_identify_coherent(
    src: Seq<Seq<usize>>,
    i: usize,
    st: MdSt,
    fuel: nat,
    pend: Set<int>,
)
    requires
        md_coherent(src, st, pend),
        fuel + st.tbl.len() + md_unassigned(st.ids) <= usize::MAX,
    ensures
        match md_identify(src, i, st, fuel) {
            Some(Ok((id, st2))) => md_coherent(src, st2, pend) && st2.ids[i as int] == Some(id),
            _ => true,
        },
    decreases fuel, 0nat, 0nat,
{
    if i < src.len() && st.ids[i as int] is None && fuel > 0 {
        let id = st.tbl.len() as usize;
        let st1 = MdSt {
            ids: st.ids.update(i as int, Some(id)),
            tbl: st.tbl.push(Seq::empty()),
        };
        let pend1 = pend.insert(i as int);
        lemma_md_unassigned_update(st.ids, i as int, id);
        assert forall|j: int|
            0 <= j < src.len() && #[trigger] st1.ids[j] is Some && !pend1.contains(j)
                implies md_node_decoded(src, st1, j) by {
            assert(st1.ids[j] == st.ids[j]);
            assert(md_node_decoded(src, st, j));
            assert(Seq::new(src[j].len(), |k: int| st1.ids[src[j][k] as int]->Some_0) =~= Seq::new(
                src[j].len(),
                |k: int| st.ids[src[j][k] as int]->Some_0,
            ));
        }
        assert(md_coherent(src, st1, pend1));
        lemma_md_identify_list_ext(src, src[i as int], st1, (fuel - 1) as nat);
        lemma_md_identify_list_coherent(src, src[i as int], st1, (fuel - 1) as nat, pend1);
        match md_identify_list(src, src[i as int], st1, (fuel - 1) as nat) {
            Some(Ok((ops, st2))) => {
                let stf = MdSt { ids: st2.ids, tbl: st2.tbl.update(id as int, ops) };
                assert(st2.ids[i as int] == Some(id));
                assert((id as int) < st2.tbl.len());
                assert(md_node_decoded(src, stf, i as int)) by {
                    assert(stf.tbl[id as int] == ops);
                    assert(ops =~= Seq::new(
                        src[i as int].len(),
                        |k: int| stf.ids[src[i as int][k] as int]->Some_0,
                    ));
                }
                assert forall|j: int|
                    0 <= j < src.len() && #[trigger] stf.ids[j] is Some && !pend.contains(j)
                        implies md_node_decoded(src, stf, j) by {
                    if j == i as int {
                    } else {
                        assert(md_node_decoded(src, st2, j));
                        assert(st2.ids[j]->Some_0 as int != id as int);
                        assert(stf.tbl[st2.ids[j]->Some_0 as int] == st2.tbl[st2.ids[j]->Some_0 as int]);
                    }
                }
                assert(md_coherent(src, stf, pend));
            },
            _ => {},
        }
    }
}

pub proof fn lemma_md_identify_list_coherent(
    src: Seq<Seq<usize>>,
    ops: Seq<usize>,
    st: MdSt,
    fuel: nat,
    pend: Set<int>,
)
    requires
        md_coherent(src, st, pend),
        fuel + st.tbl.len() + md_unassigned(st.ids) <= usize::MAX,
    ensures
        match md_identify_list(src, ops, st, fuel) {
            Some(Ok((rest, st2))) => md_coherent(src, st2, pend) && rest.len() == ops.len()
                && forall|k: int|
                0 <= k < ops.len() ==> (ops[k] as int) < src.len() && st2.ids[#[trigger] ops[k] as int]
                    == Some(rest[k]),
            _ => true,
        },
    decreases fuel, 1nat, ops.len(),
{
    if ops.len() > 0 {
        lemma_md_identify_coherent(src, ops[0], st, fuel, pend);
        lemma_md_identify_ext(src, ops[0], st, fuel);
        match md_identify(src, ops[0], st, fuel) {
            Some(Ok((id, st1))) => {
                let tail = ops.subrange(1, ops.len() as int);
                lemma_md_identify_list_coherent(src, tail, st1, fuel, pend);
                lemma_md_identify_list_ext(src, tail, st1, fuel);
                match md_identify_list(src, tail, st1, fuel) {
                    Some(Ok((rest, st2))) => {
                        let full = seq![id] + rest;
                        assert(full.len() == ops.len());
                        assert forall|k: int|
                            0 <= k < ops.len() implies (ops[k] as int) < src.len()
                            && st2.ids[#[trigger] ops[k] as int] == Some(full[k]) by {
                            if k == 0 {
                                assert(st1.ids[ops[0] as int] == Some(id));
                                assert(st2.ids[ops[0] as int] == st1.ids[ops[0] as int]);
                                assert(full[0] == id);
                            } else {
                                assert(tail[k - 1] == ops[k]);
                                assert(full[k] == rest[k - 1]);
                            }
                        }
                    },
                    _ => {},
                }
            },
            _ => {},
        }
    }
}

/// Identify one source node, registering it and decoding its operands on
/// first encounter.
pub fn identify(
    src: &Vec<RawMetadataNode>,
    i: usize,
    ids: &mut Vec<Option<usize>>,
    tbl: &mut Vec<MetadataNode>,
    fuel: usize,
) -> (r: Result<usize, DecodeError>)
    requires
        old(ids)@.len() == src@.len(),
        fuel as nat >= md_unassigned(old(ids)@),
        fuel as nat + old(tbl)@.len() + md_unassigned(old(ids)@) <= usize::MAX,
    ensures
        final(ids)@.len() == src@.len(),
        match r {
            Ok(id) => md_identify(
                src.deep_view(),
                i,
                MdSt { ids: old(ids)@, tbl: old(tbl).deep_view() },
                fuel as nat,
            ) == Some(Ok::<(usize, MdSt), DecodeError>((id, MdSt { ids: final(ids)@, tbl: final(tbl).deep_view() }))),
            Err(e) => md_identify(
                src.deep_view(),
                i,
                MdSt { ids: old(ids)@, tbl: old(tbl).deep_view() },
                fuel as nat,
            ) == Some(Err::<(usize, MdSt), DecodeError>(e)),
        },
    decreases fuel, 0nat,
{
    let ghost src_v = src.deep_view();
    let ghost st0 = MdSt { ids: ids@, tbl: tbl.deep_view() };
    if i >= src.len() {
        return Err(DecodeError::MetadataRefNotFound);
    }
    if let Some(id) = ids[i] {
        return Ok(id);
    }
    proof {
        lemma_md_unassigned_update(ids@, i as int, 0);
        assert(md_unassigned(st0.ids) >= 1);
    }
    let id = tbl.len();
    ids.set(i, Some(id));
    tbl.push(MetadataNode { operands: Vec::new() });
    let ghost st1 = MdSt { ids: ids@, tbl: tbl.deep_view() };
    proof {
        lemma_md_unassigned_update(st0.ids, i as int, id);
        assert(st1.ids =~= st0.ids.update(i as int, Some(id)));
        assert(st1.tbl =~= st0.tbl.push(Seq::empty()));
    }
    match identify_list(src, &src[i].operands, ids, tbl, fuel - 1) {
        Ok(v) => {
            let ghost st2 = MdSt { ids: ids@, tbl: tbl.deep_view() };
            proof {
                assert(src@[i as int].operands@ == src_v[i as int]);
                lemma_md_identify_list_ext(src_v, src_v[i as int], st1, (fuel - 1) as nat);
                assert(id < st2.tbl.len());
            }
            tbl.set(id, MetadataNode { operands: v });
            proof {
                assert(tbl.deep_view() =~= st2.tbl.update(id as int, st2.tbl[id as int]).update(
                    id as int,
                    tbl.deep_view()[id as int],
                ));
                assert(tbl.deep_view() =~= st2.tbl.update(
                    id as int,
                    MetadataNode { operands: v }.deep_view(),
                ));
            }
            Ok(id)
        },
        Err(e) => {
            proof {
                assert(src@[i as int].operands@ == src_v[i as int]);
            }
            Err(e)
        },
    }
}

/// Identify every node in an operand list, left to right.
pub fn identify_list(
    src: &Vec<RawMetadataNode>,
    ops: &Vec<usize>,
    ids: &mut Vec<Option<usize>>,
    tbl: &mut Vec<MetadataNode>,
    fuel: usize,
) -> (r: Result<Vec<usize>, DecodeError>)
    requires
        old(ids)@.len() == src@.len(),
        fuel as nat >= md_unassigned(old(ids)@),
        fuel as nat + old(tbl)@.len() + md_unassigned(old(ids)@) <= usize::MAX,
    ensures
        final(ids)@.len() == src@.len(),
        match r {
            Ok(v) => md_identify_list(
                src.deep_view(),
                ops@,
                MdSt { ids: old(ids)@, tbl: old(tbl).deep_view() },
                fuel as nat,
            ) == Some(Ok::<(Seq<usize>, MdSt), DecodeError>((v@, MdSt { ids: final(ids)@, tbl: final(tbl).deep_view() }))),
            Err(e) => md_identify_list(
                src.deep_view(),
                ops@,
                MdSt { ids: old(ids)@, tbl: old(tbl).deep_view() },
                fuel as nat,
            ) == Some(Err::<(Seq<usize>, MdSt), DecodeError>(e)),
        },
    decreases fuel, 1nat,
{
    let ghost src_v = src.deep_view();
    let ghost st0 = MdSt { ids: ids@, tbl: tbl.deep_view() };
    let ghost ops_v = ops@;
    let n = ops.len();
    let mut collected: Vec<usize> = Vec::new();
    let mut k: usize = 0;
    proof {
        assert(ops_v.subrange(0, ops_v.len() as int) =~= ops_v);
        assert forall|rest: Seq<usize>| true implies Seq::<usize>::empty() + rest =~= rest by {}
    }
    while k < n
        invariant
            k <= n,
            n == ops@.len(),
            ops_v == ops@,
            src_v == src.deep_view(),
            ids@.len() == src@.len(),
            fuel as nat >= md_unassigned(ids@),
            st0 == (MdSt { ids: old(ids)@, tbl: old(tbl).deep_view() }),
            tbl.deep_view().len() + md_unassigned(ids@) == st0.tbl.len() + md_unassigned(st0.ids),
            fuel as nat + st0.tbl.len() + md_unassigned(st0.ids) <= usize::MAX,
            md_identify_list(src_v, ops_v, st0, fuel as nat) == (match md_identify_list(
                src_v,
                ops_v.subrange(k as int, ops_v.len() as int),
                MdSt { ids: ids@, tbl: tbl.deep_view() },
                fuel as nat,
            ) {
                None => None,
                Some(Err(e)) => Some(Err(e)),
                Some(Ok((rest, stf))) => Some(Ok((collected@ + rest, stf))),
            }),
        decreases n - k,
    {
        let ghost cur = MdSt { ids: ids@, tbl: tbl.deep_view() };
        let ghost suffix = ops_v.subrange(k as int, ops_v.len() as int);
        proof {
            assert(suffix[0] == ops_v[k as int]);
        }
        let op = ops[k];
        match identify(src, op, ids, tbl, fuel) {
            Ok(opid) => {
                let ghost next = MdSt { ids: ids@, tbl: tbl.deep_view() };
                proof {
                    lemma_md_identify_ext(src_v, op, cur, fuel as nat);
                    lemma_md_unassigned_mono(cur.ids, next.ids);
                    assert(suffix.subrange(1, suffix.len() as int) =~= ops_v.subrange(
                        k + 1 as int,
                        ops_v.len() as int,
                    ));
                }
                let ghost old_collected = collected@;
                collected.push(opid);
                proof {
                    assert forall|rest: Seq<usize>|
                        true implies old_collected + (seq![opid] + rest) =~= collected@
                        + rest by {}
                }
                k += 1;
            },
            Err(e) => {
                proof {
                    assert(md_identify_list(src_v, suffix, cur, fuel as nat)
                        == Some(Err::<(Seq<usize>, MdSt), DecodeError>(e)));
                }
                return Err(e);
            },
        }
    }
    proof {
        assert(ops_v.subrange(n as int, ops_v.len() as int).len() == 0);
    }
    Ok(collected)
}

} // verus!
