//! Types of the decoded module, and the type memoizer.
//!
//! Named struct declarations are resolved through a slot table: a slot is
//! registered (empty) before the definition behind it is constructed, so a
//! self- or mutually-referential definition that reaches its own name again
//! finds the slot already present and stops recursing.  A slot that stays
//! empty once construction is over denotes an opaque declaration.

use crate::raw::{RawStructDef, RawType, RawTypeDef, RawTypeDefV, RawTypeV};
use crate::raw::{
    lemma_raw_types_view_index, lemma_raw_types_view_len, wf_raw_type, wf_raw_type_defs,
    wf_raw_types,
};
use vstd::prelude::*;

verus! {

broadcast use lemma_raw_types_view_len, lemma_raw_types_view_index;

/// A type of the decoded module. Named struct types are referenced by name;
/// the definition behind a name lives once in the module's
/// `named_struct_types` table.
#[derive(PartialEq, Eq, Debug)]
pub enum Type {
    VoidType,
    IntegerType { bits: u32 },
    PointerType { pointee_type: Box<Type>, addr_space: u32 },
    StructType { element_types: Vec<Type>, is_packed: bool },
    NamedStructType { name: String },
}

/// Mathematical model of a [`Type`].
pub ghost enum TypeV {
    Void,
    Integer { bits: u32 },
    Pointer { pointee: Box<TypeV>, addr_space: u32 },
    Struct { element_types: Seq<TypeV>, is_packed: bool },
    NamedStruct { name: Seq<char> },
}

/// Mathematical model of a [`Type`] value.
pub open spec fn type_view(t: Type) -> TypeV
    decreases t,
{
    match t {
        Type::VoidType => TypeV::Void,
        Type::IntegerType { bits } => TypeV::Integer { bits },
        Type::PointerType { pointee_type, addr_space } => TypeV::Pointer {
            pointee: Box::new(type_view(*pointee_type)),
            addr_space,
        },
        Type::StructType { element_types, is_packed } => TypeV::Struct {
            element_types: types_view(element_types@),
            is_packed,
        },
        Type::NamedStructType { name } => TypeV::NamedStruct { name: name@ },
    }
}

/// Mathematical model of a sequence of [`Type`] values.
pub open spec fn types_view(ts: Seq<Type>) -> Seq<TypeV>
    decreases ts,
{
    if ts.len() == 0 {
        Seq::empty()
    } else {
        types_view(ts.subrange(0, ts.len() - 1)).push(type_view(ts[ts.len() - 1]))
    }
}

pub broadcast proof fn lemma_types_view_len(ts: Seq<Type>)
    ensures
        (#[trigger] types_view(ts)).len() == ts.len(),
    decreases ts,
{
    if ts.len() > 0 {
        lemma_types_view_len(ts.subrange(0, ts.len() - 1));
    }
}

pub broadcast proof fn lemma_types_view_index(ts: Seq<Type>, k: int)
    requires
        0 <= k < ts.len(),
    ensures
        (#[trigger] types_view(ts)[k]) == type_view(ts[k]),
    decreases ts,
{
    lemma_types_view_len(ts);
    if k < ts.len() - 1 {
        lemma_types_view_index(ts.subrange(0, ts.len() - 1), k);
    }
}

/// The size of a decoded type: the measure deep copying decreases.
pub open spec fn tv_size(t: TypeV) -> nat
    decreases t,
{
    match t {
        TypeV::Void => 1,
        TypeV::Integer { .. } => 1,
        TypeV::Pointer { pointee, .. } => 1 + tv_size(*pointee),
        TypeV::Struct { element_types, .. } => 1 + tv_list_size(element_types),
        TypeV::NamedStruct { .. } => 1,
    }
}

pub open spec fn tv_list_size(ts: Seq<TypeV>) -> nat
    decreases ts,
{
    if ts.len() == 0 {
        0
    } else {
        tv_list_size(ts.subrange(0, ts.len() - 1)) + tv_size(ts[ts.len() - 1])
    }
}

pub proof fn lemma_tv_size_index(ts: Seq<TypeV>, k: int)
    requires
        0 <= k < ts.len(),
    ensures
        tv_size(ts[k]) <= tv_list_size(ts),
    decreases ts,
{
    if k < ts.len() - 1 {
        lemma_tv_size_index(ts.subrange(0, ts.len() - 1), k);
    }
}

impl DeepView for Type {
    type V = TypeV;

    open spec fn deep_view(&self) -> TypeV {
        type_view(*self)
    }
}

impl Clone for Type {
    /// A deep copy: the copy has the same mathematical value.
    fn clone(&self) -> (r: Self)
        ensures
            r.deep_view() == self.deep_view(),
        decreases tv_size(self.deep_view()),
    {
        match self {
            Type::VoidType => Type::VoidType,
            Type::IntegerType { bits } => Type::IntegerType { bits: *bits },
            Type::PointerType { pointee_type, addr_space } => Type::PointerType {
                pointee_type: Box::new((**pointee_type).clone()),
                addr_space: *addr_space,
            },
            Type::StructType { element_types, is_packed } => {
                let ghost ts_v = types_view(element_types@);
                let n = element_types.len();
                let mut copies: Vec<Type> = Vec::new();
                let mut k: usize = 0;
                while k < n
                    invariant
                        k <= n,
                        n == element_types@.len(),
                        ts_v == types_view(element_types@),
                        tv_size(self.deep_view()) == 1 + tv_list_size(ts_v),
                        types_view(copies@) == types_view(element_types@.subrange(0, k as int)),
                    decreases n - k,
                {
                    let ghost old_copies = copies@;
                    proof {
                        lemma_types_view_len(element_types@);
                        lemma_types_view_index(element_types@, k as int);
                        lemma_tv_size_index(ts_v, k as int);
                        assert(ts_v[k as int] == type_view(element_types@[k as int]));
                    }
                    copies.push(element_types[k].clone());
                    proof {
                        let prefix1 = element_types@.subrange(0, k + 1 as int);
                        assert(prefix1.subrange(0, prefix1.len() - 1) =~= element_types@.subrange(
                            0,
                            k as int,
                        ));
                        assert(copies@.subrange(0, copies@.len() - 1) =~= old_copies);
                    }
                    k += 1;
                }
                proof {
                    assert(element_types@.subrange(0, element_types@.len() as int)
                        =~= element_types@);
                }
                Type::StructType { element_types: copies, is_packed: *is_packed }
            },
            Type::NamedStructType { name } => Type::NamedStructType { name: name.clone() },
        }
    }
}

// ---------------------------------------------------------------------------
// The mathematical decoding of raw types.
// ---------------------------------------------------------------------------

/// What a raw type decodes to.  A reference to the named declaration at
/// `index` decodes to a by-name reference; the definition behind the name is
/// constructed once, into the named-type slot table, not at every reference
/// site.
pub open spec fn type_of_raw(defs: Seq<RawTypeDefV>, t: RawTypeV) -> TypeV
    decreases t,
{
    match t {
        RawTypeV::Void => TypeV::Void,
        RawTypeV::Integer { bits } => TypeV::Integer { bits },
        RawTypeV::Pointer { pointee, addr_space } => TypeV::Pointer {
            pointee: Box::new(type_of_raw(defs, *pointee)),
            addr_space,
        },
        RawTypeV::Struct { element_types, is_packed } => TypeV::Struct {
            element_types: types_of_raw(defs, element_types),
            is_packed,
        },
        RawTypeV::NamedRef { index } => TypeV::NamedStruct { name: defs[index as int].name },
    }
}

pub open spec fn types_of_raw(defs: Seq<RawTypeDefV>, ts: Seq<RawTypeV>) -> Seq<TypeV>
    decreases ts,
{
    if ts.len() == 0 {
        Seq::empty()
    } else {
        types_of_raw(defs, ts.subrange(0, ts.len() - 1)).push(
            type_of_raw(defs, ts[ts.len() - 1]),
        )
    }
}

pub broadcast proof fn lemma_types_of_raw_len(defs: Seq<RawTypeDefV>, ts: Seq<RawTypeV>)
    ensures
        (#[trigger] types_of_raw(defs, ts)).len() == ts.len(),
    decreases ts,
{
    if ts.len() > 0 {
        lemma_types_of_raw_len(defs, ts.subrange(0, ts.len() - 1));
    }
}

pub broadcast proof fn lemma_types_of_raw_index(defs: Seq<RawTypeDefV>, ts: Seq<RawTypeV>, k: int)
    requires
        0 <= k < ts.len(),
    ensures
        (#[trigger] types_of_raw(defs, ts)[k]) == type_of_raw(defs, ts[k]),
    decreases ts,
{
    lemma_types_of_raw_len(defs, ts);
    if k < ts.len() - 1 {
        lemma_types_of_raw_index(defs, ts.subrange(0, ts.len() - 1), k);
    }
}

/// The value the slot of declaration `i` holds once decoding is complete:
/// nothing for an opaque declaration, the constructed struct type otherwise.
pub open spec fn def_value(defs: Seq<RawTypeDefV>, i: int) -> Option<TypeV> {
    match defs[i].def {
        None => None,
        Some(sd) => Some(
            TypeV::Struct {
                element_types: types_of_raw(defs, sd.element_types),
                is_packed: sd.is_packed,
            },
        ),
    }
}

/// The finished named-struct-type table: one entry per declaration, in
/// declaration order.
pub open spec fn named_struct_types_of_raw(defs: Seq<RawTypeDefV>) -> Seq<
    (Seq<char>, Option<TypeV>),
> {
    Seq::new(defs.len(), |i: int| (defs[i].name, def_value(defs, i)))
}

// ---------------------------------------------------------------------------
// The slot table and its invariant.
// ---------------------------------------------------------------------------

/// Decode-time state of the named-type slots, indexed like the declaration
/// table.  `None` means the declaration has not been visited; `Some(None)`
/// is a registered slot whose definition is still being constructed, or is
/// opaque; `Some(Some(ty))` is a populated slot.
///
/// `pending` holds the indices whose construction is in progress: their
/// slots are registered but deliberately still empty.  Every other visited
/// slot already holds its final value.
pub open spec fn slots_ok(
    defs: Seq<RawTypeDefV>,
    slots: Seq<Option<Option<TypeV>>>,
    pending: Set<int>,
) -> bool {
    &&& slots.len() == defs.len()
    &&& forall|i: int|
        0 <= i < slots.len() ==> match #[trigger] slots[i] {
            None => !pending.contains(i),
            Some(v) => if pending.contains(i) {
                v == None::<TypeV>
            } else {
                v == def_value(defs, i)
            },
        }
}

/// Registering an empty slot for `index` before construction keeps the
/// table invariant, with `index` now pending.
pub proof fn lemma_slots_ok_register(
    defs: Seq<RawTypeDefV>,
    s: Seq<Option<Option<TypeV>>>,
    pending: Set<int>,
    index: int,
)
    requires
        slots_ok(defs, s, pending),
        0 <= index < s.len(),
        s[index] is None,
    ensures
        !pending.contains(index),
        slots_ok(defs, s.update(index, Some(None::<TypeV>)), pending.insert(index)),
{
    let s2 = s.update(index, Some(None::<TypeV>));
    assert forall|i: int| 0 <= i < s2.len() implies match #[trigger] s2[i] {
        None => !pending.insert(index).contains(i),
        Some(v) => if pending.insert(index).contains(i) {
            v == None::<TypeV>
        } else {
            v == def_value(defs, i)
        },
    } by {
        if i != index {
            assert(s2[i] == s[i]);
        }
    }
}

/// Populating the pending slot `index` with its final value restores the
/// table invariant with `index` no longer pending.
pub proof fn lemma_slots_ok_populate(
    defs: Seq<RawTypeDefV>,
    s: Seq<Option<Option<TypeV>>>,
    pending: Set<int>,
    index: int,
)
    requires
        slots_ok(defs, s, pending.insert(index)),
        0 <= index < s.len(),
        !pending.contains(index),
    ensures
        slots_ok(defs, s.update(index, Some(def_value(defs, index))), pending),
{
    let s2 = s.update(index, Some(def_value(defs, index)));
    assert forall|i: int| 0 <= i < s2.len() implies match #[trigger] s2[i] {
        None => !pending.contains(i),
        Some(v) => if pending.contains(i) {
            v == None::<TypeV>
        } else {
            v == def_value(defs, i)
        },
    } by {
        if i != index {
            assert(s2[i] == s[i]);
            assert(pending.insert(index).contains(i) == pending.contains(i));
        }
    }
}

/// An opaque declaration's registered slot is already its final value.
pub proof fn lemma_slots_ok_opaque(
    defs: Seq<RawTypeDefV>,
    s: Seq<Option<Option<TypeV>>>,
    pending: Set<int>,
    index: int,
)
    requires
        slots_ok(defs, s, pending.insert(index)),
        0 <= index < s.len(),
        !pending.contains(index),
        s[index] == Some(None::<TypeV>),
        defs[index].def is None,
    ensures
        slots_ok(defs, s, pending),
{
    assert forall|i: int| 0 <= i < s.len() implies match #[trigger] s[i] {
        None => !pending.contains(i),
        Some(v) => if pending.contains(i) {
            v == None::<TypeV>
        } else {
            v == def_value(defs, i)
        },
    } by {
        if i != index {
            assert(pending.insert(index).contains(i) == pending.contains(i));
        } else {
            assert(def_value(defs, index) == None::<TypeV>);
        }
    }
}

/// The number of declarations not yet visited: the decreasing measure of
/// the memoizer.
pub open spec fn count_free(slots: Seq<Option<Option<Type>>>) -> nat
    decreases slots,
{
    if slots.len() == 0 {
        0
    } else {
        count_free(slots.subrange(0, slots.len() - 1)) + if slots[slots.len() - 1] is None {
            1nat
        } else {
            0nat
        }
    }
}

/// Registering a free slot strictly shrinks the measure.
pub proof fn lemma_count_free_update(slots: Seq<Option<Option<Type>>>, i: int, v: Option<Type>)
    requires
        0 <= i < slots.len(),
        slots[i] is None,
    ensures
        count_free(slots.update(i, Some(v))) < count_free(slots),
    decreases slots,
{
    let s2 = slots.update(i, Some(v));
    if i == slots.len() - 1 {
        assert(s2.subrange(0, s2.len() - 1) =~= slots.subrange(0, slots.len() - 1));
    } else {
        assert(s2.subrange(0, s2.len() - 1) =~= slots.subrange(0, slots.len() - 1).update(i, Some(v)));
        lemma_count_free_update(slots.subrange(0, slots.len() - 1), i, v);
    }
}

/// Visiting more slots never grows the measure.
pub proof fn lemma_count_free_mono(s1: Seq<Option<Option<Type>>>, s2: Seq<Option<Option<Type>>>)
    requires
        s1.len() == s2.len(),
        forall|i: int| 0 <= i < s1.len() && s1[i] is Some ==> s2[i] == s1[i],
    ensures
        count_free(s2) <= count_free(s1),
    decreases s1,
{
    if s1.len() > 0 {
        lemma_count_free_mono(s1.subrange(0, s1.len() - 1), s2.subrange(0, s2.len() - 1));
    }
}

/// The size of a raw type: the structural measure the memoizer's inner
/// recursion decreases when the slot table does not shrink.
pub open spec fn rt_size(t: RawTypeV) -> nat
    decreases t,
{
    match t {
        RawTypeV::Void => 1,
        RawTypeV::Integer { .. } => 1,
        RawTypeV::Pointer { pointee, .. } => 1 + rt_size(*pointee),
        RawTypeV::Struct { element_types, .. } => 1 + rt_list_size(element_types),
        RawTypeV::NamedRef { .. } => 1,
    }
}

pub open spec fn rt_list_size(ts: Seq<RawTypeV>) -> nat
    decreases ts,
{
    if ts.len() == 0 {
        0
    } else {
        rt_list_size(ts.subrange(0, ts.len() - 1)) + rt_size(ts[ts.len() - 1])
    }
}

pub proof fn lemma_rt_size_index(ts: Seq<RawTypeV>, k: int)
    requires
        0 <= k < ts.len(),
    ensures
        rt_size(ts[k]) <= rt_list_size(ts),
    decreases ts,
{
    if k < ts.len() - 1 {
        lemma_rt_size_index(ts.subrange(0, ts.len() - 1), k);
    }
}

/// Unfolding one element out of [`wf_raw_types`].
pub proof fn lemma_wf_raw_types_index(ts: Seq<RawTypeV>, ndefs: int, k: int)
    requires
        wf_raw_types(ts, ndefs),
        0 <= k < ts.len(),
    ensures
        wf_raw_type(ts[k], ndefs),
    decreases ts,
{
    if k < ts.len() - 1 {
        lemma_wf_raw_types_index(ts.subrange(0, ts.len() - 1), ndefs, k);
    }
}

// ---------------------------------------------------------------------------
// The memoizer.
// ---------------------------------------------------------------------------

/// Resolve the named declaration at `index`: register an empty slot before
/// construction, construct the definition (which may reach this same slot
/// again and then stops), populate the slot, and hand back the by-name
/// reference.  A slot that is already registered is returned at once,
/// whether or not it is populated yet.
pub fn resolve_named(
    defs: &Vec<RawTypeDef>,
    index: usize,
    slots: &mut Vec<Option<Option<Type>>>,
    pending: Ghost<Set<int>>,
) -> (r: Type)
    requires
        wf_raw_type_defs(defs.deep_view()),
        index < defs@.len(),
        slots_ok(defs.deep_view(), old(slots).deep_view(), pending@),
    ensures
        final(slots)@.len() == old(slots)@.len(),
        forall|i: int|
            0 <= i < old(slots)@.len() && old(slots)@[i] is Some ==> final(slots)@[i]
                == old(slots)@[i],
        slots_ok(defs.deep_view(), final(slots).deep_view(), pending@),
        final(slots)@[index as int] is Some,
        r.deep_view() == (TypeV::NamedStruct { name: defs.deep_view()[index as int].name }),
    decreases count_free(slots@), 0nat, 0nat,
{
    let ghost defs_v = defs.deep_view();
    if slots[index].is_some() {
        return Type::NamedStructType { name: defs[index].name.clone() };
    }
    let ghost slots0 = slots@;
    slots.set(index, Some(None));
    proof {
        lemma_count_free_update(slots0, index as int, None);
        assert(slots_deep(slots0) =~= old(slots).deep_view());
        assert(slots_deep(slots0)[index as int] is None);
        lemma_slots_ok_register(defs_v, slots_deep(slots0), pending@, index as int);
        assert(slots.deep_view() =~= slots_deep(slots0).update(
            index as int,
            Some(None::<TypeV>),
        ));
    }
    let ghost slots1 = slots@;
    let ghost pending1 = pending@.insert(index as int);
    match &defs[index].def {
        None => {
            // An opaque declaration: the slot stays registered but empty.
            proof {
                assert(defs_v[index as int].def is None);
                assert(slots.deep_view()[index as int] == Some(None::<TypeV>));
                lemma_slots_ok_opaque(defs_v, slots.deep_view(), pending@, index as int);
            }
        },
        Some(sd) => {
            let ghost sd_v = defs_v[index as int].def->Some_0;
            proof {
                assert(sd.deep_view() == sd_v);
            }
            let n = sd.element_types.len();
            let mut element_types: Vec<Type> = Vec::new();
            let mut k: usize = 0;
            while k < n
                invariant
                    k <= n,
                    n == sd.element_types@.len(),
                    sd.deep_view() == sd_v,
                    defs_v == defs.deep_view(),
                    wf_raw_type_defs(defs_v),
                    index < defs_v.len(),
                    defs_v[index as int].def == Some(sd_v),
                    pending1 == pending@.insert(index as int),
                    !pending@.contains(index as int),
                    slots@.len() == slots1.len(),
                    forall|i: int|
                        0 <= i < slots1.len() && slots1[i] is Some ==> slots@[i] == slots1[i],
                    count_free(slots@) <= count_free(slots1),
                    count_free(slots1) < count_free(slots0),
                    slots0 == old(slots)@,
                    slots1[index as int] is Some,
                    slots_ok(defs_v, slots.deep_view(), pending1),
                    types_view(element_types@) == types_of_raw(
                        defs_v,
                        sd_v.element_types.subrange(0, k as int),
                    ),
                decreases n - k,
            {
                let ghost slots_before = slots@;
                let ghost old_elems = element_types@;
                proof {
                    lemma_wf_raw_types_index(sd_v.element_types, defs_v.len() as int, k as int);
                    assert(sd.element_types@[k as int].deep_view() == sd_v.element_types[k as int]);
                    assert(count_free(slots@) < count_free(old(slots)@));
                }
                let ty = type_from_raw(defs, &sd.element_types[k], slots, Ghost(pending1));
                proof {
                    lemma_count_free_mono(slots_before, slots@);
                }
                element_types.push(ty);
                proof {
                    let prefix1 = sd_v.element_types.subrange(0, k + 1 as int);
                    assert(prefix1.subrange(0, prefix1.len() - 1) =~= sd_v.element_types.subrange(
                        0,
                        k as int,
                    ));
                    assert(element_types@.subrange(0, element_types@.len() - 1) =~= old_elems);
                }
                k += 1;
            }
            proof {
                assert(sd_v.element_types.subrange(0, sd_v.element_types.len() as int)
                    =~= sd_v.element_types);
            }
            let built = Type::StructType { element_types, is_packed: sd.is_packed };
            let ghost slots2 = slots@;
            proof {
                assert(built.deep_view() == def_value(defs_v, index as int)->Some_0);
                assert(slots_deep(slots2) =~= slots.deep_view());
                lemma_slots_ok_populate(defs_v, slots_deep(slots2), pending@, index as int);
            }
            slots.set(index, Some(Some(built)));
            proof {
                assert(slots.deep_view() =~= slots_deep(slots2).update(
                    index as int,
                    Some(def_value(defs_v, index as int)),
                ));
            }
        },
    }
    proof {
        assert forall|i: int|
            0 <= i < old(slots)@.len() && old(slots)@[i] is Some implies slots@[i] == old(
            slots,
        )@[i] by {
            assert(slots0 == old(slots)@);
            assert(slots0[index as int] is None);
            assert(i != index as int);
            assert(slots1[i] == slots0[i]);
        }
    }
    Type::NamedStructType { name: defs[index].name.clone() }
}

/// The deep view of a slot sequence, used to state proofs about updates.
pub open spec fn slots_deep(s: Seq<Option<Option<Type>>>) -> Seq<Option<Option<TypeV>>> {
    Seq::new(s.len(), |i: int| s[i].deep_view())
}

/// Decode one raw type against the declaration table, constructing any
/// named declaration it reaches that has no slot yet.  The result is a
/// function of the declaration table and the type alone; the slot table
/// only remembers which declarations have been constructed.
pub fn type_from_raw(
    defs: &Vec<RawTypeDef>,
    t: &RawType,
    slots: &mut Vec<Option<Option<Type>>>,
    pending: Ghost<Set<int>>,
) -> (r: Type)
    requires
        wf_raw_type_defs(defs.deep_view()),
        wf_raw_type(t.deep_view(), defs@.len() as int),
        slots_ok(defs.deep_view(), old(slots).deep_view(), pending@),
    ensures
        final(slots)@.len() == old(slots)@.len(),
        forall|i: int|
            0 <= i < old(slots)@.len() && old(slots)@[i] is Some ==> final(slots)@[i]
                == old(slots)@[i],
        slots_ok(defs.deep_view(), final(slots).deep_view(), pending@),
        r.deep_view() == type_of_raw(defs.deep_view(), t.deep_view()),
    decreases count_free(slots@), 1nat, rt_size(t.deep_view()),
{
    let ghost defs_v = defs.deep_view();
    match t {
        RawType::Void => Type::VoidType,
        RawType::Integer { bits } => Type::IntegerType { bits: *bits },
        RawType::Pointer { pointee, addr_space } => {
            let p = type_from_raw(defs, pointee, slots, pending);
            Type::PointerType { pointee_type: Box::new(p), addr_space: *addr_space }
        },
        RawType::Struct { element_types, is_packed } => {
            let ghost ts_v = t.deep_view()->Struct_element_types;
            let n = element_types.len();
            let mut elems: Vec<Type> = Vec::new();
            let mut k: usize = 0;
            while k < n
                invariant
                    k <= n,
                    n == element_types@.len(),
                    raw_types_view_of(element_types@) == ts_v,
                    rt_size(t.deep_view()) == 1 + rt_list_size(ts_v),
                    defs_v == defs.deep_view(),
                    wf_raw_type_defs(defs_v),
                    wf_raw_types(ts_v, defs_v.len() as int),
                    slots@.len() == old(slots)@.len(),
                    forall|i: int|
                        0 <= i < old(slots)@.len() && old(slots)@[i] is Some ==> slots@[i]
                            == old(slots)@[i],
                    count_free(slots@) <= count_free(old(slots)@),
                    slots_ok(defs_v, slots.deep_view(), pending@),
                    types_view(elems@) == types_of_raw(defs_v, ts_v.subrange(0, k as int)),
                decreases n - k,
            {
                let ghost slots_before = slots@;
                let ghost old_elems = elems@;
                proof {
                    lemma_wf_raw_types_index(ts_v, defs_v.len() as int, k as int);
                    lemma_rt_size_index(ts_v, k as int);
                    assert(element_types@[k as int].deep_view() == ts_v[k as int]);
                }
                let ty = type_from_raw(defs, &element_types[k], slots, pending);
                proof {
                    lemma_count_free_mono(slots_before, slots@);
                }
                elems.push(ty);
                proof {
                    let prefix1 = ts_v.subrange(0, k + 1 as int);
                    assert(prefix1.subrange(0, prefix1.len() - 1) =~= ts_v.subrange(0, k as int));
                    assert(elems@.subrange(0, elems@.len() - 1) =~= old_elems);
                }
                k += 1;
            }
            proof {
                assert(ts_v.subrange(0, ts_v.len() as int) =~= ts_v);
            }
            Type::StructType { element_types: elems, is_packed: *is_packed }
        },
        RawType::NamedRef { index } => resolve_named(defs, *index, slots, pending),
    }
}

/// The view of a vector of raw types, used to state loop invariants.
pub open spec fn raw_types_view_of(ts: Seq<RawType>) -> Seq<RawTypeV> {
    crate::raw::raw_types_view(ts)
}

// ---------------------------------------------------------------------------
// The finished named-struct-type table.
// ---------------------------------------------------------------------------

/// The module's named struct types, one entry per declaration in
/// declaration order: the name, and the resolved type, or nothing for an
/// opaque declaration.
#[derive(PartialEq, Eq, Debug)]
pub struct TyNameMap {
    pub entries: Vec<(String, Option<Type>)>,
}

impl DeepView for TyNameMap {
    type V = Seq<(Seq<char>, Option<TypeV>)>;

    open spec fn deep_view(&self) -> Seq<(Seq<char>, Option<TypeV>)> {
        self.entries.deep_view()
    }
}

/// Lookup over the entry list: the value of the first entry carrying
/// `name`, if any.
pub open spec fn pairs_lookup(s: Seq<(Seq<char>, Option<TypeV>)>, name: Seq<char>) -> Option<
    Option<TypeV>,
>
    decreases s.len(),
{
    if s.len() == 0 {
        None
    } else if s[0].0 == name {
        Some(s[0].1)
    } else {
        pairs_lookup(s.subrange(1, s.len() as int), name)
    }
}

impl TyNameMap {
    /// Look up a named struct type: nothing if the name is not declared,
    /// `Some(None)` for an opaque declaration, `Some(Some(_))` otherwise.
    pub fn get(&self, name: &String) -> (r: Option<&Option<Type>>)
        ensures
            match r {
                None => pairs_lookup(self.deep_view(), name@) is None,
                Some(v) => pairs_lookup(self.deep_view(), name@) == Some(v.deep_view()),
            },
    {
        let ghost full = self.deep_view();
        proof {
            assert(full.subrange(0, full.len() as int) =~= full);
        }
        let n = self.entries.len();
        let mut k: usize = 0;
        while k < n
            invariant
                k <= n,
                n == self.entries@.len(),
                full == self.deep_view(),
                full.len() == n,
                pairs_lookup(full, name@) == pairs_lookup(
                    full.subrange(k as int, full.len() as int),
                    name@,
                ),
            decreases n - k,
        {
            let e = &self.entries[k];
            let ghost suffix = full.subrange(k as int, full.len() as int);
            proof {
                assert(suffix[0] == full[k as int]);
                assert(full[k as int].0 == e.0@);
            }
            if e.0 == *name {
                return Some(&e.1);
            }
            proof {
                assert(suffix.subrange(1, suffix.len() as int) =~= full.subrange(
                    k + 1 as int,
                    full.len() as int,
                ));
            }
            k += 1;
        }
        None
    }
}

fn clone_opt_type(o: &Option<Type>) -> (r: Option<Type>)
    ensures
        r.deep_view() == o.deep_view(),
{
    match o {
        None => None,
        Some(t) => Some(t.clone()),
    }
}

/// Freeze the slot table into the module's named-struct-type table: every
/// declaration has been visited, so every slot holds its final value.
pub fn freeze_slots(defs: &Vec<RawTypeDef>, slots: &Vec<Option<Option<Type>>>) -> (r: TyNameMap)
    requires
        slots_ok(defs.deep_view(), slots.deep_view(), Set::empty()),
        forall|i: int| 0 <= i < slots@.len() ==> slots@[i] is Some,
    ensures
        r.deep_view() == named_struct_types_of_raw(defs.deep_view()),
{
    let ghost defs_v = defs.deep_view();
    let ghost nst = named_struct_types_of_raw(defs_v);
    let n = defs.len();
    let mut entries: Vec<(String, Option<Type>)> = Vec::new();
    let mut k: usize = 0;
    while k < n
        invariant
            k <= n,
            n == defs@.len(),
            defs_v == defs.deep_view(),
            nst == named_struct_types_of_raw(defs_v),
            slots_ok(defs_v, slots.deep_view(), Set::empty()),
            forall|i: int| 0 <= i < slots@.len() ==> slots@[i] is Some,
            entries.deep_view() =~= nst.subrange(0, k as int),
        decreases n - k,
    {
        let ghost old_entries = entries.deep_view();
        match &slots[k] {
            Some(v) => {
                proof {
                    assert(slots.deep_view()[k as int] == Some(v.deep_view()));
                    assert(v.deep_view() == def_value(defs_v, k as int));
                }
                let name = defs[k].name.clone();
                let value = clone_opt_type(v);
                entries.push((name, value));
                proof {
                    assert(entries.deep_view() =~= old_entries.push(
                        (defs_v[k as int].name, def_value(defs_v, k as int)),
                    ));
                    assert(entries.deep_view() =~= nst.subrange(0, k + 1 as int));
                }
            },
            None => {
                proof {
                    assert(false);
                }
            },
        }
        k += 1;
    }
    proof {
        assert(nst.subrange(0, nst.len() as int) =~= nst);
    }
    TyNameMap { entries }
}

} // verus!
