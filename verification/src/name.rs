//! The name allocator: every global object gets a stable symbolic
//! identifier, either its textual name (when non-empty) or the next value of
//! a shared counter that is advanced in a fixed enumeration order.

use crate::raw::{wf_raw_global_ref, RawGlobalRef};
use vstd::prelude::*;

verus! {

/// A symbolic identifier for a global object: either a textual name taken
/// from the source, or a sequence number synthesized for anonymous objects.
#[derive(PartialEq, Eq, Debug, Hash)]
pub enum Name {
    /// A non-empty textual name.
    Name(String),
    /// A synthesized sequence number.
    Number(usize),
}

/// Mathematical model of a [`Name`].
pub ghost enum NameV {
    Name(Seq<char>),
    Number(int),
}

impl DeepView for Name {
    type V = NameV;

    open spec fn deep_view(&self) -> NameV {
        match self {
            Name::Name(s) => NameV::Name(s.deep_view()),
            Name::Number(n) => NameV::Number(*n as int),
        }
    }
}

impl Clone for Name {
    fn clone(&self) -> (r: Self)
        ensures
            r == *self,
    {
        match self {
            Name::Name(s) => Name::Name(s.clone()),
            Name::Number(n) => Name::Number(*n),
        }
    }
}

/// The identifier the allocator hands out for a source name `s` when the
/// shared counter stands at `ctr`.
pub open spec fn allocated_name(s: Seq<char>, ctr: int) -> NameV {
    if s.len() > 0 {
        NameV::Name(s)
    } else {
        NameV::Number(ctr)
    }
}

/// The counter value after the allocator has handled a source name `s` with
/// the counter at `ctr`: anonymous objects advance it, named ones do not.
pub open spec fn ctr_next(s: Seq<char>, ctr: int) -> int {
    if s.len() > 0 {
        ctr
    } else {
        ctr + 1
    }
}

/// The counter value after the first `i` of the source names in `names` have
/// been handled, starting from `ctr0`.
pub open spec fn ctr_after(names: Seq<Seq<char>>, ctr0: int, i: int) -> int
    decreases i,
{
    if i <= 0 {
        ctr0
    } else {
        ctr_next(names[i - 1], ctr_after(names, ctr0, i - 1))
    }
}

/// The identifier assigned to the `i`-th source name of `names` when the
/// whole sequence is handled in order starting from counter value `ctr0`.
pub open spec fn assigned_name(names: Seq<Seq<char>>, ctr0: int, i: int) -> NameV {
    allocated_name(names[i], ctr_after(names, ctr0, i))
}

/// All identifiers assigned over `names` in order, starting from `ctr0`.
pub open spec fn assigned_names(names: Seq<Seq<char>>, ctr0: int) -> Seq<NameV> {
    Seq::new(names.len(), |i: int| assigned_name(names, ctr0, i))
}

impl Name {
    /// Allocate the identifier for one source name: the textual name if it is
    /// non-empty, otherwise the current counter value, advancing the counter.
    pub fn name_or_num(s: String, ctr: &mut usize) -> (r: Name)
        requires
            *old(ctr) < usize::MAX,
        ensures
            r.deep_view() == allocated_name(s.deep_view(), *old(ctr) as int),
            *final(ctr) as int == ctr_next(s.deep_view(), *old(ctr) as int),
    {
        if s.as_str().is_empty() {
            let n = Name::Number(*ctr);
            *ctr = *ctr + 1;
            n
        } else {
            Name::Name(s)
        }
    }
}

/// The pass-1 table: the identifier of every global object of the source
/// graph, indexed exactly like the graph's four tables.  Pass 2 resolves
/// every cross-reference through this table instead of re-decoding the
/// referenced object.
pub struct GlobalNameMap {
    pub defined_functions: Vec<Name>,
    pub declared_functions: Vec<Name>,
    pub globals: Vec<Name>,
    pub aliases: Vec<Name>,
}

pub ghost struct GlobalNameMapV {
    pub defined_functions: Seq<NameV>,
    pub declared_functions: Seq<NameV>,
    pub globals: Seq<NameV>,
    pub aliases: Seq<NameV>,
}

impl DeepView for GlobalNameMap {
    type V = GlobalNameMapV;

    open spec fn deep_view(&self) -> GlobalNameMapV {
        GlobalNameMapV {
            defined_functions: self.defined_functions.deep_view(),
            declared_functions: self.declared_functions.deep_view(),
            globals: self.globals.deep_view(),
            aliases: self.aliases.deep_view(),
        }
    }
}

/// The identifier the table holds for the global object `r`.
pub open spec fn ref_name(m: GlobalNameMapV, r: RawGlobalRef) -> NameV {
    match r {
        RawGlobalRef::DefinedFunction(i) => m.defined_functions[i as int],
        RawGlobalRef::DeclaredFunction(i) => m.declared_functions[i as int],
        RawGlobalRef::Global(i) => m.globals[i as int],
        RawGlobalRef::Alias(i) => m.aliases[i as int],
    }
}

impl GlobalNameMap {
    /// Resolve one global reference through the pass-1 table.
    pub fn get(&self, r: &RawGlobalRef) -> (n: &Name)
        requires
            wf_raw_global_ref(
                self.deep_view().defined_functions.len() as int,
                self.deep_view().declared_functions.len() as int,
                self.deep_view().globals.len() as int,
                self.deep_view().aliases.len() as int,
                *r,
            ),
        ensures
            n.deep_view() == ref_name(self.deep_view(), *r),
    {
        match r {
            RawGlobalRef::DefinedFunction(i) => &self.defined_functions[*i],
            RawGlobalRef::DeclaredFunction(i) => &self.declared_functions[*i],
            RawGlobalRef::Global(i) => &self.globals[*i],
            RawGlobalRef::Alias(i) => &self.aliases[*i],
        }
    }
}

/// The counter never moves backwards while a sequence of names is handled.
pub proof fn lemma_ctr_after_monotone(names: Seq<Seq<char>>, ctr0: int, i: int, j: int)
    requires
        0 <= i <= j,
    ensures
        ctr_after(names, ctr0, i) <= ctr_after(names, ctr0, j),
    decreases j - i,
{
    if i < j {
        lemma_ctr_after_monotone(names, ctr0, i, j - 1);
    }
}

/// The counter advances at most one step per name.
pub proof fn lemma_ctr_after_le(names: Seq<Seq<char>>, ctr0: int, i: int)
    requires
        0 <= i,
    ensures
        ctr_after(names, ctr0, i) <= ctr0 + i,
    decreases i,
{
    if i > 0 {
        lemma_ctr_after_le(names, ctr0, i - 1);
    }
}

/// Identifier uniqueness at the allocator level: two distinct positions in
/// one allocation run receive distinct identifiers, provided their textual
/// names (where present) differ.
pub proof fn lemma_assigned_names_distinct(names: Seq<Seq<char>>, ctr0: int, i: int, j: int)
    requires
        0 <= i < j < names.len(),
        names[i].len() > 0 && names[j].len() > 0 ==> names[i] != names[j],
    ensures
        assigned_name(names, ctr0, i) != assigned_name(names, ctr0, j),
{
    if names[i].len() == 0 && names[j].len() == 0 {
        lemma_ctr_after_monotone(names, ctr0, i + 1, j);
        assert(ctr_after(names, ctr0, i + 1) == ctr_after(names, ctr0, i) + 1);
    }
}

} // verus!
