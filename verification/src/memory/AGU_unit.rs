use vstd::prelude::*;
use crate::cpu::pimcpu_types::{fatptr_rf, OFFSET_LIMIT, TAG_LIMIT};
use std::collections::HashMap;

verus! {

broadcast use vstd::std_specs::hash::group_hash_axioms;

/// Number of AGU table entries (`1 << IDX_BITS`).
pub const AGU_ENTRY_COUNT: usize = 16;

/// One descriptor of the AGU table.
#[derive(Clone, Copy, Debug, PartialEq, Eq, Structural)]
pub enum AGU_entry {
    NA,
    Ent { base: u32, bound: u32 },
}

/// The address-generation unit: a table from fat-pointer tags to `(base, bound)` descriptors.
pub struct AGU_unit {
    pub table: HashMap<u8, AGU_entry>,
}

/// `f` is accepted by the table: its tag names a descriptor whose bound exceeds the offset.
pub open spec fn accepts(table: Map<u8, AGU_entry>, f: fatptr_rf) -> bool {
    table.contains_key(f.tag) && (table[f.tag] matches AGU_entry::Ent { bound, .. } && f.offset < bound)
}

/// Base of the descriptor of tag `t` (0 when there is none).
pub open spec fn entry_base(table: Map<u8, AGU_entry>, t: u8) -> u32 {
    if table.contains_key(t) && table[t] is Ent {
        table[t]->base
    } else {
        0
    }
}

/// The offset that `addition` would produce; it must stay below `OFFSET_LIMIT`.
pub open spec fn add_fits(f: fatptr_rf, vec_rf: [u32; 4], idx: u8) -> bool {
    idx < 4 ==> f.offset + vec_rf@[idx as int] < OFFSET_LIMIT
}

/// The physical address a translation yields fits in `u32`.
pub open spec fn translate_fits(table: Map<u8, AGU_entry>, f: fatptr_rf) -> bool {
    accepts(table, f) ==> entry_base(table, f.tag) + f.offset <= u32::MAX
}

impl View for AGU_unit {
    type V = Map<u8, AGU_entry>;

    open spec fn view(&self) -> Map<u8, AGU_entry> {
        self.table@
    }
}

impl AGU_unit {
    pub fn new() -> (r: Self)
        ensures
            r@ == Map::<u8, AGU_entry>::empty(),
    {
        Self { table: HashMap::new() }
    }

    /// Installs (or replaces) the descriptor of tag `id`.
    pub fn insert(&mut self, id: u8, base: u32, bound: u32)
        requires
            bound < OFFSET_LIMIT,
            id < TAG_LIMIT,
        ensures
            final(self)@ == old(self)@.insert(id, AGU_entry::Ent { base, bound }),
    {
        self.table.insert(id, AGU_entry::Ent { base: base, bound: bound });
    }

    /// The `(base, bound)` descriptor of tag `id`, if one is installed.
    pub fn get_entry(&self, id: u8) -> (r: Option<(u32, u32)>)
        ensures
            r == (if self@.contains_key(id) && self@[id] is Ent {
                Some((self@[id]->base, self@[id]->bound))
            } else {
                None::<(u32, u32)>
            }),
    {
        match self.table.get(&id) {
            Some(AGU_entry::Ent { base, bound }) => Some((*base, *bound)),
            _ => None,
        }
    }

    pub fn accept(&self, fptr: fatptr_rf) -> (r: bool)
        requires
            fptr.wf(),
        ensures
            r == accepts(self@, fptr),
    {
        let idx = fptr.get_idx();
        let offset = fptr.get_offset();

        if let Some(ent) = self.table.get(&idx) {
            match ent {
                AGU_entry::Ent { base, bound } => *bound > offset,
                AGU_entry::NA => false,
            }
        } else {
            false
        }
    }

    /// Moves a fat pointer forward by lane `idx` of `vec_rf`; `None` when the lane index
    /// is not below 4 or the AGU rejects the result.
    pub fn addition(&self, old_fptr: fatptr_rf, vec_rf: [u32; 4], idx: u8) -> (r: Option<fatptr_rf>)
        requires
            old_fptr.wf(),
            add_fits(old_fptr, vec_rf, idx),
        ensures
            r == (if idx >= 4 {
                None
            } else {
                let n = fatptr_rf { tag: old_fptr.tag, offset: (old_fptr.offset + vec_rf@[idx as int]) as u32 };
                if accepts(self@, n) { Some(n) } else { None }
            }),
    {
        if idx >= 4 {
            return None;
        }
        let rs2 = vec_rf[idx as usize];
        let tag = old_fptr.get_idx();
        let old_offset = old_fptr.get_offset();

        let new_offset = old_offset + rs2;

        let new_fptr = fatptr_rf::new(tag, new_offset);

        if self.accept(new_fptr) {
            Some(new_fptr)
        } else {
            None
        }
    }

    /// Moves a fat pointer back by lane `idx` of `vec_rf`; `None` when the lane index is not
    /// below 4, the offset is not larger than the lane value, or the AGU rejects the result.
    pub fn subtraction(&self, old_fptr: fatptr_rf, vec_rf: [u32; 4], idx: u8) -> (r: Option<fatptr_rf>)
        requires
            old_fptr.wf(),
        ensures
            r == (if idx >= 4 || old_fptr.offset <= vec_rf@[idx as int] {
                None
            } else {
                let n = fatptr_rf { tag: old_fptr.tag, offset: (old_fptr.offset - vec_rf@[idx as int]) as u32 };
                if accepts(self@, n) { Some(n) } else { None }
            }),
    {
        if idx >= 4 {
            return None;
        }
        let rs2 = vec_rf[idx as usize];
        let tag = old_fptr.get_idx();
        let old_offset = old_fptr.get_offset();

        if old_offset <= rs2 {
            return None;
        }

        let new_offset = old_offset - rs2;

        let new_fptr = fatptr_rf::new(tag, new_offset);

        if self.accept(new_fptr) {
            Some(new_fptr)
        } else {
            None
        }
    }

    /// The physical address `base + offset` of an accepted fat pointer; `None` otherwise.
    pub fn translate(&self, fptr: fatptr_rf) -> (r: Option<u32>)
        requires
            fptr.wf(),
            translate_fits(self@, fptr),
        ensures
            r == (if accepts(self@, fptr) {
                Some((entry_base(self@, fptr.tag) + fptr.offset) as u32)
            } else {
                None
            }),
    {
        let idx = fptr.get_idx();
        let offset = fptr.get_offset();

        if !self.accept(fptr) {
            return None;
        } else {
            if let Some(ent) = self.table.get(&idx) {
                match ent {
                    AGU_entry::NA => None,
                    AGU_entry::Ent { base, bound } => Some(base + offset),
                }
            } else {
                None
            }
        }
    }
}

/// An installed descriptor decides its tag: after installing (base, bound) for `id`, a
/// pointer with that tag is accepted exactly when its offset is below the bound and
/// translates to base plus offset; pointers with other tags are judged as before.
pub proof fn lemma_insert_then_accept(t: Map<u8, AGU_entry>, id: u8, base: u32, bound: u32, f: fatptr_rf)
    ensures
        f.tag == id ==> (accepts(t.insert(id, AGU_entry::Ent { base, bound }), f) <==> f.offset < bound),
        f.tag == id ==> entry_base(t.insert(id, AGU_entry::Ent { base, bound }), f.tag) == base,
        f.tag != id ==> (accepts(t.insert(id, AGU_entry::Ent { base, bound }), f) == accepts(t, f)),
        f.tag != id ==> entry_base(t.insert(id, AGU_entry::Ent { base, bound }), f.tag) == entry_base(t, f.tag),
{
}

/// An empty table accepts no pointer.
pub proof fn lemma_empty_table_rejects(f: fatptr_rf)
    ensures
        !accepts(Map::<u8, AGU_entry>::empty(), f),
{
}

} // verus!
