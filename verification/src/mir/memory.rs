use vstd::prelude::*;

use crate::mir::place::{Place, Projection};
use crate::mir::value::{copy_values, value_view, values_view, VVal, Value};

verus! {

/// The value one projection selects: a field of a struct or tuple, the
/// payload of the named enum variant; anything else gives the unit value.
/// Dereference and indexing select the value itself.
pub open spec fn proj_one(v: VVal, p: Projection) -> VVal {
    match p {
        Projection::Field(i) => match v {
            VVal::Struct { fields, .. } => if i < fields.len() { fields[i as int] } else { VVal::Unit },
            VVal::Tuple(fields) => if i < fields.len() { fields[i as int] } else { VVal::Unit },
            _ => VVal::Unit,
        },
        Projection::Downcast(k) => match v {
            VVal::Enum { variant, payload, .. } => if variant == k {
                match payload {
                    Some(b) => *b,
                    None => VVal::Unit,
                }
            } else {
                VVal::Unit
            },
            _ => VVal::Unit,
        },
        Projection::Deref => v,
        Projection::Index(_) => v,
    }
}

/// The value that projections `ps`, applied in order, select from `v`.
pub open spec fn proj_get(v: VVal, ps: Seq<Projection>) -> VVal
    decreases ps.len(),
{
    if ps.len() == 0 {
        v
    } else {
        proj_get(proj_one(v, ps[0]), ps.drop_first())
    }
}

/// `v` with the part that `ps` selects replaced by `new`; a projection that
/// selects nothing leaves `v` unchanged.
pub open spec fn proj_set(v: VVal, ps: Seq<Projection>, new: VVal) -> VVal
    decreases ps.len(),
{
    if ps.len() == 0 {
        new
    } else {
        match ps[0] {
            Projection::Field(i) => match v {
                VVal::Struct { def, fields } => if i < fields.len() {
                    VVal::Struct { def, fields: fields.update(i as int, proj_set(fields[i as int], ps.drop_first(), new)) }
                } else {
                    v
                },
                VVal::Tuple(fields) => if i < fields.len() {
                    VVal::Tuple(fields.update(i as int, proj_set(fields[i as int], ps.drop_first(), new)))
                } else {
                    v
                },
                _ => v,
            },
            Projection::Downcast(k) => match v {
                VVal::Enum { def, variant, payload } => if variant == k {
                    VVal::Enum {
                        def,
                        variant,
                        payload: Some(Box::new(proj_set(
                            match payload {
                                Some(b) => *b,
                                None => VVal::Unit,
                            },
                            ps.drop_first(),
                            new,
                        ))),
                    }
                } else {
                    v
                },
                _ => v,
            },
            _ => v,
        }
    }
}

/// Whether every projection of `ps` selects a part of `v`: a field that
/// exists, or the payload of the variant that `v` is.
pub open spec fn path_valid(v: VVal, ps: Seq<Projection>) -> bool
    decreases ps.len(),
{
    if ps.len() == 0 {
        true
    } else {
        match ps[0] {
            Projection::Field(i) => match v {
                VVal::Struct { fields, .. } => i < fields.len() && path_valid(fields[i as int], ps.drop_first()),
                VVal::Tuple(fields) => i < fields.len() && path_valid(fields[i as int], ps.drop_first()),
                _ => false,
            },
            Projection::Downcast(k) => match v {
                VVal::Enum { variant, payload, .. } => variant == k && path_valid(
                    match payload {
                        Some(b) => *b,
                        None => VVal::Unit,
                    },
                    ps.drop_first(),
                ),
                _ => false,
            },
            _ => false,
        }
    }
}

proof fn lemma_proj_get_set(v: VVal, ps: Seq<Projection>, new: VVal)
    requires
        path_valid(v, ps),
    ensures
        proj_get(proj_set(v, ps, new), ps) == new,
    decreases ps.len(),
{
    if ps.len() > 0 {
        match ps[0] {
            Projection::Field(i) => match v {
                VVal::Struct { fields, .. } => lemma_proj_get_set(fields[i as int], ps.drop_first(), new),
                VVal::Tuple(fields) => lemma_proj_get_set(fields[i as int], ps.drop_first(), new),
                _ => {},
            },
            Projection::Downcast(k) => match v {
                VVal::Enum { payload, .. } => lemma_proj_get_set(
                    match payload {
                        Some(b) => *b,
                        None => VVal::Unit,
                    },
                    ps.drop_first(),
                    new,
                ),
                _ => {},
            },
            _ => {},
        }
    }
}

/// Reading a place gives back what was last written to it, where the
/// place selects a part of its local's value; every other local keeps its
/// value.
pub proof fn read_after_write(slots: Seq<Option<VVal>>, local: int, ps: Seq<Projection>, v: VVal, other: int, ops: Seq<Projection>)
    requires
        0 <= local < slots.len(),
        path_valid(slot_value(slots, local), ps),
        other != local,
    ensures
        frame_get(frame_set(slots, local, ps, v), local, ps) == v,
        frame_get(frame_set(slots, local, ps, v), other, ops) == frame_get(slots, other, ops),
        frame_set(slots, local, ps, v).len() == slots.len(),
{
    if ps.len() > 0 {
        lemma_proj_get_set(slot_value(slots, local), ps, v);
    }
}

/// The contents of the local slots.
pub open spec fn slots_view(s: Seq<Option<Value>>) -> Seq<Option<VVal>> {
    Seq::new(s.len(), |i: int| match s[i] {
        Some(v) => Some(value_view(v)),
        None => None,
    })
}

/// The value of `local`, or the unit value when it has none.
pub open spec fn slot_value(slots: Seq<Option<VVal>>, local: int) -> VVal {
    if 0 <= local < slots.len() {
        match slots[local] {
            Some(v) => v,
            None => VVal::Unit,
        }
    } else {
        VVal::Unit
    }
}

/// The value at a place.
pub open spec fn frame_get(slots: Seq<Option<VVal>>, local: int, ps: Seq<Projection>) -> VVal {
    proj_get(slot_value(slots, local), ps)
}

/// The slots after writing `v` to a place.
pub open spec fn frame_set(slots: Seq<Option<VVal>>, local: int, ps: Seq<Projection>, v: VVal) -> Seq<Option<VVal>> {
    if ps.len() == 0 {
        slots.update(local, Some(v))
    } else {
        slots.update(local, Some(proj_set(slot_value(slots, local), ps, v)))
    }
}

/// The local slots of one activation of a MIR body.
#[derive(Debug)]
pub struct Frame {
    pub slots: Vec<Option<Value>>,
}

impl Frame {
    /// The contents of the slots.
    pub open spec fn model(&self) -> Seq<Option<VVal>> {
        slots_view(self.slots@)
    }

    /// A frame of `local_count` empty slots.
    pub fn new(local_count: usize) -> (f: Frame)
        ensures
            f.slots@.len() == local_count,
            f.model() == Seq::new(local_count as nat, |_i: int| None::<VVal>),
    {
        let mut slots: Vec<Option<Value>> = Vec::new();
        let mut i: usize = 0;
        while i < local_count
            invariant
                i <= local_count,
                slots@.len() == i,
                forall|j: int| 0 <= j < i ==> (#[trigger] slots@[j]) is None,
            decreases local_count - i,
        {
            slots.push(None);
            i = i + 1;
        }
        let f = Frame { slots };
        assert(f.model() =~= Seq::new(local_count as nat, |_i: int| None::<VVal>));
        f
    }

    /// Writes `value` to `place`.
    pub fn set(&mut self, place: &Place, value: Value)
        requires
            place.local.0 < old(self).slots@.len(),
        ensures
            final(self).slots@.len() == old(self).slots@.len(),
            final(self).model() == frame_set(old(self).model(), place.local.0 as int, place.projection@, value_view(value)),
    {
        let i = place.local.index();
        if place.projection.len() == 0 {
            self.slots.set(i, Some(value));
            assert(self.model() =~= frame_set(old(self).model(), i as int, place.projection@, value_view(value)));
            return;
        }
        let base = match &self.slots[i] {
            Some(v) => v.deep_copy(),
            None => Value::Unit,
        };
        let nv = project_set(base, &place.projection, 0, value);
        assert(place.projection@.subrange(0, place.projection@.len() as int) =~= place.projection@);
        self.slots.set(i, Some(nv));
        assert(self.model() =~= frame_set(old(self).model(), i as int, place.projection@, value_view(value)));
    }

    /// The value at `place`; an empty slot reads as the unit value.
    pub fn get(&self, place: &Place) -> (v: Value)
        ensures
            value_view(v) == frame_get(self.model(), place.local.0 as int, place.projection@),
    {
        let i = place.local.index();
        let base = if i < self.slots.len() {
            match &self.slots[i] {
                Some(v) => v.deep_copy(),
                None => Value::Unit,
            }
        } else {
            Value::Unit
        };
        project_get(base, &place.projection)
    }
}

/// The value that `projs`, applied in order, select from `val`.
pub fn project_get(val: Value, projs: &Vec<Projection>) -> (r: Value)
    ensures
        value_view(r) == proj_get(value_view(val), projs@),
{
    let ghost start = value_view(val);
    let mut val = val;
    let mut k: usize = 0;
    assert(projs@.subrange(0, projs@.len() as int) =~= projs@);
    while k < projs.len()
        invariant
            k <= projs@.len(),
            proj_get(value_view(val), projs@.subrange(k as int, projs@.len() as int)) == proj_get(start, projs@),
        decreases projs@.len() - k,
    {
        proof {
            assert(projs@.subrange(k as int, projs@.len() as int).drop_first() =~= projs@.subrange(
                k + 1,
                projs@.len() as int,
            ));
        }
        let ghost vv = value_view(val);
        let p = projs[k];
        let next = match p {
            Projection::Field(i) => match &val {
                Value::Struct { fields, .. } => if (i as usize) < fields.len() {
                    let c = fields[i as usize].deep_copy();
                    assert(values_view(fields@)[i as int] == value_view(fields@[i as int]));
                    c
                } else {
                    Value::Unit
                },
                Value::Tuple(fields) => if (i as usize) < fields.len() {
                    let c = fields[i as usize].deep_copy();
                    assert(values_view(fields@)[i as int] == value_view(fields@[i as int]));
                    c
                } else {
                    Value::Unit
                },
                _ => Value::Unit,
            },
            Projection::Downcast(v) => match &val {
                Value::Enum { variant, payload, .. } => if *variant == v {
                    match payload {
                        Some(b) => (**b).deep_copy(),
                        None => Value::Unit,
                    }
                } else {
                    Value::Unit
                },
                _ => Value::Unit,
            },
            Projection::Deref => val,
            Projection::Index(_) => val,
        };
        proof {
            let rest = projs@.subrange(k as int, projs@.len() as int);
            assert(rest[0] == projs@[k as int]);
            assert(value_view(next) == proj_one(vv, projs@[k as int]));
        }
        val = next;
        k = k + 1;
    }
    assert(projs@.subrange(projs@.len() as int, projs@.len() as int) =~= Seq::<Projection>::empty());
    assert(projs@.subrange(0, projs@.len() as int) =~= projs@);
    val
}

/// `val` with the part that `projs[k..]` selects replaced by `new_val`.
pub fn project_set(val: Value, projs: &Vec<Projection>, k: usize, new_val: Value) -> (r: Value)
    requires
        k <= projs@.len(),
    ensures
        value_view(r) == proj_set(value_view(val), projs@.subrange(k as int, projs@.len() as int), value_view(new_val)),
    decreases projs@.len() - k,
{
    let ghost rest = projs@.subrange(k as int, projs@.len() as int);
    if k == projs.len() {
        return new_val;
    }
    proof {
        assert(rest.drop_first() =~= projs@.subrange(k + 1, projs@.len() as int));
    }
    match projs[k] {
        Projection::Field(i) => match val {
            Value::Struct { def, fields } => {
                let mut fields = fields;
                if (i as usize) < fields.len() {
                    let slot = fields[i as usize].deep_copy();
                    let nv = project_set(slot, projs, k + 1, new_val);
                    let ghost before = fields@;
                    fields.set(i as usize, nv);
                    assert(values_view(fields@) =~= values_view(before).update(i as int, value_view(nv)));
                }
                Value::Struct { def, fields }
            },
            Value::Tuple(fields) => {
                let mut fields = fields;
                if (i as usize) < fields.len() {
                    let slot = fields[i as usize].deep_copy();
                    let nv = project_set(slot, projs, k + 1, new_val);
                    let ghost before = fields@;
                    fields.set(i as usize, nv);
                    assert(values_view(fields@) =~= values_view(before).update(i as int, value_view(nv)));
                }
                Value::Tuple(fields)
            },
            other => other,
        },
        Projection::Downcast(v) => match val {
            Value::Enum { def, variant, payload } => {
                if variant == v {
                    let inner = match payload {
                        Some(p) => *p,
                        None => Value::Unit,
                    };
                    let nv = project_set(inner, projs, k + 1, new_val);
                    Value::Enum { def, variant, payload: Some(Box::new(nv)) }
                } else {
                    Value::Enum { def, variant, payload }
                }
            },
            other => other,
        },
        _ => val,
    }
}

} // verus!
