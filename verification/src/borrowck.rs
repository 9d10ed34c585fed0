//! Borrow checking: a pass over each body that tracks moved locals and
//! leaves the MIR as it is.

use vstd::prelude::*;

use rustc_hash::{FxBuildHasher, FxHashSet};

use crate::ids::LocalId;
use crate::mir::body::{MirBody, MirCrate};
use crate::mir::operand::Operand;
use crate::mir::place::Place;
use crate::mir::rvalue::Rvalue;
use crate::mir::statement::StatementKind;
use crate::mir::terminator::{OperandPlace, TerminatorKind};

verus! {

/// The hasher builder of `rustc_hash`'s sets.
#[verifier::external_type_specification]
#[verifier::external_body]
pub struct ExFxBuildHasher(FxBuildHasher);

/// MIR after borrow checking.
#[derive(Clone, Debug)]
pub struct BorrowckBody {
    pub body: MirBody,
}

/// The local a place is rooted at.
pub fn base_local(place: &Place) -> (l: LocalId)
    ensures
        l == place.local,
{
    place.local
}

/// The local a call argument is rooted at.
pub fn base_local_place(place: &Place) -> (l: LocalId)
    ensures
        l == place.local,
{
    place.local
}

/// The locals that a body moves out of: sources of moves, destinations of
/// whole-local moves that were not moved before, and places passed to
/// calls.
fn moved_locals(body: &MirBody) -> FxHashSet<LocalId> {
    let mut moved: FxHashSet<LocalId> = FxHashSet::default();
    let mut b: usize = 0;
    while b < body.blocks.len()
        invariant
            b <= body.blocks@.len(),
        decreases body.blocks@.len() - b,
    {
        let bb = &body.blocks[b];
        let mut j: usize = 0;
        while j < bb.statements.len()
            invariant
                j <= bb.statements@.len(),
            decreases bb.statements@.len() - j,
        {
            if let StatementKind::Assign { place, rvalue } = &bb.statements[j].kind {
                if let Rvalue::Use(Operand::Move(src)) = rvalue {
                    moved.insert(base_local(src));
                }
                if place.projection.len() == 0 && !moved.contains(&place.local) {
                    if let Rvalue::Use(Operand::Move(_)) = rvalue {
                        moved.insert(place.local);
                    }
                }
            }
            j = j + 1;
        }
        if let TerminatorKind::Call { args, .. } = &bb.terminator.kind {
            let mut k: usize = 0;
            while k < args.len()
                invariant
                    k <= args@.len(),
                decreases args@.len() - k,
            {
                if let OperandPlace::Place(p) = &args[k] {
                    moved.insert(base_local_place(p));
                }
                k = k + 1;
            }
        }
        b = b + 1;
    }
    moved
}

/// Borrow-checks one body; the body comes back unchanged.
pub fn borrowck(body: MirBody) -> (r: BorrowckBody)
    ensures
        r.body == body,
{
    let _ = moved_locals(&body);
    BorrowckBody { body }
}

/// Borrow-checks every body of the crate; the crate comes back unchanged.
pub fn borrowck_crate(mir: MirCrate) -> (r: MirCrate)
    ensures
        r.funcs() == mir.funcs(),
        r.defs() == mir.defs(),
{
    let n = mir.function_count();
    let mut i: usize = 0;
    while i < n
        invariant
            i <= n,
            n == mir.funcs().len(),
        decreases n - i,
    {
        let _ = moved_locals(mir.function_at(i));
        i = i + 1;
    }
    mir
}

} // verus!
