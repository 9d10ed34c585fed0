//! Stable newtype identifiers for compiler data structures.

use vstd::prelude::*;

verus! {

/// Index newtype `LocalId`: a `u32` position in the table it refers to.
#[derive(Clone, Copy, PartialEq, Eq, Structural, Hash, Debug, Default)]
pub struct LocalId(pub u32);

impl LocalId {
    /// Builds the id of position `index`; the position is truncated to 32 bits.
    pub fn from_usize(index: usize) -> (id: Self)
        ensures
            id.0 == index as u32,
    {
        LocalId(index as u32)
    }

    /// The position this id names.
    pub fn index(self) -> (i: usize)
        ensures
            i == self.0,
    {
        self.0 as usize
    }
}

/// Index newtype `BlockId`: a `u32` position in the table it refers to.
#[derive(Clone, Copy, PartialEq, Eq, Structural, Hash, Debug, Default)]
pub struct BlockId(pub u32);

impl BlockId {
    /// Builds the id of position `index`; the position is truncated to 32 bits.
    pub fn from_usize(index: usize) -> (id: Self)
        ensures
            id.0 == index as u32,
    {
        BlockId(index as u32)
    }

    /// The position this id names.
    pub fn index(self) -> (i: usize)
        ensures
            i == self.0,
    {
        self.0 as usize
    }
}

/// Index newtype `SymbolId`: a `u32` position in the table it refers to.
#[derive(Clone, Copy, PartialEq, Eq, Structural, Hash, Debug, Default)]
pub struct SymbolId(pub u32);

impl SymbolId {
    /// Builds the id of position `index`; the position is truncated to 32 bits.
    pub fn from_usize(index: usize) -> (id: Self)
        ensures
            id.0 == index as u32,
    {
        SymbolId(index as u32)
    }

    /// The position this id names.
    pub fn index(self) -> (i: usize)
        ensures
            i == self.0,
    {
        self.0 as usize
    }
}

/// Index newtype `DefId`: a `u32` position in the table it refers to.
#[derive(Clone, Copy, PartialEq, Eq, Structural, Hash, Debug, Default)]
pub struct DefId(pub u32);

impl DefId {
    /// Builds the id of position `index`; the position is truncated to 32 bits.
    pub fn from_usize(index: usize) -> (id: Self)
        ensures
            id.0 == index as u32,
    {
        DefId(index as u32)
    }

    /// The position this id names.
    pub fn index(self) -> (i: usize)
        ensures
            i == self.0,
    {
        self.0 as usize
    }
}

/// Index newtype `TypeId`: a `u32` position in the table it refers to.
#[derive(Clone, Copy, PartialEq, Eq, Structural, Hash, Debug, Default)]
pub struct TypeId(pub u32);

impl TypeId {
    /// Builds the id of position `index`; the position is truncated to 32 bits.
    pub fn from_usize(index: usize) -> (id: Self)
        ensures
            id.0 == index as u32,
    {
        TypeId(index as u32)
    }

    /// The position this id names.
    pub fn index(self) -> (i: usize)
        ensures
            i == self.0,
    {
        self.0 as usize
    }
}

/// Index newtype `TraitId`: a `u32` position in the table it refers to.
#[derive(Clone, Copy, PartialEq, Eq, Structural, Hash, Debug, Default)]
pub struct TraitId(pub u32);

impl TraitId {
    /// Builds the id of position `index`; the position is truncated to 32 bits.
    pub fn from_usize(index: usize) -> (id: Self)
        ensures
            id.0 == index as u32,
    {
        TraitId(index as u32)
    }

    /// The position this id names.
    pub fn index(self) -> (i: usize)
        ensures
            i == self.0,
    {
        self.0 as usize
    }
}

/// Index newtype `ImplId`: a `u32` position in the table it refers to.
#[derive(Clone, Copy, PartialEq, Eq, Structural, Hash, Debug, Default)]
pub struct ImplId(pub u32);

impl ImplId {
    /// Builds the id of position `index`; the position is truncated to 32 bits.
    pub fn from_usize(index: usize) -> (id: Self)
        ensures
            id.0 == index as u32,
    {
        ImplId(index as u32)
    }

    /// The position this id names.
    pub fn index(self) -> (i: usize)
        ensures
            i == self.0,
    {
        self.0 as usize
    }
}

/// Index newtype `CrateId`: a `u32` position in the table it refers to.
#[derive(Clone, Copy, PartialEq, Eq, Structural, Hash, Debug, Default)]
pub struct CrateId(pub u32);

impl CrateId {
    /// Builds the id of position `index`; the position is truncated to 32 bits.
    pub fn from_usize(index: usize) -> (id: Self)
        ensures
            id.0 == index as u32,
    {
        CrateId(index as u32)
    }

    /// The position this id names.
    pub fn index(self) -> (i: usize)
        ensures
            i == self.0,
    {
        self.0 as usize
    }
}

/// Index newtype `ModuleId`: a `u32` position in the table it refers to.
#[derive(Clone, Copy, PartialEq, Eq, Structural, Hash, Debug, Default)]
pub struct ModuleId(pub u32);

impl ModuleId {
    /// Builds the id of position `index`; the position is truncated to 32 bits.
    pub fn from_usize(index: usize) -> (id: Self)
        ensures
            id.0 == index as u32,
    {
        ModuleId(index as u32)
    }

    /// The position this id names.
    pub fn index(self) -> (i: usize)
        ensures
            i == self.0,
    {
        self.0 as usize
    }
}

/// Index newtype `ExprId`: a `u32` position in the table it refers to.
#[derive(Clone, Copy, PartialEq, Eq, Structural, Hash, Debug, Default)]
pub struct ExprId(pub u32);

impl ExprId {
    /// Builds the id of position `index`; the position is truncated to 32 bits.
    pub fn from_usize(index: usize) -> (id: Self)
        ensures
            id.0 == index as u32,
    {
        ExprId(index as u32)
    }

    /// The position this id names.
    pub fn index(self) -> (i: usize)
        ensures
            i == self.0,
    {
        self.0 as usize
    }
}

/// Index newtype `StmtId`: a `u32` position in the table it refers to.
#[derive(Clone, Copy, PartialEq, Eq, Structural, Hash, Debug, Default)]
pub struct StmtId(pub u32);

impl StmtId {
    /// Builds the id of position `index`; the position is truncated to 32 bits.
    pub fn from_usize(index: usize) -> (id: Self)
        ensures
            id.0 == index as u32,
    {
        StmtId(index as u32)
    }

    /// The position this id names.
    pub fn index(self) -> (i: usize)
        ensures
            i == self.0,
    {
        self.0 as usize
    }
}

/// Index newtype `ItemId`: a `u32` position in the table it refers to.
#[derive(Clone, Copy, PartialEq, Eq, Structural, Hash, Debug, Default)]
pub struct ItemId(pub u32);

impl ItemId {
    /// Builds the id of position `index`; the position is truncated to 32 bits.
    pub fn from_usize(index: usize) -> (id: Self)
        ensures
            id.0 == index as u32,
    {
        ItemId(index as u32)
    }

    /// The position this id names.
    pub fn index(self) -> (i: usize)
        ensures
            i == self.0,
    {
        self.0 as usize
    }
}

/// Index newtype `PatId`: a `u32` position in the table it refers to.
#[derive(Clone, Copy, PartialEq, Eq, Structural, Hash, Debug, Default)]
pub struct PatId(pub u32);

impl PatId {
    /// Builds the id of position `index`; the position is truncated to 32 bits.
    pub fn from_usize(index: usize) -> (id: Self)
        ensures
            id.0 == index as u32,
    {
        PatId(index as u32)
    }

    /// The position this id names.
    pub fn index(self) -> (i: usize)
        ensures
            i == self.0,
    {
        self.0 as usize
    }
}

/// Index newtype `TyId`: a `u32` position in the table it refers to.
#[derive(Clone, Copy, PartialEq, Eq, Structural, Hash, Debug, Default)]
pub struct TyId(pub u32);

impl TyId {
    /// Builds the id of position `index`; the position is truncated to 32 bits.
    pub fn from_usize(index: usize) -> (id: Self)
        ensures
            id.0 == index as u32,
    {
        TyId(index as u32)
    }

    /// The position this id names.
    pub fn index(self) -> (i: usize)
        ensures
            i == self.0,
    {
        self.0 as usize
    }
}

/// Index newtype `HIRBodyId`: a `u32` position in the table it refers to.
#[derive(Clone, Copy, PartialEq, Eq, Structural, Hash, Debug, Default)]
pub struct HIRBodyId(pub u32);

impl HIRBodyId {
    /// Builds the id of position `index`; the position is truncated to 32 bits.
    pub fn from_usize(index: usize) -> (id: Self)
        ensures
            id.0 == index as u32,
    {
        HIRBodyId(index as u32)
    }

    /// The position this id names.
    pub fn index(self) -> (i: usize)
        ensures
            i == self.0,
    {
        self.0 as usize
    }
}

/// Index newtype `MirFuncId`: a `u32` position in the table it refers to.
#[derive(Clone, Copy, PartialEq, Eq, Structural, Hash, Debug, Default)]
pub struct MirFuncId(pub u32);

impl MirFuncId {
    /// Builds the id of position `index`; the position is truncated to 32 bits.
    pub fn from_usize(index: usize) -> (id: Self)
        ensures
            id.0 == index as u32,
    {
        MirFuncId(index as u32)
    }

    /// The position this id names.
    pub fn index(self) -> (i: usize)
        ensures
            i == self.0,
    {
        self.0 as usize
    }
}

/// Index newtype `HirExprId`: a `u32` position in the table it refers to.
#[derive(Clone, Copy, PartialEq, Eq, Structural, Hash, Debug, Default)]
pub struct HirExprId(pub u32);

impl HirExprId {
    /// Builds the id of position `index`; the position is truncated to 32 bits.
    pub fn from_usize(index: usize) -> (id: Self)
        ensures
            id.0 == index as u32,
    {
        HirExprId(index as u32)
    }

    /// The position this id names.
    pub fn index(self) -> (i: usize)
        ensures
            i == self.0,
    {
        self.0 as usize
    }
}

/// Index newtype `HirStmtId`: a `u32` position in the table it refers to.
#[derive(Clone, Copy, PartialEq, Eq, Structural, Hash, Debug, Default)]
pub struct HirStmtId(pub u32);

impl HirStmtId {
    /// Builds the id of position `index`; the position is truncated to 32 bits.
    pub fn from_usize(index: usize) -> (id: Self)
        ensures
            id.0 == index as u32,
    {
        HirStmtId(index as u32)
    }

    /// The position this id names.
    pub fn index(self) -> (i: usize)
        ensures
            i == self.0,
    {
        self.0 as usize
    }
}

/// Index newtype `HirPatId`: a `u32` position in the table it refers to.
#[derive(Clone, Copy, PartialEq, Eq, Structural, Hash, Debug, Default)]
pub struct HirPatId(pub u32);

impl HirPatId {
    /// Builds the id of position `index`; the position is truncated to 32 bits.
    pub fn from_usize(index: usize) -> (id: Self)
        ensures
            id.0 == index as u32,
    {
        HirPatId(index as u32)
    }

    /// The position this id names.
    pub fn index(self) -> (i: usize)
        ensures
            i == self.0,
    {
        self.0 as usize
    }
}

} // verus!
