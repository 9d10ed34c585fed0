//! What name resolution determined about a crate, as code generation reads
//! it.

use vstd::prelude::*;

use crate::ids::DefId;

verus! {

/// The results of name resolution that the back end needs.
#[derive(Clone, Debug)]
pub struct Resolution {
    /// The definition of the builtin `print`.
    pub print: DefId,
    /// The name of each definition.
    pub def_names: Vec<(DefId, String)>,
}

/// The name of the first entry for `def`.
pub open spec fn name_lookup(s: Seq<(DefId, String)>, def: DefId) -> Option<Seq<char>>
    decreases s.len(),
{
    if s.len() == 0 {
        None
    } else if s[0].0 == def {
        Some(s[0].1@)
    } else {
        name_lookup(s.drop_first(), def)
    }
}

impl Resolution {
    /// The name of `def`, if it has one.
    pub fn name(&self, def: DefId) -> (r: Option<&String>)
        ensures
            match r {
                Some(n) => name_lookup(self.def_names@, def) == Some(n@),
                None => name_lookup(self.def_names@, def) is None,
            },
    {
        let ghost s = self.def_names@;
        let mut i: usize = 0;
        assert(s.subrange(0, s.len() as int) =~= s);
        while i < self.def_names.len()
            invariant
                i <= s.len(),
                s == self.def_names@,
                name_lookup(s, def) == name_lookup(s.subrange(i as int, s.len() as int), def),
            decreases s.len() - i,
        {
            assert(s.subrange(i as int, s.len() as int).drop_first() =~= s.subrange(i + 1, s.len() as int));
            if self.def_names[i].0 == def {
                return Some(&self.def_names[i].1);
            }
            i = i + 1;
        }
        assert(s.subrange(i as int, s.len() as int).len() == 0);
        None
    }
}

} // verus!
