//! The module registry: every feature module, in registration order, under
//! a unique id.

use vstd::prelude::*;

use crate::error::MyboxError;
use crate::strings::str_eq;

verus! {

/// Registry of feature modules, each registered under its id. `M` is the
/// application's module type.
pub struct ModuleRegistry<M> {
    modules: Vec<(&'static str, M)>,
}

/// The ids of a list of registered modules.
pub open spec fn module_ids<M>(s: Seq<(&'static str, M)>) -> Seq<Seq<char>> {
    s.map_values(|e: (&'static str, M)| e.0@)
}

impl<M> ModuleRegistry<M> {
    /// The registered ids, in registration order.
    pub closed spec fn ids(&self) -> Seq<Seq<char>> {
        module_ids(self.modules@)
    }

    /// The registered modules, in registration order.
    pub closed spec fn spec_modules(&self) -> Seq<M> {
        self.modules@.map_values(|e: (&'static str, M)| e.1)
    }

    /// No id occurs twice.
    pub closed spec fn wf(&self) -> bool {
        forall|i: int, j: int| 0 <= i < self.ids().len() && 0 <= j < self.ids().len() && i != j ==> self.ids()[i] != self.ids()[j]
    }

    /// An empty registry.
    pub fn new() -> (r: Self)
        ensures
            r.wf(),
            r.ids() == Seq::<Seq<char>>::empty(),
            r.spec_modules() == Seq::<M>::empty(),
    {
        let r = ModuleRegistry { modules: Vec::new() };
        proof {
            assert(r.ids() =~= Seq::<Seq<char>>::empty());
            assert(r.spec_modules() =~= Seq::<M>::empty());
        }
        r
    }

    /// Register `module` under `id`. Fails with `MyboxError::Module` (naming
    /// the id) when the id is already registered; the registry is then
    /// unchanged.
    pub fn register(&mut self, id: &'static str, module: M) -> (r: Result<(), MyboxError>)
        requires
            old(self).wf(),
        ensures
            final(self).wf(),
            old(self).ids().contains(id@) ==> {
                &&& r matches Err(MyboxError::Module(msg))
                &&& msg@ == "duplicate module id '"@ + id@ + "'"@
                &&& final(self).ids() == old(self).ids()
                &&& final(self).spec_modules() == old(self).spec_modules()
            },
            !old(self).ids().contains(id@) ==> {
                &&& r is Ok
                &&& final(self).ids() == old(self).ids().push(id@)
                &&& final(self).spec_modules() == old(self).spec_modules().push(module)
            },
    {
        let mut i: usize = 0;
        while i < self.modules.len()
            invariant
                i <= self.modules@.len(),
                self.modules@ == old(self).modules@,
                old(self).wf(),
                forall|j: int| 0 <= j < i ==> self.modules@[j].0@ != id@,
            decreases self.modules@.len() - i,
        {
            if str_eq(self.modules[i].0, id) {
                proof {
                    assert(self.ids()[i as int] == id@);
                    assert(self.ids() == old(self).ids());
                }
                let msg = String::from_str("duplicate module id '").concat(id).concat("'");
                return Err(MyboxError::Module(msg));
            }
            i = i + 1;
        }
        let ghost before = self.ids();
        let ghost before_modules = self.spec_modules();
        proof {
            assert forall|j: int| 0 <= j < before.len() implies before[j] != id@ by {
                assert(before[j] == self.modules@[j].0@);
            }
        }
        self.modules.push((id, module));
        proof {
            assert(self.ids() =~= before.push(id@));
            assert(self.spec_modules() =~= before_modules.push(module));
        }
        Ok(())
    }

    /// Number of registered modules.
    pub fn len(&self) -> (r: usize)
        ensures
            r == self.ids().len(),
    {
        self.modules.len()
    }

    /// The module at registration position `i`, with its id.
    pub fn get(&self, i: usize) -> (r: Option<(&'static str, &M)>)
        ensures
            i < self.ids().len() ==> (r matches Some((id, m)) && id@ == self.ids()[i as int] && *m == self.spec_modules()[i as int]),
            i >= self.ids().len() ==> r is None,
    {
        if i < self.modules.len() {
            let e = &self.modules[i];
            Some((e.0, &e.1))
        } else {
            None
        }
    }

    /// The module registered under `id`.
    pub fn get_by_id(&self, id: &str) -> (r: Option<&M>)
        requires
            self.wf(),
        ensures
            match r {
                Some(m) => exists|j: int| 0 <= j < self.ids().len() && self.ids()[j] == id@ && *m == self.spec_modules()[j],
                None => !self.ids().contains(id@),
            },
    {
        let mut i: usize = 0;
        while i < self.modules.len()
            invariant
                i <= self.modules@.len(),
                forall|j: int| 0 <= j < i ==> self.modules@[j].0@ != id@,
            decreases self.modules@.len() - i,
        {
            if str_eq(self.modules[i].0, id) {
                proof {
                    assert(self.ids()[i as int] == id@);
                    assert(self.spec_modules()[i as int] == self.modules@[i as int].1);
                }
                return Some(&self.modules[i].1);
            }
            i = i + 1;
        }
        proof {
            if self.ids().contains(id@) {
                let j = choose|j: int| 0 <= j < self.ids().len() && self.ids()[j] == id@;
                assert(self.modules@[j].0@ == id@);
            }
        }
        None
    }
}

impl<M> Default for ModuleRegistry<M> {
    fn default() -> (r: Self)
        ensures
            r.wf(),
            r.ids() == Seq::<Seq<char>>::empty(),
            r.spec_modules() == Seq::<M>::empty(),
    {
        Self::new()
    }
}

} // verus!
