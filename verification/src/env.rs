//! The chain of scopes through which names are resolved.
//!
//! The frames live in an arena and name their parent by its index, so the
//! chain can be walked without owning it and cannot form a cycle.

use vstd::prelude::*;
use crate::types::Var;
use crate::types::VarView;

verus! {

/// One scope: the variables defined in it, in the order of their definition.
#[derive(Debug)]
pub struct ScopeFrame {
    pub vars: Vec<Var>,
    /// The index of the enclosing scope; `None` for the outermost one.
    pub parent: Option<usize>,
}

/// The scopes of one compilation and the one that is currently open.
#[derive(Debug)]
pub struct Env {
    pub frames: Vec<ScopeFrame>,
    pub current: usize,
}

/// The variables of a frame, as mathematical values.
pub open spec fn vars_view(vars: Seq<Var>) -> Seq<VarView> {
    Seq::new(vars.len(), |i: int| vars[i]@)
}

/// The binding of `name` in one scope: the latest definition wins.
pub open spec fn frame_find(vars: Seq<VarView>, name: Seq<char>) -> Option<VarView>
    decreases vars.len(),
{
    if vars.len() == 0 {
        None
    } else if vars.last().name == name {
        Some(vars.last())
    } else {
        frame_find(vars.drop_last(), name)
    }
}

/// The binding of `name` in a chain of scopes, outermost first: the
/// innermost scope that binds the name wins.
pub open spec fn env_find(env: Seq<Seq<VarView>>, name: Seq<char>) -> Option<VarView>
    decreases env.len(),
{
    if env.len() == 0 {
        None
    } else {
        match frame_find(env.last(), name) {
            Some(v) => Some(v),
            None => env_find(env.drop_last(), name),
        }
    }
}

/// The chain of scopes with `var` defined in the innermost one.
pub open spec fn env_insert(env: Seq<Seq<VarView>>, var: VarView) -> Seq<Seq<VarView>>
    recommends
        env.len() > 0,
{
    env.drop_last().push(env.last().push(var))
}

/// The scopes from the outermost one down to frame `i`, outermost first.
pub open spec fn chain_at(frames: Seq<ScopeFrame>, i: int) -> Seq<Seq<VarView>>
    decreases i,
{
    if 0 <= i < frames.len() {
        match frames[i].parent {
            Some(p) => if p < i {
                chain_at(frames, p as int).push(vars_view(frames[i].vars@))
            } else {
                seq![vars_view(frames[i].vars@)]
            },
            None => seq![vars_view(frames[i].vars@)],
        }
    } else {
        Seq::empty()
    }
}

/// The chain down to frame `i` depends on the frames up to `i` only.
pub proof fn lemma_chain_prefix(a: Seq<ScopeFrame>, b: Seq<ScopeFrame>, i: int)
    requires
        0 <= i < a.len(),
        i < b.len(),
        forall|j: int| 0 <= j <= i ==> a[j] == b[j],
    ensures
        chain_at(a, i) == chain_at(b, i),
    decreases i,
{
    match a[i].parent {
        Some(p) => {
            if p < i {
                lemma_chain_prefix(a, b, p as int);
            }
        },
        None => {},
    }
}

impl View for Env {
    type V = Seq<Seq<VarView>>;

    open spec fn view(&self) -> Seq<Seq<VarView>> {
        chain_at(self.frames@, self.current as int)
    }
}

impl Env {
    /// The current frame exists, and every parent lies before its child.
    pub open spec fn wf(&self) -> bool {
        &&& self.current < self.frames.len()
        &&& forall|i: int|
            0 <= i < self.frames.len() ==> ((#[trigger] self.frames[i]).parent matches Some(p)
                ==> p < i)
    }

    /// A chain of one scope, the outermost one, with nothing defined in it.
    pub fn new() -> (env: Env)
        ensures
            env.wf(),
            env@ == seq![Seq::<VarView>::empty()],
    {
        let mut frames: Vec<ScopeFrame> = Vec::new();
        frames.push(ScopeFrame { vars: Vec::new(), parent: None });
        let env = Env { frames, current: 0 };
        assert(vars_view(env.frames[0].vars@) =~= Seq::<VarView>::empty());
        env
    }

    /// Looks `name` up, from the innermost scope outwards.
    pub fn find(&self, name: &String) -> (r: Option<&Var>)
        requires
            self.wf(),
        ensures
            match r {
                Some(v) => env_find(self@, name@) == Some(v@),
                None => env_find(self@, name@) is None,
            },
    {
        let mut i: usize = self.current;
        loop
            invariant
                self.wf(),
                i < self.frames.len(),
                env_find(self@, name@) == env_find(chain_at(self.frames@, i as int), name@),
            decreases i,
        {
            let frame = &self.frames[i];
            let ghost vs = vars_view(frame.vars@);
            let ghost chain = chain_at(self.frames@, i as int);
            let mut k: usize = frame.vars.len();
            proof {
                assert(vs.take(k as int) == vs);
                assert(chain.last() == vs);
            }
            while k > 0
                invariant
                    k <= frame.vars.len(),
                    vs == vars_view(frame.vars@),
                    chain.len() > 0,
                    chain.last() == vs,
                    env_find(self@, name@) == env_find(chain, name@),
                    frame_find(vs, name@) == frame_find(vs.take(k as int), name@),
                decreases k,
            {
                k -= 1;
                proof {
                    assert(vs.take(k as int + 1).drop_last() == vs.take(k as int));
                }
                if frame.vars[k].name == *name {
                    return Some(&frame.vars[k]);
                }
            }
            proof {
                assert(vs.take(0).len() == 0);
            }
            match frame.parent {
                Some(p) => {
                    proof {
                        assert(chain_at(self.frames@, i as int).drop_last() == chain_at(
                            self.frames@,
                            p as int,
                        ));
                    }
                    i = p;
                },
                None => {
                    proof {
                        assert(chain.drop_last().len() == 0);
                        assert(env_find(chain.drop_last(), name@) is None);
                    }
                    return None;
                },
            }
        }
    }

    /// Opens a scope inside the current one.
    pub fn enter(&mut self)
        requires
            old(self).wf(),
        ensures
            final(self).wf(),
            final(self)@ == old(self)@.push(Seq::<VarView>::empty()),
    {
        let parent = self.current;
        self.frames.push(ScopeFrame { vars: Vec::new(), parent: Some(parent) });
        self.current = self.frames.len() - 1;
        proof {
            lemma_chain_prefix(old(self).frames@, self.frames@, parent as int);
            assert(vars_view(self.frames[self.current as int].vars@) =~= Seq::<VarView>::empty());
        }
    }

    /// Closes the current scope and returns to the enclosing one.
    pub fn leave(&mut self)
        requires
            old(self).wf(),
            old(self)@.len() > 1,
        ensures
            final(self).wf(),
            final(self)@ == old(self)@.drop_last(),
    {
        let cur = self.current;
        match self.frames[cur].parent {
            Some(p) => {
                proof {
                    assert(old(self)@.drop_last() == chain_at(old(self).frames@, p as int));
                }
                if cur + 1 == self.frames.len() {
                    self.frames.pop();
                    proof {
                        lemma_chain_prefix(old(self).frames@, self.frames@, p as int);
                    }
                }
                self.current = p;
            },
            None => {
                proof {
                    assert(old(self)@.len() == 1);
                }
            },
        }
    }

    /// Defines `var` in the current scope. A later definition of the same
    /// name in the same scope takes the place of an earlier one.
    pub fn insert(&mut self, var: Var)
        requires
            old(self).wf(),
        ensures
            final(self).wf(),
            final(self)@ == env_insert(old(self)@, var@),
    {
        let cur = self.current;
        let ghost parent = self.frames[cur as int].parent;
        self.frames[cur].vars.push(var);
        proof {
            let before = old(self).frames@;
            let after = self.frames@;
            assert(vars_view(after[cur as int].vars@) =~= vars_view(before[cur as int].vars@).push(
                var@,
            ));
            match parent {
                Some(p) => {
                    lemma_chain_prefix(before, after, p as int);
                    assert(self@ =~= env_insert(old(self)@, var@));
                },
                None => {
                    assert(self@ =~= env_insert(old(self)@, var@));
                },
            }
        }
    }
}

/// Inside a block a name resolves to the block's own definition of it,
/// whatever the enclosing scopes hold; once the block is closed, every name
/// resolves as it did before the block was opened.
pub proof fn lemma_shadowing(outer: Seq<Seq<VarView>>, block: Seq<VarView>, var: VarView)
    ensures
        env_find(outer.push(block.push(var)), var.name) == Some(var),
        outer.push(block.push(var)).drop_last() == outer,
        forall|name: Seq<char>|
            env_find(outer.push(block.push(var)).drop_last(), name) == env_find(outer, name),
{
    assert(outer.push(block.push(var)).drop_last() == outer);
}

/// A definition in the innermost scope does not change what any other
/// name resolves to.
pub proof fn lemma_insert_other(env: Seq<Seq<VarView>>, var: VarView, name: Seq<char>)
    requires
        env.len() > 0,
        name != var.name,
    ensures
        env_find(env_insert(env, var), name) == env_find(env, name),
{
    let inner = env.last().push(var);
    assert(inner.drop_last() == env.last());
    assert(env_insert(env, var).drop_last() == env.drop_last());
}

} // verus!
