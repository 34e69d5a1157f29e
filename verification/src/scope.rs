//! The stack of lexical scopes: an ordered list of frames, innermost first,
//! each frame a map from names to slots. The type checker keeps types in the
//! slots, the evaluator keeps values and borrow lists.

use vstd::prelude::*;
use std::collections::VecDeque;
use crate::table::Table;

verus! {

/// The slot that `name` resolves to: that of the innermost frame defining it.
pub open spec fn env_lookup<T>(env: Seq<Map<Seq<char>, T>>, name: Seq<char>) -> Option<T>
    decreases env.len(),
{
    if env.len() == 0 {
        None
    } else if env[0].contains_key(name) {
        Some(env[0][name])
    } else {
        env_lookup(env.drop_first(), name)
    }
}

/// The environment after binding `name` in the innermost frame. An
/// environment without frames gets one.
pub open spec fn env_declare<T>(env: Seq<Map<Seq<char>, T>>, name: Seq<char>, slot: T) -> Seq<
    Map<Seq<char>, T>,
> {
    if env.len() == 0 {
        seq![Map::<Seq<char>, T>::empty().insert(name, slot)]
    } else {
        env.update(0, env[0].insert(name, slot))
    }
}

/// The environment after replacing the slot that `name` resolves to. Nothing
/// changes when the name is unbound.
pub open spec fn env_assign<T>(env: Seq<Map<Seq<char>, T>>, name: Seq<char>, slot: T) -> Seq<
    Map<Seq<char>, T>,
>
    decreases env.len(),
{
    if env.len() == 0 {
        env
    } else if env[0].contains_key(name) {
        env.update(0, env[0].insert(name, slot))
    } else {
        seq![env[0]] + env_assign(env.drop_first(), name, slot)
    }
}

/// The environment after entering a block.
pub open spec fn env_push<T>(env: Seq<Map<Seq<char>, T>>) -> Seq<Map<Seq<char>, T>> {
    seq![Map::<Seq<char>, T>::empty()] + env
}

/// The environment after leaving a block.
pub open spec fn env_pop<T>(env: Seq<Map<Seq<char>, T>>) -> Seq<Map<Seq<char>, T>> {
    if env.len() == 0 {
        env
    } else {
        env.drop_first()
    }
}

/// A name that the first `k` frames do not define resolves in the rest.
pub proof fn lemma_lookup_skip<T>(env: Seq<Map<Seq<char>, T>>, name: Seq<char>, k: int)
    requires
        0 <= k <= env.len(),
        forall|j: int| 0 <= j < k ==> !env[j].contains_key(name),
    ensures
        env_lookup(env, name) == env_lookup(env.skip(k), name),
    decreases k,
{
    if k == 0 {
        assert(env.skip(0) =~= env);
    } else {
        assert(env.drop_first().skip(k - 1) =~= env.skip(k));
        lemma_lookup_skip(env.drop_first(), name, k - 1);
    }
}

/// Replacing a slot that frame `k` is the first to define changes that frame
/// alone.
pub proof fn lemma_assign_at<T>(env: Seq<Map<Seq<char>, T>>, name: Seq<char>, slot: T, k: int)
    requires
        0 <= k < env.len(),
        forall|j: int| 0 <= j < k ==> !env[j].contains_key(name),
        env[k].contains_key(name),
    ensures
        env_assign(env, name, slot) == env.update(k, env[k].insert(name, slot)),
    decreases k,
{
    if k > 0 {
        let rest = env.drop_first();
        lemma_assign_at(rest, name, slot, k - 1);
        assert(seq![env[0]] + rest.update(k - 1, rest[k - 1].insert(name, slot)) =~= env.update(
            k,
            env[k].insert(name, slot),
        ));
    }
}

/// A name that no frame defines is unbound, and replacing its slot changes
/// nothing.
pub proof fn lemma_unbound<T>(env: Seq<Map<Seq<char>, T>>, name: Seq<char>, slot: T)
    requires
        forall|j: int| 0 <= j < env.len() ==> !env[j].contains_key(name),
    ensures
        env_lookup(env, name) is None,
        env_assign(env, name, slot) == env,
    decreases env.len(),
{
    if env.len() > 0 {
        lemma_unbound(env.drop_first(), name, slot);
        assert(seq![env[0]] + env.drop_first() =~= env);
    }
}

/// After a declaration the declared name resolves to the new slot, and
/// every other name resolves as before.
pub proof fn lemma_lookup_declare<T>(
    env: Seq<Map<Seq<char>, T>>,
    name: Seq<char>,
    slot: T,
    other: Seq<char>,
)
    ensures
        env_lookup(env_declare(env, name, slot), other) == (if other == name {
            Some(slot)
        } else {
            env_lookup(env, other)
        }),
{
    let after = env_declare(env, name, slot);
    if env.len() == 0 {
        assert(after.drop_first() =~= Seq::<Map<Seq<char>, T>>::empty());
        assert(env_lookup(after.drop_first(), other) is None);
    } else {
        assert(after.drop_first() =~= env.drop_first());
    }
}

/// After a slot was replaced the name resolves to the new slot if it was
/// bound, and every other name resolves as before.
pub proof fn lemma_lookup_assign<T>(
    env: Seq<Map<Seq<char>, T>>,
    name: Seq<char>,
    slot: T,
    other: Seq<char>,
)
    ensures
        env_lookup(env_assign(env, name, slot), other) == (if other == name && env_lookup(
            env,
            name,
        ) is Some {
            Some(slot)
        } else {
            env_lookup(env, other)
        }),
    decreases env.len(),
{
    let after = env_assign(env, name, slot);
    if env.len() == 0 {
    } else if env[0].contains_key(name) {
        assert(after.drop_first() =~= env.drop_first());
    } else {
        lemma_lookup_assign(env.drop_first(), name, slot, other);
        assert(after.drop_first() =~= env_assign(env.drop_first(), name, slot));
        assert(after[0] == env[0]);
    }
}

/// Entering a block, declaring a name in it and leaving it again gives back
/// the environment as it was: the declaration in the block shadows an outer
/// binding of the name only while the block lasts.
pub proof fn law_shadowing_ends_with_block<T>(env: Seq<Map<Seq<char>, T>>, name: Seq<char>, slot: T)
    ensures
        env_pop(env_declare(env_push(env), name, slot)) == env,
        env_lookup(env_declare(env_push(env), name, slot), name) == Some(slot),
        forall|other: Seq<char>|
            env_lookup(env_pop(env_declare(env_push(env), name, slot)), other) == env_lookup(
                env,
                other,
            ),
{
    assert(env_pop(env_declare(env_push(env), name, slot)) =~= env);
    lemma_lookup_declare(env_push(env), name, slot, name);
}

/// A stack of scope frames.
pub struct ScopeStack<S> {
    frames: VecDeque<Table<S>>,
}

impl<S: View> ScopeStack<S> {
    /// Every frame is a well-formed table.
    pub closed spec fn wf(&self) -> bool {
        forall|i: int| 0 <= i < self.frames@.len() ==> (#[trigger] self.frames@[i]).wf()
    }

    /// The frames, innermost first, each as a map from names to slots.
    pub closed spec fn view(&self) -> Seq<Map<Seq<char>, S::V>> {
        Seq::new(self.frames@.len(), |i: int| self.frames@[i]@)
    }

    /// A stack without frames.
    pub fn new() -> (s: Self)
        ensures
            s.wf(),
            s@ == Seq::<Map<Seq<char>, S::V>>::empty(),
    {
        let s = ScopeStack { frames: VecDeque::new() };
        assert(s@ =~= Seq::<Map<Seq<char>, S::V>>::empty());
        s
    }

    /// The number of frames.
    pub fn depth(&self) -> (n: usize)
        ensures
            n == self@.len(),
    {
        self.frames.len()
    }

    /// Enters a block: a new empty frame becomes the innermost.
    pub fn push_scope(&mut self)
        requires
            old(self).wf(),
        ensures
            final(self).wf(),
            final(self)@ == env_push(old(self)@),
    {
        self.frames.push_front(Table::new());
        assert(self@ =~= env_push(old(self)@));
    }

    /// Leaves a block: the innermost frame is dropped.
    pub fn pop_scope(&mut self)
        requires
            old(self).wf(),
        ensures
            final(self).wf(),
            final(self)@ == env_pop(old(self)@),
    {
        let _ = self.frames.pop_front();
        assert(self@ =~= env_pop(old(self)@));
    }

    /// Binds `name` in the innermost frame, replacing a binding of that name
    /// in that frame.
    pub fn declare(&mut self, name: String, slot: S)
        requires
            old(self).wf(),
        ensures
            final(self).wf(),
            final(self)@ == env_declare(old(self)@, name@, slot@),
    {
        let ghost n = name@;
        let ghost s = slot@;
        let mut frame = match self.frames.pop_front() {
            Some(f) => f,
            None => Table::new(),
        };
        frame.insert(name, slot);
        self.frames.push_front(frame);
        assert(self@ =~= env_declare(old(self)@, n, s));
    }

    /// The index of the innermost frame that defines `name`.
    fn locate(&self, name: &String) -> (r: Option<usize>)
        requires
            self.wf(),
        ensures
            r is None ==> forall|j: int| 0 <= j < self@.len() ==> !self@[j].contains_key(name@),
            r matches Some(k) ==> k < self@.len() && self@[k as int].contains_key(name@)
                && forall|j: int| 0 <= j < k ==> !self@[j].contains_key(name@),
    {
        let mut i: usize = 0;
        while i < self.frames.len()
            invariant
                self.wf(),
                i <= self.frames@.len(),
                forall|j: int| 0 <= j < i ==> !self@[j].contains_key(name@),
            decreases self.frames@.len() - i,
        {
            if self.frames[i].contains_key(name) {
                return Some(i);
            }
            i += 1;
        }
        None
    }

    /// The slot that `name` resolves to.
    pub fn lookup(&self, name: &String) -> (r: Option<&S>)
        requires
            self.wf(),
        ensures
            r is Some <==> env_lookup(self@, name@) is Some,
            r matches Some(s) ==> Some(s@) == env_lookup(self@, name@),
    {
        match self.locate(name) {
            Some(k) => {
                proof {
                    lemma_lookup_skip(self@, name@, k as int);
                }
                self.frames[k].get(name)
            },
            None => {
                proof {
                    lemma_lookup_skip(self@, name@, self@.len() as int);
                }
                None
            },
        }
    }

    /// Replaces the slot that `name` resolves to; an unbound name changes
    /// nothing.
    pub fn assign(&mut self, name: &String, slot: S)
        requires
            old(self).wf(),
        ensures
            final(self).wf(),
            final(self)@ == env_assign(old(self)@, name@, slot@),
    {
        let ghost s = slot@;
        match self.locate(name) {
            Some(k) => {
                proof {
                    lemma_assign_at(self@, name@, s, k as int);
                }
                match self.frames.remove(k) {
                    Some(mut frame) => {
                        frame.insert(name.clone(), slot);
                        self.frames.insert(k, frame);
                        assert(self@ =~= old(self)@.update(
                            k as int,
                            old(self)@[k as int].insert(name@, s),
                        ));
                    },
                    None => {},
                }
            },
            None => {
                proof {
                    lemma_unbound(self@, name@, s);
                }
            },
        }
    }
}

} // verus!
