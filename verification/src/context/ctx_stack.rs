//! The context stack of one connection.
//!
//! The first frame is the base: it has no name and is never removed. The top
//! frame is the one that decides access.

use vstd::prelude::*;

use crate::context::sec_ctx::SecurityContext;
use crate::text::str_eq;

verus! {

#[derive(Debug)]
struct Frame {
    name: Option<String>,
    ctx: SecurityContext,
}

/// One frame of a stack, as mathematics.
pub struct FrameView {
    pub name: Option<Seq<char>>,
    pub ctx: Map<Seq<char>, Set<Seq<char>>>,
}

/// A stack of security contexts. It always holds its base frame.
#[derive(Debug)]
pub struct ContextStack {
    base: SecurityContext,
    frames: Vec<Frame>,
}

/// The name of a frame, as mathematics.
pub open spec fn name_view(name: Option<String>) -> Option<Seq<char>> {
    match name {
        Some(n) => Some(n@),
        None => None,
    }
}

impl View for ContextStack {
    type V = Seq<FrameView>;

    closed spec fn view(&self) -> Seq<FrameView> {
        seq![FrameView { name: None, ctx: self.base@ }] + Seq::new(
            self.frames@.len(),
            |i: int| FrameView { name: name_view(self.frames@[i].name), ctx: self.frames@[i].ctx@ },
        )
    }
}

/// The topmost position at which a stack holds a frame named `name`, if it
/// holds one.
pub open spec fn topmost_named(stack: Seq<FrameView>, name: Seq<char>) -> Option<int> {
    if exists|i: int| is_topmost_named(stack, name, i) {
        Some(choose|i: int| is_topmost_named(stack, name, i))
    } else {
        None
    }
}

/// Whether frame `i` is named `name` and no frame above it is.
pub open spec fn is_topmost_named(stack: Seq<FrameView>, name: Seq<char>, i: int) -> bool {
    &&& 0 <= i < stack.len()
    &&& stack[i].name == Some(name)
    &&& forall|j: int| i < j < stack.len() ==> (#[trigger] stack[j]).name != Some(name)
}

fn clone_name(name: &Option<String>) -> (r: Option<String>)
    ensures
        name_view(r) == name_view(*name),
{
    match name {
        Some(n) => Some(n.clone()),
        None => None,
    }
}

impl ContextStack {
    /// The stack of a new connection: an unnamed, empty base frame.
    pub open spec fn fresh() -> Seq<FrameView> {
        seq![FrameView { name: None, ctx: Map::empty() }]
    }

    /// A stack is never empty, and its base frame has no name.
    pub proof fn lemma_base(&self)
        ensures
            self@.len() >= 1,
            self@[0].name is None,
    {
    }

    /// How many frames the stack holds, the base included.
    pub fn depth(&self) -> (r: usize)
        ensures
            self@.len() <= usize::MAX ==> r == self@.len(),
            self@.len() > usize::MAX ==> r == usize::MAX,
            r >= 1,
    {
        let n = self.frames.len();
        if n == usize::MAX {
            n
        } else {
            n + 1
        }
    }

    /// Whether the stack holds its base frame alone.
    pub fn is_base(&self) -> (r: bool)
        ensures
            r == (self@.len() == 1),
    {
        self.frames.len() == 0
    }

    /// The name of frame `i`, counted from the base.
    pub fn frame_name(&self, i: usize) -> (r: Option<&str>)
        requires
            i < self@.len(),
        ensures
            match r {
                Some(n) => self@[i as int].name == Some(n@),
                None => self@[i as int].name is None,
            },
    {
        if i == 0 {
            None
        } else {
            match &self.frames[i - 1].name {
                Some(n) => Some(n.as_str()),
                None => None,
            }
        }
    }

    /// The name of the top frame.
    pub fn top_name(&self) -> (r: Option<&str>)
        ensures
            match r {
                Some(n) => self@.last().name == Some(n@),
                None => self@.last().name is None,
            },
    {
        let n = self.frames.len();
        if n == 0 {
            None
        } else {
            match &self.frames[n - 1].name {
                Some(s) => Some(s.as_str()),
                None => None,
            }
        }
    }

    /// The top frame's context.
    pub fn current(&self) -> (r: &SecurityContext)
        ensures
            r@ == self@.last().ctx,
    {
        let n = self.frames.len();
        if n == 0 {
            &self.base
        } else {
            &self.frames[n - 1].ctx
        }
    }

    /// The top frame's context, to be changed in place.
    pub fn current_mut(&mut self) -> (r: &mut SecurityContext)
        ensures
            (*r)@ == old(self)@.last().ctx,
            final(self)@ == old(self)@.update(
                old(self)@.len() - 1,
                FrameView { name: old(self)@.last().name, ctx: (*final(r))@ },
            ),
    {
        let n = self.frames.len();
        if n == 0 {
            let r = &mut self.base;
            assert(seq![FrameView { name: None, ctx: (*final(r))@ }] + Seq::new(
                self.frames@.len(),
                |i: int|
                    FrameView {
                        name: name_view(self.frames@[i].name),
                        ctx: self.frames@[i].ctx@,
                    },
            ) =~= old(self)@.update(
                old(self)@.len() - 1,
                FrameView { name: old(self)@.last().name, ctx: (*final(r))@ },
            ));
            r
        } else {
            let r = &mut self.frames[n - 1].ctx;
            r
        }
    }

    /// Adds `value` to the values that the top frame claims for `key`.
    pub fn set_attr(&mut self, key: &str, value: &str)
        ensures
            final(self)@ == old(self)@.update(
                old(self)@.len() - 1,
                FrameView {
                    name: old(self)@.last().name,
                    ctx: old(self)@.last().ctx.insert(
                        key@,
                        crate::context::sec_ctx::values_of(old(self)@.last().ctx, key@).insert(
                            value@,
                        ),
                    ),
                },
            ),
    {
        let ghost before = self@;
        let n = self.frames.len();
        if n == 0 {
            self.base.set_attr(key, value);
        } else {
            let mut top = self.frames.pop().unwrap();
            top.ctx.set_attr(key, value);
            self.frames.push(top);
        }
        assert(self@ =~= before.update(
            before.len() - 1,
            FrameView {
                name: before.last().name,
                ctx: before.last().ctx.insert(
                    key@,
                    crate::context::sec_ctx::values_of(before.last().ctx, key@).insert(value@),
                ),
            },
        ));
    }

    /// Replaces the top frame's context.
    pub fn set_current(&mut self, ctx: SecurityContext)
        ensures
            final(self)@ == old(self)@.update(
                old(self)@.len() - 1,
                FrameView { name: old(self)@.last().name, ctx: ctx@ },
            ),
    {
        let ghost before = self@;
        let n = self.frames.len();
        if n == 0 {
            self.base = ctx;
        } else {
            let mut top = self.frames.pop().unwrap();
            top.ctx = ctx;
            self.frames.push(top);
        }
        assert(self@ =~= before.update(
            before.len() - 1,
            FrameView { name: before.last().name, ctx: ctx@ },
        ));
    }

    /// Pushes a copy of the top frame, under `name`.
    pub fn push(&mut self, name: Option<String>)
        ensures
            final(self)@ == old(self)@.push(
                FrameView { name: name_view(name), ctx: old(self)@.last().ctx },
            ),
    {
        let ghost before = self@;
        let ctx = self.current().clone();
        self.frames.push(Frame { name, ctx });
        assert(self@ =~= before.push(FrameView { name: name_view(name), ctx: before.last().ctx }));
    }

    /// Removes the top frame and returns it; the base frame stays, and then
    /// nothing is returned.
    pub fn pop(&mut self) -> (r: Option<(Option<String>, SecurityContext)>)
        ensures
            old(self)@.len() > 1 ==> r is Some && name_view(r->Some_0.0) == old(self)@.last().name
                && r->Some_0.1@ == old(self)@.last().ctx && final(self)@ == old(self)@.drop_last(),
            old(self)@.len() <= 1 ==> r is None && final(self)@ == old(self)@,
    {
        let ghost before = self@;
        match self.frames.pop() {
            Some(f) => {
                assert(self@ =~= before.drop_last());
                Some((f.name, f.ctx))
            },
            None => {
                assert(self@ =~= before);
                None
            },
        }
    }

    /// Pushes a copy of the top frame, named `name`.
    pub fn push_named(&mut self, name: &str)
        ensures
            final(self)@ == old(self)@.push(
                FrameView { name: Some(name@), ctx: old(self)@.last().ctx },
            ),
    {
        self.push(Some(name.to_owned()));
    }

    /// Removes the topmost frame named `name` and returns its context; where
    /// no frame has that name, nothing changes and nothing is returned.
    pub fn pop_named(&mut self, name: &str) -> (r: Option<SecurityContext>)
        ensures
            match topmost_named(old(self)@, name@) {
                Some(pos) => r is Some && r->0@ == old(self)@[pos].ctx && final(self)@ == old(self)@.remove(pos) && 0 < pos < old(self)@.len(),
                None => r is None && final(self)@ == old(self)@,
            },
    {
        let ghost before = self@;
        let mut i: usize = self.frames.len();
        let mut found: Option<usize> = None;
        while i > 0 && found.is_none()
            invariant
                i <= self.frames@.len(),
                self@ == before,
                forall|j: int| i < j < before.len() ==> (#[trigger] before[j]).name != Some(name@),
                found is Some ==> found->0 == i && i > 0 && before[i as int].name == Some(name@),
            decreases i + (if found is None { 1int } else { 0int }),
        {
            let hit = match &self.frames[i - 1].name {
                Some(n) => str_eq(n.as_str(), name),
                None => false,
            };
            assert(before[i as int].name == name_view(self.frames@[i - 1].name));
            if hit {
                found = Some(i);
            } else {
                i -= 1;
            }
        }
        match found {
            Some(at) => {
                assert(before[at as int].ctx == self.frames@[at - 1].ctx@);
                let f = self.frames.remove(at - 1);
                proof {
                    assert(is_topmost_named(before, name@, at as int));
                    let pos = topmost_named(before, name@)->0;
                    assert(is_topmost_named(before, name@, pos));
                    if pos < at {
                        assert(before[at as int].name != Some(name@));
                    } else if pos > at {
                        assert(before[pos].name != Some(name@));
                    }
                    assert(pos == at);
                    assert(self@ =~= before.remove(at as int));
                }
                Some(f.ctx)
            },
            None => {
                proof {
                    assert(before[0].name is None);
                    assert(topmost_named(before, name@) is None) by {
                        if exists|x: int| is_topmost_named(before, name@, x) {
                            let x = choose|x: int| is_topmost_named(before, name@, x);
                            if x > 0 {
                                assert(before[x].name != Some(name@));
                            }
                        }
                    }
                }
                None
            },
        }
    }

    /// The context that decides access: the top frame's.
    pub fn effective(&self) -> (r: &SecurityContext)
        ensures
            r@ == self@.last().ctx,
    {
        self.current()
    }

    /// Replaces the whole stack with a fresh base frame.
    pub fn clear(&mut self)
        ensures
            final(self)@ == Self::fresh(),
    {
        self.frames.clear();
        self.base = SecurityContext::new();
        assert(self@ =~= Self::fresh());
    }
}

impl Default for ContextStack {
    fn default() -> (r: Self)
        ensures
            r@ == ContextStack::fresh(),
    {
        let r = ContextStack { base: SecurityContext::new(), frames: Vec::new() };
        assert(r@ =~= ContextStack::fresh());
        r
    }
}

impl Clone for ContextStack {
    fn clone(&self) -> (r: Self)
        ensures
            r@ == self@,
    {
        let mut frames: Vec<Frame> = Vec::new();
        let mut i: usize = 0;
        while i < self.frames.len()
            invariant
                i <= self.frames@.len(),
                frames@.len() == i,
                forall|j: int|
                    0 <= j < i ==> name_view((#[trigger] frames@[j]).name) == name_view(
                        self.frames@[j].name,
                    ) && frames@[j].ctx@ == self.frames@[j].ctx@,
            decreases self.frames@.len() - i,
        {
            frames.push(
                Frame { name: clone_name(&self.frames[i].name), ctx: self.frames[i].ctx.clone() },
            );
            i += 1;
        }
        let r = ContextStack { base: self.base.clone(), frames };
        assert(r@ =~= self@);
        r
    }
}

} // verus!
