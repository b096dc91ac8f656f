//! A stack of path components kept in sync with delegate callbacks.
//!
//! The stack owns a current path made of a fixed root plus a run of relative
//! components. Moving it to a new relative path pops the components that are
//! no longer shared, pushes the new ones, and tells a delegate about each
//! change so that it can mirror the traversal (create directories, check
//! entries, and so on). Components are byte strings, as paths are on disk.

use vstd::prelude::*;

verus! {

/// Reported by a delegate to abort [`Stack::make_relative_path_current`].
#[derive(Debug, PartialEq, Eq, Structural)]
pub struct StackError;

/// The stack of path components below a fixed root.
pub struct Stack {
    pub root: Vec<Vec<u8>>,
    pub current: Vec<Vec<u8>>,
    pub current_relative: Vec<Vec<u8>>,
    pub valid_components: usize,
}

/// Callbacks observing the stack as it moves from one relative path to the
/// next; implemented by the stack's users.
pub trait Delegate {
    /// Called once, before the first component is ever pushed.
    fn init(&mut self, stack: &Stack) -> Result<(), StackError>;

    /// Called before a further component is pushed onto one pushed earlier in
    /// the same move.
    fn push_directory(&mut self, stack: &Stack) -> Result<(), StackError>;

    /// Called after each component is pushed; `is_last_component` marks the
    /// final component of the requested path.
    fn push(&mut self, is_last_component: bool, stack: &Stack) -> Result<(), StackError>;

    /// Called when a previously shared directory component is left behind.
    fn pop_directory(&mut self);
}

impl Stack {
    /// What construction establishes and every move preserves: the current
    /// path is the root followed by the current relative components, and the
    /// component counter matches.
    pub open spec fn wf(self) -> bool {
        &&& self.current@.len() == self.root@.len() + self.current_relative@.len()
        &&& forall|i: int|
            0 <= i < self.root@.len() ==> (#[trigger] self.current@[i])@ == self.root@[i]@
        &&& forall|i: int|
            0 <= i < self.current_relative@.len() ==> (#[trigger] self.current@[self.root@.len()
                + i])@ == self.current_relative@[i]@
        &&& self.valid_components as int == self.current_relative@.len()
    }

    /// Whether `relative` is a leading part of the stack's relative path
    /// while at least one component stands: moving there pushes nothing, so
    /// only `pop_directory` - which cannot fail - is ever reached.
    pub open spec fn has_prefix(self, relative: Seq<Vec<u8>>) -> bool {
        &&& self.valid_components > 0
        &&& relative.len() <= self.current_relative@.len()
        &&& forall|i: int|
            0 <= i < relative.len() ==> (#[trigger] self.current_relative@[i])@ == relative[i]@
    }

    /// The base that all relative paths are resolved against.
    pub fn root(&self) -> (r: &Vec<Vec<u8>>)
        ensures
            r == self.root,
    {
        &self.root
    }

    /// The full current path: root plus relative components.
    pub fn current(&self) -> (r: &Vec<Vec<u8>>)
        ensures
            r == self.current,
    {
        &self.current
    }

    /// The current path relative to the root.
    pub fn current_relative(&self) -> (r: &Vec<Vec<u8>>)
        ensures
            r == self.current_relative,
    {
        &self.current_relative
    }

    /// Creates a stack whose current path is the given root and whose
    /// relative path is empty.
    pub fn new(root: Vec<Vec<u8>>) -> (s: Stack)
        ensures
            s.wf(),
            s.root@ == root@,
            s.current@.len() == root@.len(),
            forall|i: int| 0 <= i < root@.len() ==> (#[trigger] s.current@[i])@ == root@[i]@,
            s.current_relative@.len() == 0,
            s.valid_components == 0,
    {
        let current = clone_components(&root);
        Stack { current, current_relative: Vec::new(), valid_components: 0, root }
    }

    /// Moves the stack to `relative`, popping the trailing components that
    /// the old and new relative paths do not share and pushing the new ones,
    /// with the delegate told of every change. On success the relative path
    /// is exactly `relative`; when the delegate aborts, the stack is left
    /// well-formed on some leading part of `relative` (the component whose
    /// push failed having been rolled back). A move that only shortens the
    /// path cannot fail, and a move to the already-current path changes
    /// nothing and calls no delegate method.
    pub fn make_relative_path_current<D: Delegate>(
        &mut self,
        relative: &Vec<Vec<u8>>,
        delegate: &mut D,
    ) -> (r: Result<(), StackError>)
        requires
            old(self).wf(),
        ensures
            final(self).wf(),
            final(self).root@ == old(self).root@,
            r matches Ok(()) ==> final(self).current_relative@.len() == relative@.len(),
            r matches Err(_) ==> final(self).current_relative@.len() <= relative@.len(),
            forall|i: int|
                0 <= i < final(self).current_relative@.len()
                    ==> (#[trigger] final(self).current_relative@[i])@ == relative@[i]@,
            old(self).has_prefix(relative@) ==> r matches Ok(()),
            (old(self).has_prefix(relative@) && relative@.len()
                == old(self).current_relative@.len())
                ==> (*final(self) == *old(self) && *final(delegate) == *old(delegate)),
    {
        if self.valid_components == 0 {
            if let Err(e) = delegate.init(&*self) {
                return Err(e);
            }
        }
        let mut matching: usize = 0;
        while matching < self.current_relative.len() && matching < relative.len() && crate::bytes::bytes_eq(
            &self.current_relative[matching],
            &relative[matching],
        )
            invariant
                matching <= self.current_relative@.len(),
                matching <= relative@.len(),
                forall|i: int|
                    0 <= i < matching ==> (#[trigger] self.current_relative@[i])@
                        == relative@[i]@,
            decreases self.current_relative@.len() - matching,
        {
            matching = matching + 1;
        }
        proof {
            if old(self).has_prefix(relative@) {
                assert(matching == relative@.len());
            }
        }
        let to_pop = self.valid_components - matching;
        let mut popped: usize = 0;
        while popped < to_pop
            invariant
                popped <= to_pop,
                to_pop - popped <= self.valid_components,
                self.wf(),
                self.root@ == old(self).root@,
                self.current_relative@.len() == old(self).current_relative@.len() - popped,
                matching <= self.current_relative@.len(),
                forall|i: int|
                    0 <= i < self.current_relative@.len() ==> (#[trigger] self.current_relative@[
                        i])@ == old(self).current_relative@[i]@,
                forall|i: int|
                    0 <= i < matching ==> (#[trigger] self.current_relative@[i])@
                        == relative@[i]@,
                to_pop == 0 ==> *self == *old(self),
                (to_pop == 0 && old(self).valid_components > 0) ==> *delegate == *old(delegate),
            decreases to_pop - popped,
        {
            self.current.pop();
            self.current_relative.pop();
            self.valid_components = self.valid_components - 1;
            if popped > 0 {
                delegate.pop_directory();
            }
            popped = popped + 1;
        }
        let mut idx: usize = matching;
        while idx < relative.len()
            invariant
                matching <= idx <= relative@.len(),
                self.wf(),
                self.root@ == old(self).root@,
                self.current_relative@.len() == idx,
                forall|i: int|
                    0 <= i < idx ==> (#[trigger] self.current_relative@[i])@ == relative@[i]@,
                (to_pop == 0 && old(self).valid_components > 0 && matching == relative@.len())
                    ==> (*self == *old(self) && *delegate == *old(delegate)),
            decreases relative@.len() - idx,
        {
            if idx > matching {
                if let Err(e) = delegate.push_directory(&*self) {
                    return Err(e);
                }
            }
            let comp = crate::bytes::clone_bytes(&relative[idx]);
            self.current.push(crate::bytes::clone_bytes(&comp));
            self.current_relative.push(comp);
            self.valid_components = self.valid_components + 1;
            let is_last = idx + 1 == relative.len();
            let res = delegate.push(is_last, &*self);
            idx = idx + 1;
            if let Err(e) = res {
                self.current.pop();
                self.current_relative.pop();
                self.valid_components = self.valid_components - 1;
                return Err(e);
            }
        }
        Ok(())
    }
}

/// Copies a list of path components.
fn clone_components(v: &Vec<Vec<u8>>) -> (r: Vec<Vec<u8>>)
    ensures
        r@.len() == v@.len(),
        forall|i: int| 0 <= i < v@.len() ==> (#[trigger] r@[i])@ == v@[i]@,
{
    let mut r: Vec<Vec<u8>> = Vec::new();
    let mut i: usize = 0;
    while i < v.len()
        invariant
            i <= v@.len(),
            r@.len() == i,
            forall|j: int| 0 <= j < i ==> (#[trigger] r@[j])@ == v@[j]@,
        decreases v@.len() - i,
    {
        r.push(crate::bytes::clone_bytes(&v[i]));
        i = i + 1;
    }
    r
}

} // verus!
