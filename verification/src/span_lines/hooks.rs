//! Where records go, and what runs before the process exits.

use std::sync::Arc;

use vstd::prelude::*;

verus! {

/// Where records go.
///
/// Implementations must not panic and must not block indefinitely: a sink
/// is called when a span ends, so a panicking one panics during unwinding
/// and a blocking one stalls the thread being traced.
pub trait Sink: Send + Sync + 'static {
    /// Write one complete record. The bytes end in a single newline and are
    /// entirely ASCII.
    fn write(&self, record: &[u8]);
}

/// Something to run before the process exits.
///
/// `std::process::exit` runs no destructors, so a span waiting to be ended
/// is lost on exactly the paths worth recording. A hook must be
/// idempotent: flushing can happen more than once.
pub trait AtExit: Send + Sync + 'static {
    /// Finish outstanding work.
    fn flush(&self);
}

/// A registered hook, shared between the registry and its snapshots.
pub type Hook = Arc<dyn AtExit>;

/// The hooks to flush before exit, in registration order.
pub struct ExitHooks {
    hooks: Vec<Hook>,
}

impl ExitHooks {
    /// The registered hooks, oldest first.
    pub closed spec fn entries(&self) -> Seq<Hook> {
        self.hooks@
    }

    /// How many hooks are registered.
    pub open spec fn count(&self) -> nat {
        self.entries().len()
    }

    pub fn new() -> (h: ExitHooks)
        ensures
            h.count() == 0,
    {
        ExitHooks { hooks: Vec::new() }
    }

    /// Register something to flush before exit. There is no way to
    /// unregister.
    pub fn at_exit(&mut self, hook: Hook)
        ensures
            final(self).count() == old(self).count() + 1,
            final(self).entries().take(old(self).count() as int) == old(self).entries(),
            final(self).entries().last() == hook,
    {
        let mut one = Vec::new();
        one.push(hook);
        self.hooks.append(&mut one);
    }

    pub fn len(&self) -> (n: usize)
        ensures
            n == self.count(),
    {
        self.hooks.len()
    }

    /// The same hooks, sharing each one: what to run without holding
    /// whatever guards the registry, so a hook that registers another one
    /// cannot deadlock.
    pub fn snapshot(&self) -> (s: ExitHooks)
        ensures
            s.count() == self.count(),
            s.entries() == self.entries(),
    {
        let mut hooks = Vec::new();
        let mut i: usize = 0;
        while i < self.hooks.len()
            invariant
                i <= self.hooks@.len(),
                hooks@ == self.hooks@.take(i as int),
            decreases self.hooks@.len() - i,
        {
            let h = Arc::clone(&self.hooks[i]);
            let mut one = Vec::new();
            one.push(h);
            hooks.append(&mut one);
            i = i + 1;
            assert(hooks@ =~= self.hooks@.take(i as int));
        }
        assert(self.hooks@.take(i as int) =~= self.hooks@);
        ExitHooks { hooks }
    }

    /// The registered hooks in the order [`ExitHooks::flush`] runs them:
    /// most recently registered first.
    pub fn flush_order(&self) -> (v: Vec<Hook>)
        ensures
            v@ == self.entries().reverse(),
    {
        let mut v: Vec<Hook> = Vec::new();
        let mut i: usize = self.hooks.len();
        while i > 0
            invariant
                i <= self.hooks@.len(),
                v@.len() == self.hooks@.len() - i,
                forall|j: int| 0 <= j < v@.len() ==> #[trigger] v@[j] == self.hooks@[self.hooks@.len() - 1 - j],
            decreases i,
        {
            i = i - 1;
            let h = Arc::clone(&self.hooks[i]);
            let mut one = Vec::new();
            one.push(h);
            v.append(&mut one);
        }
        assert(v@ =~= self.entries().reverse());
        v
    }

    /// Run every registered hook once, most recently registered first
    /// ([`ExitHooks::flush_order`]).
    ///
    /// The registry is left as it is, so a later flush runs the same hooks
    /// again: the exit path stays armed however many times anything
    /// flushed before it.
    pub fn flush(&self) {
        let order = self.flush_order();
        let mut i: usize = 0;
        while i < order.len()
            invariant
                i <= order@.len(),
            decreases order@.len() - i,
        {
            order[i].flush();
            i = i + 1;
        }
    }
}

} // verus!
