//! The example contract the tool documents its `missing-require-auth` finding with: a
//! counter that anyone may bump. Its environment is modelled by the one storage entry the
//! method reads and writes.
use vstd::prelude::*;

verus! {

/// The contract's instance storage: the counter entry, absent until first written.
pub struct Env {
    counter: Option<u32>,
}

impl Env {
    /// The stored counter, if any.
    pub closed spec fn stored(&self) -> Option<u32> {
        self.counter
    }

    /// An environment whose storage holds no counter.
    pub fn new() -> (r: Env)
        ensures
            r.stored() is None,
    {
        Env { counter: None }
    }

    /// An environment whose storage holds `value`.
    pub fn with_counter(value: u32) -> (r: Env)
        ensures
            r.stored() == Some(value),
    {
        Env { counter: Some(value) }
    }

    /// Reads the counter entry.
    pub fn get(&self) -> (r: Option<u32>)
        ensures
            r == self.stored(),
    {
        self.counter
    }
}

/// A contract whose method mutates storage with no authorization check.
pub struct VulnerableContract;

impl VulnerableContract {
    /// Reads the counter (absent reads as 0), adds one and stores it. The addition would
    /// overflow at `u32::MAX`, which the contract does not handle.
    pub fn bump(env: &mut Env)
        requires
            match old(env).stored() {
                Some(n) => n < u32::MAX,
                None => true,
            },
        ensures
            final(env).stored() == Some(
                (match old(env).stored() {
                    Some(n) => n + 1,
                    None => 1,
                }) as u32,
            ),
    {
        let mut n: u32 = match env.get() {
            Some(v) => v,
            None => 0,
        };
        n += 1;
        env.counter = Some(n);
    }
}

} // verus!
