//! Program effects and their partitioning.
//!
//! A program update step emits a list of effects.  Each effect is either a
//! deferred task — an asynchronous unit of work to be scheduled on the host
//! event loop, whose completion value re-enters as a message — or an
//! immediate action that is handed back to the caller untouched.  The
//! partition keeps submission order within each class.

use vstd::prelude::*;

verus! {

/// One effect emitted by a program update step.
#[derive(Clone, Copy, Debug)]
pub enum ProgramEffect<T, A> {
    /// A deferred task to hand to the host scheduler.
    Deferred(T),
    /// An immediate action to hand back to the caller.
    Immediate(A),
}

/// The deferred tasks of an effect list, in submission order.
pub open spec fn deferred_parts<T, A>(s: Seq<ProgramEffect<T, A>>) -> Seq<T>
    decreases s.len(),
{
    if s.len() == 0 {
        Seq::empty()
    } else {
        let rest = deferred_parts(s.drop_last());
        match s.last() {
            ProgramEffect::Deferred(t) => rest.push(t),
            ProgramEffect::Immediate(_) => rest,
        }
    }
}

/// The immediate actions of an effect list, in submission order.
pub open spec fn immediate_parts<T, A>(s: Seq<ProgramEffect<T, A>>) -> Seq<A>
    decreases s.len(),
{
    if s.len() == 0 {
        Seq::empty()
    } else {
        let rest = immediate_parts(s.drop_last());
        match s.last() {
            ProgramEffect::Deferred(_) => rest,
            ProgramEffect::Immediate(a) => rest.push(a),
        }
    }
}

/// Splits an effect list into its deferred tasks and its immediate actions,
/// each in submission order.
pub fn partition_effects<T, A>(effects: Vec<ProgramEffect<T, A>>) -> (r: (Vec<T>, Vec<A>))
    ensures
        r.0@ == deferred_parts(effects@),
        r.1@ == immediate_parts(effects@),
{
    let mut deferred: Vec<T> = Vec::new();
    let mut immediate: Vec<A> = Vec::new();
    let mut rest = effects;
    let ghost all = rest@;
    let mut i: usize = 0;
    let n = rest.len();
    while i < n
        invariant
            n == all.len(),
            rest@ == all.skip(i as int),
            i <= n,
            deferred@ == deferred_parts(all.take(i as int)),
            immediate@ == immediate_parts(all.take(i as int)),
        decreases n - i,
    {
        proof {
            assert(all.take(i + 1).drop_last() =~= all.take(i as int));
            assert(all.take(i + 1).last() == all[i as int]);
            assert(rest@[0] == all[i as int]);
        }
        let e = rest.remove(0);
        proof {
            assert(rest@ =~= all.skip(i + 1));
        }
        match e {
            ProgramEffect::Deferred(t) => deferred.push(t),
            ProgramEffect::Immediate(a) => immediate.push(a),
        }
        i = i + 1;
    }
    proof {
        assert(all.take(n as int) =~= all);
    }
    (deferred, immediate)
}

} // verus!
