//! Command invokers: generic append-then-replay queues bound to one
//! mutable target, decoupling input capture from state mutation order.

use vstd::prelude::*;

verus! {

/// The category of world entity a command addresses.
#[derive(Clone, Copy, PartialEq, Eq, Structural, Debug)]
pub enum Level {
    Avator,
    World,
    System,
}

/// A command replayable against a target of type `T`.  The relation
/// `applies` is the command's whole meaning: it must pin down the state
/// after the command, and `execute` must realise exactly it.
pub trait Command<T>: Sized {
    /// `post` is the target state after this command runs on `pre`.
    spec fn applies(&self, pre: T, post: T) -> bool;

    /// The category this command belongs to.
    spec fn spec_level(&self) -> Level;

    /// Reports the command's category.
    fn get_level(&self) -> (l: Level)
        ensures
            l == self.spec_level(),
    ;

    /// Runs the command against the target.
    fn execute(&self, t: &mut T)
        ensures
            self.applies(*old(t), *final(t)),
    ;
}

/// `states` is the exact trace of replaying `cmds` first to last:
/// one state per step, each command applied once, in queue order.
pub open spec fn chain_ok<Cmd: Command<T>, T>(cmds: Seq<Cmd>, states: Seq<T>) -> bool {
    &&& states.len() == cmds.len() + 1
    &&& forall|i: int|
        0 <= i < cmds.len() ==> (#[trigger] cmds[i]).applies(states[i], states[i + 1])
}

/// Replaying `[a, b]` applies `a` first and `b` second, each exactly
/// once, through a single intermediate state.
pub proof fn lemma_chain_pair<Cmd: Command<T>, T>(a: Cmd, b: Cmd, states: Seq<T>)
    requires
        chain_ok(seq![a, b], states),
    ensures
        states.len() == 3,
        a.applies(states[0], states[1]),
        b.applies(states[1], states[2]),
{
    assert(seq![a, b][0].applies(states[0], states[1]));
    assert(seq![a, b][1].applies(states[1], states[2]));
}

/// Replaying an empty queue leaves the target untouched.
pub proof fn lemma_chain_empty<Cmd: Command<T>, T>(states: Seq<T>)
    requires
        chain_ok(Seq::<Cmd>::empty(), states),
    ensures
        states.len() == 1,
        states.last() == states[0],
{
}

/// An append-then-replay command queue bound to one target.
pub struct Invoker<Cmd, T> {
    /// Queued commands, oldest first.
    pub commands: Vec<Cmd>,
    /// The entity the commands mutate.
    pub target: T,
    /// First queued command not yet applied.
    pub current_index: usize,
}

impl<Cmd, T> Invoker<Cmd, T> {
    /// A fresh invoker with an empty queue around `t`.
    pub fn new(t: T) -> (r: Invoker<Cmd, T>)
        ensures
            r.commands@.len() == 0,
            r.target == t,
            r.current_index == 0,
    {
        Invoker { commands: Vec::new(), target: t, current_index: 0 }
    }
}

impl<Cmd: Command<T>, T> Invoker<Cmd, T> {
    /// Enqueues a command; the target is untouched.
    pub fn append_command(&mut self, c: Cmd)
        ensures
            final(self).commands@ == old(self).commands@.push(c),
            final(self).target == old(self).target,
            final(self).current_index == old(self).current_index,
    {
        self.commands.push(c);
    }

    /// Applies the command at the cursor, if any remains, and advances
    /// the cursor; past the end of the queue this does nothing.
    pub fn execute_command(&mut self)
        ensures
            old(self).current_index < old(self).commands@.len() ==> {
                &&& old(self).commands@[old(self).current_index as int].applies(
                    old(self).target,
                    final(self).target,
                )
                &&& final(self).current_index == old(self).current_index + 1
                &&& final(self).commands@ == old(self).commands@
            },
            old(self).current_index >= old(self).commands@.len() ==> {
                &&& final(self).target == old(self).target
                &&& final(self).current_index == old(self).current_index
                &&& final(self).commands@ == old(self).commands@
            },
    {
        if self.commands.len() <= self.current_index {
            return;
        }
        let c = &self.commands[self.current_index];
        c.execute(&mut self.target);
        self.current_index = self.current_index + 1;
    }

    /// Replays every not-yet-applied command in FIFO order, then clears
    /// the queue and resets the cursor.  The trace of states visited
    /// starts at the old target and ends at the new one.
    pub fn execute_all_commands(&mut self)
        ensures
            old(self).current_index <= old(self).commands@.len() ==> exists|states: Seq<T>|
                {
                    &&& #[trigger] chain_ok(
                        old(self).commands@.skip(old(self).current_index as int),
                        states,
                    )
                    &&& states[0] == old(self).target
                    &&& states.last() == final(self).target
                },
            old(self).current_index > old(self).commands@.len() ==> final(self).target == old(
                self,
            ).target,
            final(self).commands@.len() == 0,
            final(self).current_index == 0,
    {
        let ghost cmds0: Seq<Cmd> = self.commands@;
        let ghost i0: int = self.current_index as int;
        let ghost t0: T = self.target;
        let ghost mut states: Seq<T> = seq![t0];
        while self.current_index < self.commands.len()
            invariant
                self.commands@ == cmds0,
                0 <= i0 <= self.current_index as int,
                i0 <= cmds0.len() ==> {
                    &&& self.current_index as int <= cmds0.len()
                    &&& states.len() == self.current_index as int - i0 + 1
                    &&& states[0] == t0
                    &&& states.last() == self.target
                    &&& forall|k: int|
                        0 <= k < states.len() - 1 ==> (#[trigger] cmds0[i0 + k]).applies(
                            states[k],
                            states[k + 1],
                        )
                },
                i0 > cmds0.len() ==> self.current_index as int == i0 && self.target == t0,
            decreases self.commands@.len() - self.current_index,
        {
            self.execute_command();
            proof {
                states = states.push(self.target);
            }
        }
        proof {
            if i0 <= cmds0.len() {
                let tail = cmds0.skip(i0);
                assert forall|k: int| 0 <= k < tail.len() implies (#[trigger] tail[k]).applies(
                    states[k],
                    states[k + 1],
                ) by {
                    assert(cmds0[i0 + k].applies(states[k], states[k + 1]));
                }
                assert(chain_ok(tail, states));
            }
        }
        self.commands.clear();
        self.current_index = 0;
    }
}

} // verus!
