//! The command design pattern: commands, and a stack of executed commands that
//! can be undone and redone.
use vstd::prelude::*;

verus! {

// Facts about sequences, proved for any item type; the stack's items are
// trait objects, for which they are applied explicitly.
proof fn lemma_push<A>(s: Seq<A>, a: A)
    ensures
        s.push(a).len() == s.len() + 1,
        forall|i: int| 0 <= i < s.len() ==> #[trigger] s.push(a)[i] == s[i],
{
}

proof fn lemma_extends_prefix<A>(longer: Seq<A>, shorter: Seq<A>)
    requires
        longer.len() == shorter.len() + 1,
        forall|j: int| 0 <= j < shorter.len() ==> #[trigger] longer[j] == shorter[j],
    ensures
        extends_by_one(shorter, longer),
{
    assert(longer =~= shorter.push(longer.last()));
}

proof fn lemma_prefix_len<A>(s: Seq<A>, n: int)
    requires
        0 <= n <= s.len(),
    ensures
        s.subrange(0, n).len() == n,
{
}

proof fn lemma_whole_prefix<A>(s: Seq<A>)
    ensures
        s.subrange(0, s.len() as int) == s,
{
    assert(s.subrange(0, s.len() as int) =~= s);
}

proof fn lemma_remove_first_len<A>(s: Seq<A>)
    requires
        s.len() > 0,
    ensures
        s.remove(0).len() == s.len() - 1,
{
}

proof fn lemma_update<A>(s: Seq<A>, i: int, a: A)
    requires
        0 <= i < s.len(),
    ensures
        s.update(i, a).len() == s.len(),
        forall|j: int| 0 <= j < s.len() && j != i ==> #[trigger] s.update(i, a)[j] == s[j],
{
}

/// A command to issue against a target.
pub trait Command<T = ()> {
    /// Action to perform.
    fn execute(&mut self, target: T);
}

/// A command that can be undone.
pub trait CommandUndo {
    /// Whether the command's action is in effect: `execute` puts it in effect
    /// and `undo` takes it back.
    spec fn is_done(&self) -> bool;

    /// Action to perform.
    fn execute(&mut self)
        ensures
            final(self).is_done(),
    ;

    /// Undo the action that was done.
    fn undo(&mut self)
        ensures
            !final(self).is_done(),
    ;
}

/// The commands that remain after `execute` clears those that could be
/// redone: the first `head` ones.
pub open spec fn after_truncate<C>(commands: Seq<C>, head: nat) -> Seq<C> {
    commands.subrange(0, head as int)
}

/// The commands that remain after `execute` makes room: when the stack is
/// full the oldest command is dropped.
pub open spec fn after_evict<C>(commands: Seq<C>, history_size: nat) -> Seq<C> {
    if commands.len() == history_size {
        commands.remove(0)
    } else {
        commands
    }
}

/// `longer` is `shorter` with one more item at the end.
pub open spec fn extends_by_one<C>(shorter: Seq<C>, longer: Seq<C>) -> bool {
    exists|c: C| longer == #[trigger] shorter.push(c)
}

/// The outcome of `undo` at `head`: whether a command was undone, and the
/// new head.
pub open spec fn undo_outcome(head: nat) -> (bool, nat) {
    if head == 0 {
        (false, 0)
    } else {
        (true, (head - 1) as nat)
    }
}

/// The outcome of `redo` at `head` with `len` commands stored: whether a
/// command was redone, and the new head.
pub open spec fn redo_outcome(head: nat, len: nat) -> (bool, nat) {
    if head == len {
        (false, head)
    } else {
        (true, head + 1)
    }
}

/// Stack of executed commands that can be undone and redone.
pub struct CommandStack {
    /// Commands that have been executed.
    commands: Vec<Box<dyn CommandUndo>>,
    /// Position of the next command to redo.
    head: usize,
    /// Maximum number of commands to store.
    history_size: usize,
}

impl CommandStack {
    /// The stored commands, oldest first.
    pub closed spec fn commands(&self) -> Seq<Box<dyn CommandUndo>> {
        self.commands@
    }

    /// The position of the next command to redo.
    pub closed spec fn head(&self) -> nat {
        self.head as nat
    }

    /// The maximum number of commands stored.
    pub closed spec fn history_size(&self) -> nat {
        self.history_size as nat
    }

    /// The head lies within the stored commands, and the stack never holds
    /// more than `history_size` commands.
    pub open spec fn wf(&self) -> bool {
        self.head() <= self.commands().len() <= self.history_size()
    }

    /// An empty stack that keeps up to `history_size` commands (50 when
    /// `None`).
    pub fn new(history_size: Option<usize>) -> (s: Self)
        ensures
            s.wf(),
            s.commands() == Seq::<Box<dyn CommandUndo>>::empty(),
            s.head() == 0,
            s.history_size() == match history_size {
                Some(n) => n as nat,
                None => 50,
            },
    {
        CommandStack { commands: Vec::new(), head: 0, history_size: history_size.unwrap_or(50) }
    }

    /// Executes `command` and pushes it on the stack.
    ///
    /// Commands that could be redone are cleared first; when the stack is
    /// full the oldest command is dropped. The executed command becomes the
    /// next one to undo. Always returns `true`.
    pub fn execute<T: CommandUndo + 'static>(&mut self, command: T) -> (done: bool)
        requires
            old(self).wf(),
            old(self).history_size() >= 1,
        ensures
            final(self).wf(),
            done,
            ({
                let kept = after_evict(
                    after_truncate(old(self).commands(), old(self).head()),
                    old(self).history_size(),
                );
                extends_by_one(kept, final(self).commands())
            }),
            final(self).commands().last().is_done(),
            final(self).head() == final(self).commands().len(),
            final(self).history_size() == old(self).history_size(),
    {
        proof {
            vstd::std_specs::vec::axiom_spec_len(&self.commands);
        }
        if self.head < self.commands.len() {
            self.commands.truncate(self.head);
        }
        proof {
            lemma_prefix_len(old(self).commands@, old(self).head as int);
            lemma_whole_prefix(old(self).commands@);
        }
        assert(self.commands@ == after_truncate(old(self).commands@, old(self).head as nat));
        let ghost truncated = self.commands@;
        proof {
            vstd::std_specs::vec::axiom_spec_len(&self.commands);
        }
        if self.commands.len() == self.history_size {
            proof {
                lemma_remove_first_len(self.commands@);
            }
            self.commands.remove(0);
        }
        assert(self.commands@ == after_evict(truncated, old(self).history_size as nat));
        let boxed: Box<dyn CommandUndo> = Box::new(command);
        let ghost kept = self.commands@;
        self.commands.push(boxed);
        proof {
            lemma_push(kept, boxed);
            vstd::std_specs::vec::axiom_spec_len(&self.commands);
        }
        let last: usize = self.commands.len() - 1;
        self.commands[last].execute();
        proof {
            lemma_extends_prefix(self.commands@, kept);
            vstd::std_specs::vec::axiom_spec_len(&self.commands);
        }
        self.head = self.commands.len();
        true
    }

    /// Undoes the last command that was executed or redone; `false` when
    /// there is none.
    pub fn undo(&mut self) -> (done: bool)
        requires
            old(self).wf(),
        ensures
            final(self).wf(),
            (done, final(self).head()) == undo_outcome(old(self).head()),
            final(self).history_size() == old(self).history_size(),
            final(self).commands().len() == old(self).commands().len(),
            done ==> !final(self).commands()[old(self).head() - 1].is_done(),
            forall|i: int|
                0 <= i < old(self).commands().len() && (!done || i != old(self).head() - 1)
                    ==> #[trigger] final(self).commands()[i] == old(self).commands()[i],
    {
        proof {
            vstd::std_specs::vec::axiom_spec_len(&self.commands);
        }
        if self.head == 0 {
            return false;
        }
        let ghost before = self.commands@;
        self.commands[self.head - 1].undo();
        proof {
            lemma_update(before, self.head - 1, self.commands@[self.head - 1]);
        }
        self.head = self.head - 1;
        true
    }

    /// Redoes the last command that was undone; `false` when there is none.
    pub fn redo(&mut self) -> (done: bool)
        requires
            old(self).wf(),
        ensures
            final(self).wf(),
            (done, final(self).head()) == redo_outcome(
                old(self).head(),
                old(self).commands().len(),
            ),
            final(self).history_size() == old(self).history_size(),
            final(self).commands().len() == old(self).commands().len(),
            done ==> final(self).commands()[old(self).head() as int].is_done(),
            forall|i: int|
                0 <= i < old(self).commands().len() && (!done || i != old(self).head())
                    ==> #[trigger] final(self).commands()[i] == old(self).commands()[i],
    {
        proof {
            vstd::std_specs::vec::axiom_spec_len(&self.commands);
        }
        if self.head == self.commands.len() {
            return false;
        }
        let ghost before = self.commands@;
        self.commands[self.head].execute();
        proof {
            lemma_update(before, self.head as int, self.commands@[self.head as int]);
        }
        self.head = self.head + 1;
        true
    }
}

/// Redo undoes an undo: from a head that has a command before it, `undo`
/// then `redo` both succeed and come back to the same head.
pub proof fn law_undo_then_redo(head: nat, len: nat)
    requires
        0 < head <= len,
    ensures
        undo_outcome(head).0,
        undo_outcome(head).1 <= len,
        redo_outcome(undo_outcome(head).1, len) == (true, head),
{
}

/// Undo undoes a redo: from a head with a command to redo, `redo` then
/// `undo` both succeed and come back to the same head.
pub proof fn law_redo_then_undo(head: nat, len: nat)
    requires
        head < len,
    ensures
        redo_outcome(head, len).0,
        redo_outcome(head, len).1 <= len,
        undo_outcome(redo_outcome(head, len).1) == (true, head),
{
}

/// After `execute` nothing can be redone, and `undo` succeeds, taking the
/// head back to the commands kept before the new one.
pub proof fn law_execute_then_undo<C>(commands: Seq<C>, head: nat, history_size: nat)
    requires
        head <= commands.len() <= history_size,
        history_size >= 1,
    ensures
        ({
            let kept = after_evict(after_truncate(commands, head), history_size);
            let new_len = kept.len() + 1;
            &&& new_len <= history_size
            &&& redo_outcome(new_len, new_len) == (false, new_len)
            &&& undo_outcome(new_len) == (true, kept.len())
            &&& kept.len() <= head
        }),
{
}

} // verus!
