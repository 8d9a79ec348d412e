//! Actions bound to triggers, and the dispatcher that runs them.

use vstd::prelude::*;

verus! {

/// Why an action failed.
#[derive(PartialEq, Eq, Debug, Clone)]
pub struct ActionError(pub String);

impl ActionError {
    /// The message shown when the action fails.
    pub fn message(&self) -> (r: String)
        ensures
            r@ == self.0@,
    {
        self.0.clone()
    }
}

/// Something a fired trigger does.
pub trait Action {
    fn execute(&mut self) -> Result<(), ActionError>;
}

/// An action in the dispatcher's table, with a count of the times it ran.
pub struct ActionSlot<A: Action> {
    action: A,
    runs: Ghost<nat>,
}

impl<A: Action> ActionSlot<A> {
    /// How many times the action has been run from this slot.
    pub closed spec fn runs(&self) -> nat {
        self.runs@
    }

    pub closed spec fn action_view(&self) -> A {
        self.action
    }

    /// The action held.
    pub fn action(&self) -> (r: &A)
        ensures
            *r == self.action_view(),
    {
        &self.action
    }

    /// A slot whose action has not run yet.
    pub fn new(action: A) -> (r: ActionSlot<A>)
        ensures
            r.runs() == 0,
            r.action_view() == action,
    {
        ActionSlot { action, runs: Ghost(0) }
    }

    /// Runs the action once.
    pub fn execute(&mut self) -> (r: Result<(), ActionError>)
        ensures
            final(self).runs() == old(self).runs() + 1,
    {
        let r = self.action.execute();
        self.runs = Ghost(self.runs@ + 1);
        r
    }
}

/// Runs an external program with arguments.
#[derive(PartialEq, Eq, Debug, Clone)]
pub struct CommandAction {
    pub path: String,
    pub args: Vec<String>,
}

/// Runs a command line through the shell.
#[derive(PartialEq, Eq, Debug, Clone)]
pub struct ShellCommandAction {
    pub command: String,
}

pub open spec fn views(v: Seq<String>) -> Seq<Seq<char>> {
    v.map_values(|s: String| s@)
}

impl CommandAction {
    /// The argument vector to run: the program, then its arguments.
    pub fn argv(&self) -> (r: Vec<String>)
        ensures
            views(r@) == seq![self.path@] + views(self.args@),
    {
        let mut r: Vec<String> = Vec::new();
        r.push(self.path.clone());
        let mut i: usize = 0;
        while i < self.args.len()
            invariant
                0 <= i <= self.args@.len(),
                views(r@) =~= seq![self.path@] + views(self.args@.subrange(0, i as int)),
            decreases self.args@.len() - i,
        {
            let ghost before = r@;
            r.push(self.args[i].clone());
            assert(views(r@) =~= views(before).push(self.args@[i as int]@));
            assert(self.args@.subrange(0, i + 1) =~= self.args@.subrange(0, i as int).push(
                self.args@[i as int],
            ));
            i += 1;
        }
        assert(self.args@.subrange(0, self.args@.len() as int) =~= self.args@);
        r
    }
}

impl ShellCommandAction {
    /// The argument vector to run: the shell, `-c`, and the command line.
    pub fn argv(&self) -> (r: Vec<String>)
        ensures
            views(r@) == seq!["/bin/sh"@, "-c"@, self.command@],
    {
        let mut r: Vec<String> = Vec::new();
        r.push("/bin/sh".to_owned());
        r.push("-c".to_owned());
        r.push(self.command.clone());
        assert(views(r@) =~= seq!["/bin/sh"@, "-c"@, self.command@]);
        r
    }
}

/// The indices of the failures.
pub open spec fn failed_indices(r: Seq<(usize, ActionError)>) -> Seq<usize> {
    r.map_values(|e: (usize, ActionError)| e.0)
}

/// How many times `j` occurs among the first `n` fired indices.
pub open spec fn count_upto(fired: Seq<usize>, j: int, n: int) -> nat {
    fired.take(n).filter(equal_to(j)).len()
}

/// The test for one index.
pub open spec fn equal_to(j: int) -> spec_fn(usize) -> bool {
    |x: usize| x == j as usize
}

/// The failures came from the fired indices, in the order these were run:
/// `at[k]` is the place in `fired` of the `k`-th failure.
pub open spec fn failures_in_order(fired: Seq<usize>, failed: Seq<usize>, at: Seq<int>) -> bool {
    &&& at.len() == failed.len()
    &&& forall|k: int| 0 <= k < at.len() ==> 0 <= #[trigger] at[k] < fired.len() && fired[at[k]] == failed[k]
    &&& forall|a: int, b: int| 0 <= a < b < at.len() ==> at[a] < at[b]
}

/// Runs the action of each fired index, in order, once per occurrence. A
/// failing action does not stop the others; the failures come back with
/// their indices, in the order they happened.
pub fn consume_events<A: Action>(fired: &Vec<usize>, actions: &mut Vec<ActionSlot<A>>) -> (r: Vec<
    (usize, ActionError),
>)
    requires
        forall|k: int| 0 <= k < fired@.len() ==> fired@[k] < old(actions)@.len(),
    ensures
        final(actions)@.len() == old(actions)@.len(),
        forall|j: int|
            0 <= j < old(actions)@.len() ==> #[trigger] final(actions)@[j].runs() == old(
                actions,
            )@[j].runs() + fired@.filter(equal_to(j)).len(),
        r@.len() <= fired@.len(),
        exists|at: Seq<int>|
            #[trigger] failures_in_order(fired@, failed_indices(r@), at),
{
    let mut errors: Vec<(usize, ActionError)> = Vec::new();
    let ghost mut at: Seq<int> = Seq::empty();
    let n_actions = actions.len();
    let mut k: usize = 0;
    while k < fired.len()
        invariant
            0 <= k <= fired@.len(),
            actions@.len() == old(actions)@.len(),
            actions@.len() == n_actions,
            forall|j: int| 0 <= j < fired@.len() ==> fired@[j] < old(actions)@.len(),
            forall|j: int|
                0 <= j < actions@.len() ==> #[trigger] actions@[j].runs() == old(actions)@[j].runs()
                    + count_upto(fired@, j, k as int),
            errors@.len() <= k,
            failures_in_order(fired@, failed_indices(errors@), at),
            forall|a: int| 0 <= a < at.len() ==> at[a] < k,
        decreases fired@.len() - k,
    {
        let index = fired[k];
        let ghost before = actions@;
        let ghost errors_before = errors@;
        let res = actions[index].execute();
        proof {
            assert forall|j: int| 0 <= j < actions@.len() implies #[trigger] actions@[j].runs()
                == old(actions)@[j].runs() + count_upto(fired@, j, k + 1) by {
                let t = fired@.take(k as int);
                assert(fired@.take(k + 1) =~= t.push(index));
                t.lemma_filter_push(index, equal_to(j));
                assert(before[j].runs() == old(actions)@[j].runs() + count_upto(fired@, j, k as int));
                if j != index {
                    assert(actions@[j] == before[j]);
                    assert(!equal_to(j)(index));
                    assert(count_upto(fired@, j, k + 1) == count_upto(fired@, j, k as int));
                } else {
                    assert(equal_to(j)(index));
                    assert(count_upto(fired@, j, k + 1) == count_upto(fired@, j, k as int) + 1);
                }
            }
        }
        match res {
            Ok(()) => {},
            Err(e) => {
                errors.push((index, e));
                proof {
                    at = at.push(k as int);
                    assert(failed_indices(errors@) =~= failed_indices(errors_before).push(index));
                }
            },
        }
        k += 1;
    }
    assert(fired@.take(fired@.len() as int) =~= fired@);
    errors
}

/// One step of a synthetic key action; the argument is a position in the
/// action's modifiers (press, release) or key sequence (click).
#[derive(PartialEq, Eq, Structural, Debug, Clone, Copy)]
pub enum KeyOp {
    Press(usize),
    Click(usize),
    Release(usize),
    Sync,
}

/// Press every modifier, click every key, release the modifiers in reverse,
/// then synchronize the device.
pub open spec fn key_ops_of(modifiers: nat, keys: nat) -> Seq<KeyOp> {
    Seq::new(modifiers, |i: int| KeyOp::Press(i as usize)) + Seq::new(
        keys,
        |i: int| KeyOp::Click(i as usize),
    ) + Seq::new(modifiers, |i: int| KeyOp::Release((modifiers - 1 - i) as usize)) + seq![
        KeyOp::Sync,
    ]
}

/// The steps of a synthetic key action with `modifiers` modifier keys and
/// `keys` keys to click.
pub fn key_ops(modifiers: usize, keys: usize) -> (r: Vec<KeyOp>)
    requires
        2 * modifiers + keys < usize::MAX,
    ensures
        r@ == key_ops_of(modifiers as nat, keys as nat),
{
    let mut r: Vec<KeyOp> = Vec::new();
    let mut i: usize = 0;
    while i < modifiers
        invariant
            0 <= i <= modifiers,
            r@ =~= Seq::new(i as nat, |j: int| KeyOp::Press(j as usize)),
        decreases modifiers - i,
    {
        r.push(KeyOp::Press(i));
        i += 1;
    }
    let ghost presses = r@;
    let mut j: usize = 0;
    while j < keys
        invariant
            0 <= j <= keys,
            presses == Seq::new(modifiers as nat, |j: int| KeyOp::Press(j as usize)),
            r@ =~= presses + Seq::new(j as nat, |k: int| KeyOp::Click(k as usize)),
        decreases keys - j,
    {
        r.push(KeyOp::Click(j));
        j += 1;
    }
    let ghost clicks = r@;
    let mut k: usize = modifiers;
    while k > 0
        invariant
            0 <= k <= modifiers,
            clicks == Seq::new(modifiers as nat, |j: int| KeyOp::Press(j as usize)) + Seq::new(
                keys as nat,
                |k: int| KeyOp::Click(k as usize),
            ),
            r@ =~= clicks + Seq::new(
                (modifiers - k) as nat,
                |i: int| KeyOp::Release((modifiers - 1 - i) as usize),
            ),
        decreases k,
    {
        k -= 1;
        r.push(KeyOp::Release(k));
    }
    r.push(KeyOp::Sync);
    assert(r@ =~= key_ops_of(modifiers as nat, keys as nat));
    r
}

} // verus!
