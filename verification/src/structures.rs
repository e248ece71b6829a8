//! Shared types of the command framework: command results, command
//! descriptions, and the registry that finds a command by its name.

use vstd::prelude::*;
use vstd::string::StringExecFns;
use vstd::pervasive::VecAdditionalExecFns;

verus! {

/// Why a command did not run to its end.
#[derive(Debug, Clone, Copy, PartialEq, Eq, Structural)]
pub enum CommandFailed {
    CHECK,
    EXECUTE,
}

/// A permission check refused the sender.
#[derive(Debug, Clone, Copy, PartialEq, Eq, Structural)]
pub struct CheckFailed;

/// What a command reports back.
pub type CommandResult = Result<(), CommandFailed>;

/// What a permission check reports back.
pub type CheckResult = Result<(), CheckFailed>;

/// A registered command: the action `fun` that runs it, its name and a
/// human-readable description.
#[derive(Debug, Clone)]
pub struct CommandStruct<F> {
    pub fun: F,
    pub name: String,
    pub description: String,
}

/// Two commands that carry the same action, name and description.
pub open spec fn same_command<F>(a: CommandStruct<F>, b: CommandStruct<F>) -> bool {
    &&& a.fun == b.fun
    &&& a.name@ == b.name@
    &&& a.description@ == b.description@
}

impl<F> CommandStruct<F> {
    /// Rebuilds a list of commands, keeping each command's action, name and
    /// description, in the same order.
    pub fn new_vec(commands: Vec<CommandStruct<F>>) -> (com: Vec<Self>)
        ensures
            com.len() == commands.len(),
            forall|i: int| 0 <= i < com.len() ==> same_command(#[trigger] com[i], commands[i]),
    {
        let ghost original = commands@;
        let mut rest = commands;
        let mut com: Vec<CommandStruct<F>> = Vec::new();
        while rest.len() > 0
            invariant
                com.len() + rest.len() == original.len(),
                rest@ == original.skip(com.len() as int),
                forall|i: int| 0 <= i < com.len() ==> same_command(#[trigger] com[i], original[i]),
            decreases rest.len(),
        {
            let c = rest.remove(0);
            let name = String::from_str(c.name.as_str());
            let description = String::from_str(c.description.as_str());
            com.push(CommandStruct { fun: c.fun, name, description });
            assert(rest@ == original.skip(com.len() as int));
        }
        com
    }
}

/// A group of commands with a description of the group.
pub struct GroupStruct<F> {
    pub commands: Handler<F>,
    pub description: String,
}

/// The command registry: command names mapped to their commands, and the
/// size that the group was declared with.
pub struct Handler<F> {
    command_list: Vec<(String, CommandStruct<F>)>,
    max_command_size: usize,
}

/// The position of `name` among the entries.
pub open spec fn entry_index<F>(entries: Seq<(String, CommandStruct<F>)>, name: Seq<char>) -> int {
    choose|i: int| 0 <= i < entries.len() && entries[i].0@ == name
}

/// The names of the entries, each mapped to its command.
pub open spec fn entries_map<F>(entries: Seq<(String, CommandStruct<F>)>) -> Map<
    Seq<char>,
    CommandStruct<F>,
> {
    Map::new(
        |name: Seq<char>| exists|i: int| 0 <= i < entries.len() && entries[i].0@ == name,
        |name: Seq<char>| entries[entry_index(entries, name)].1,
    )
}

/// No name occurs twice among the entries.
pub open spec fn distinct_names<F>(entries: Seq<(String, CommandStruct<F>)>) -> bool {
    forall|i: int, j: int|
        0 <= i < entries.len() && 0 <= j < entries.len() && i != j ==> entries[i].0@
            != entries[j].0@
}

impl<F> Handler<F> {
    /// Each name is registered once.
    pub closed spec fn wf(&self) -> bool {
        distinct_names(self.command_list@)
    }

    /// The registered commands, by name.
    pub closed spec fn commands(&self) -> Map<Seq<char>, CommandStruct<F>> {
        entries_map(self.command_list@)
    }

    /// The size the registry was made with.
    pub closed spec fn size(&self) -> usize {
        self.max_command_size
    }

    /// An empty registry made with the given size.
    pub fn new(max_command_size: usize) -> (h: Self)
        ensures
            h.wf(),
            h.commands() == Map::<Seq<char>, CommandStruct<F>>::empty(),
            h.size() == max_command_size,
    {
        let h = Handler { command_list: Vec::new(), max_command_size };
        assert(h.commands() =~= Map::<Seq<char>, CommandStruct<F>>::empty());
        h
    }

    /// Registers `command` under `name`; a command already registered under
    /// that name is replaced.
    pub fn insert(&mut self, name: String, command: CommandStruct<F>)
        requires
            old(self).wf(),
        ensures
            final(self).wf(),
            final(self).commands() == old(self).commands().insert(name@, command),
            final(self).size() == old(self).size(),
    {
        let ghost before = self.command_list@;
        let n = self.command_list.len();
        let mut i: usize = 0;
        while i < n
            invariant
                n == self.command_list.len(),
                self.command_list@ == before,
                old(self).command_list@ == before,
                self.max_command_size == old(self).max_command_size,
                distinct_names(before),
                i <= n,
                forall|j: int| 0 <= j < i ==> before[j].0@ != name@,
            decreases n - i,
        {
            if self.command_list[i].0 == name {
                let ghost key = name@;
                self.command_list.set(i, (name, command));
                let ghost after = self.command_list@;
                assert(distinct_names(after));
                assert forall|j: int| 0 <= j < after.len() && after[j].0@ == key implies j
                    == i by {
                    if j != i {
                        assert(before[j].0@ == before[i as int].0@);
                    }
                }
                assert forall|k: Seq<char>|
                    #[trigger] entries_map(before).dom().contains(k) implies entries_map(
                    after,
                ).dom().contains(k) by {
                    let j = choose|j: int| 0 <= j < before.len() && before[j].0@ == k;
                    assert(after[j].0@ == k);
                }
                assert forall|k: Seq<char>|
                    #[trigger] entries_map(before).dom().contains(k) && k != key implies
                    entries_map(after)[k] == entries_map(before)[k] by {
                    let j = entry_index(before, k);
                    assert(after[j].0@ == k);
                    let j2 = entry_index(after, k);
                    assert(before[j2].0@ == k);
                }
                assert(entries_map(after)[key] == command) by {
                    assert(after[i as int].0@ == key);
                }
                assert(entries_map(after) =~= entries_map(before).insert(key, command));
                return;
            }
            i = i + 1;
        }
        let ghost key = name@;
        self.command_list.push((name, command));
        let ghost after = self.command_list@;
        assert forall|j: int| 0 <= j < after.len() && after[j].0@ == key implies j == n by {}
        assert forall|k: Seq<char>|
            #[trigger] entries_map(before).dom().contains(k) implies entries_map(
            after,
        ).dom().contains(k) by {
            let j = choose|j: int| 0 <= j < before.len() && before[j].0@ == k;
            assert(after[j].0@ == k);
        }
        assert forall|k: Seq<char>|
            #[trigger] entries_map(before).dom().contains(k) && k != key implies entries_map(
            after,
        )[k] == entries_map(before)[k] by {
            let j = entry_index(before, k);
            assert(after[j].0@ == k);
            let j2 = entry_index(after, k);
            assert(before[j2].0@ == k);
        }
        assert(entries_map(after).dom().contains(key) && entries_map(after)[key] == command) by {
            assert(after[n as int].0@ == key);
        }
        assert forall|k: Seq<char>| #[trigger]
            entries_map(after).dom().contains(k) && k != key implies entries_map(
            before,
        ).dom().contains(k) by {
            let j = choose|j: int| 0 <= j < after.len() && after[j].0@ == k;
            assert(before[j].0@ == k);
        }
        assert(entries_map(after) =~= entries_map(before).insert(key, command));
    }

    /// The command registered under `name`, if any.
    pub fn get_command(&self, name: &str) -> (r: Option<&CommandStruct<F>>)
        requires
            self.wf(),
        ensures
            r is Some <==> self.commands().dom().contains(name@),
            r matches Some(c) ==> *c == self.commands()[name@],
    {
        let key = String::from_str(name);
        let n = self.command_list.len();
        let mut i: usize = 0;
        while i < n
            invariant
                n == self.command_list.len(),
                i <= n,
                key@ == name@,
                self.wf(),
                forall|j: int| 0 <= j < i ==> self.command_list@[j].0@ != name@,
            decreases n - i,
        {
            if self.command_list[i].0 == key {
                let ghost entries = self.command_list@;
                assert(entries_map(entries).dom().contains(name@)) by {
                    assert(entries[i as int].0@ == name@);
                }
                assert(entry_index(entries, name@) == i);
                return Some(&self.command_list[i].1);
            }
            i = i + 1;
        }
        None
    }

    /// The size the registry was made with.
    pub fn get_size(&self) -> (r: usize)
        ensures
            r == self.size(),
    {
        self.max_command_size
    }
}

/// Reading the registry after registering a command: the name now finds
/// that command, and every other name finds what it found before.
pub proof fn lemma_get_after_insert<F>(
    before: Handler<F>,
    after: Handler<F>,
    name: Seq<char>,
    command: CommandStruct<F>,
    other: Seq<char>,
)
    requires
        after.commands() == before.commands().insert(name, command),
    ensures
        after.commands().dom().contains(name),
        after.commands()[name] == command,
        other != name ==> (after.commands().dom().contains(other) <==> before.commands().dom().contains(
            other,
        )),
        other != name && before.commands().dom().contains(other) ==> after.commands()[other]
            == before.commands()[other],
{
}

/// The power level a command's checks are run at: the sender's level in the
/// room, or the lowest level when the sender is not a room member.
pub open spec fn spec_sender_power(member_power: Option<i64>) -> i64 {
    match member_power {
        Some(p) => p,
        None => i64::MIN,
    }
}

/// The power level a command's checks are run at: the sender's level in the
/// room, or the lowest level when the sender is not a room member.
pub fn sender_power_level(member_power: Option<i64>) -> (p: i64)
    ensures
        p == spec_sender_power(member_power),
{
    match member_power {
        Some(p) => p,
        None => i64::MIN,
    }
}

/// `outcomes` is a run of `checks` at `power` that stops at the first
/// refusal: each outcome is one that its check can give, every outcome but
/// the last is a pass, and the run is cut short only by a refusal.
pub open spec fn is_check_run<C: Fn(i64) -> CheckResult>(
    checks: Seq<C>,
    power: i64,
    outcomes: Seq<CheckResult>,
) -> bool {
    &&& outcomes.len() <= checks.len()
    &&& forall|i: int|
        0 <= i < outcomes.len() ==> call_ensures(checks[i], (power,), #[trigger] outcomes[i])
    &&& forall|i: int| 0 <= i < outcomes.len() - 1 ==> #[trigger] outcomes[i] is Ok
    &&& outcomes.len() < checks.len() ==> (outcomes.len() > 0 && outcomes.last() is Err)
}

/// Runs a command's checks at the power level `power`, in the listed order,
/// and stops at the first one that refuses. The command may run (`Ok`)
/// exactly when every check has passed; with no checks it always may.
/// Besides the verdict, the outcomes of the checks that ran are returned, in
/// order.
pub fn run_checks<C: Fn(i64) -> CheckResult>(checks: &Vec<C>, power: i64) -> (r: (
    CommandResult,
    Ghost<Seq<CheckResult>>,
))
    requires
        forall|i: int| 0 <= i < checks.len() ==> call_requires(#[trigger] checks[i], (power,)),
    ensures
        is_check_run(checks@, power, r.1@),
        r.0 is Ok <==> (r.1@.len() == checks.len() && forall|i: int|
            0 <= i < r.1@.len() ==> #[trigger] r.1@[i] is Ok),
        r.0 is Err ==> r.0 == Err::<(), CommandFailed>(CommandFailed::CHECK),
{
    let ghost mut outcomes: Seq<CheckResult> = Seq::empty();
    let n = checks.len();
    let mut i: usize = 0;
    while i < n
        invariant
            n == checks.len(),
            i <= n,
            outcomes.len() == i,
            forall|j: int| 0 <= j < n ==> call_requires(#[trigger] checks@[j], (power,)),
            forall|j: int|
                0 <= j < outcomes.len() ==> call_ensures(checks@[j], (power,), #[trigger] outcomes[j]),
            forall|j: int| 0 <= j < outcomes.len() ==> #[trigger] outcomes[j] is Ok,
        decreases n - i,
    {
        let check = &checks[i];
        let outcome = check(power);
        proof {
            outcomes = outcomes.push(outcome);
        }
        if outcome.is_err() {
            assert(is_check_run(checks@, power, outcomes));
            return (Err(CommandFailed::CHECK), Ghost(outcomes));
        }
        i = i + 1;
    }
    (Ok(()), Ghost(outcomes))
}

/// For checks whose verdict is fixed (`passes[i]` tells whether check `i`
/// lets `power` through), a run of the checks lets the command run exactly
/// when every listed check passes; otherwise it stops at the first check
/// that does not.
pub proof fn lemma_check_run_decides<C: Fn(i64) -> CheckResult>(
    checks: Seq<C>,
    power: i64,
    outcomes: Seq<CheckResult>,
    passes: Seq<bool>,
)
    requires
        is_check_run(checks, power, outcomes),
        passes.len() == checks.len(),
        forall|i: int, r: CheckResult|
            0 <= i < checks.len() && call_ensures(checks[i], (power,), r) ==> (r is Ok <==> passes[i]),
    ensures
        (outcomes.len() == checks.len() && forall|i: int| 0 <= i < outcomes.len() ==> #[trigger] outcomes[i] is Ok)
            <==> (forall|i: int| 0 <= i < passes.len() ==> #[trigger] passes[i]),
        outcomes.len() < checks.len() ==> {
            &&& !passes[outcomes.len() - 1]
            &&& forall|i: int| 0 <= i < outcomes.len() - 1 ==> #[trigger] passes[i]
        },
{
    assert forall|i: int| 0 <= i < outcomes.len() implies (#[trigger] outcomes[i] is Ok <==> passes[i]) by {
        assert(call_ensures(checks[i], (power,), outcomes[i]));
    }
    if outcomes.len() < checks.len() {
        let k = outcomes.len() - 1;
        assert(outcomes[k] is Err);
        assert(!passes[k]);
        assert forall|i: int| 0 <= i < outcomes.len() - 1 implies #[trigger] passes[i] by {
            assert(outcomes[i] is Ok);
        }
    } else {
        if forall|i: int| 0 <= i < passes.len() ==> #[trigger] passes[i] {
            assert forall|i: int| 0 <= i < outcomes.len() implies #[trigger] outcomes[i] is Ok by {
                assert(passes[i]);
            }
        }
        if forall|i: int| 0 <= i < outcomes.len() ==> #[trigger] outcomes[i] is Ok {
            assert forall|i: int| 0 <= i < passes.len() implies #[trigger] passes[i] by {
                assert(outcomes[i] is Ok);
            }
        }
    }
}

} // verus!
