//! Test doubles for external processes.
//!
//! Kept in the library so integration tests and downstream contributors can
//! drive gitswitch without a real GitHub account, a real `gh` binary or
//! network access.
use vstd::prelude::*;

use crate::error::{Error, Result};
use crate::process::{
    arg_views, invocation, reply_view, status_reply, stdin_view, Invocation, Output, OutputView,
    Runner,
};
use crate::gh::{
    first_word, host_count, host_from_spec, is_host_header, lemma_line_end, line_at, line_end,
    login_from_spec, mark_lone_accounts, parse_from, parse_status_spec, parse_step, word_end,
    GhAccountView, ParseState,
};
use crate::text::{
    chars_of, contains, drop_trailing_ws, find_from, is_ws, lemma_find_from, matches_at, occurs_at, skip_ws,
    starts_with, str_eq, trim,
};

verus! {

#[derive(Debug)]
pub enum Reply {
    Out(Output),
    Missing(&'static str),
}

pub enum ReplyView {
    Out(OutputView),
    Missing(Seq<char>),
}

impl View for Reply {
    type V = ReplyView;

    open spec fn view(&self) -> ReplyView {
        match self {
            Reply::Out(o) => ReplyView::Out(o@),
            Reply::Missing(p) => ReplyView::Missing(p@),
        }
    }
}

impl Reply {
    fn duplicate(&self) -> (r: Reply)
        ensures
            r@ == self@,
    {
        match self {
            Reply::Out(o) => Reply::Out(o.duplicate()),
            Reply::Missing(p) => Reply::Missing(p),
        }
    }
}

/// One recorded command.
#[derive(Debug, Clone, PartialEq, Eq)]
pub struct Call {
    pub command: String,
    pub stdin: Option<String>,
    pub interactive: bool,
}

pub struct CallView {
    pub command: Seq<char>,
    pub stdin: Option<Seq<char>>,
    pub interactive: bool,
}

pub open spec fn opt_view(s: Option<String>) -> Option<Seq<char>> {
    match s {
        Some(t) => Some(t@),
        None => None,
    }
}

impl View for Call {
    type V = CallView;

    open spec fn view(&self) -> CallView {
        CallView { command: self.command@, stdin: opt_view(self.stdin), interactive: self.interactive }
    }
}

fn copy_opt(s: &Option<String>) -> (r: Option<String>)
    ensures
        opt_view(r) == opt_view(*s),
{
    match s {
        Some(t) => Some(t.as_str().to_string()),
        None => None,
    }
}

impl Call {
    fn duplicate(&self) -> (c: Call)
        ensures
            c@ == self@,
    {
        Call {
            command: self.command.as_str().to_string(),
            stdin: copy_opt(&self.stdin),
            interactive: self.interactive,
        }
    }
}

/// A registered command line and the replies queued for it.
#[verifier::ext_equal]
pub struct SlotView {
    pub key: Seq<char>,
    pub queue: Seq<ReplyView>,
    pub cursor: nat,
}

/// Records invocations and replays canned replies.
///
/// Replies are matched against the full command line (`"gh auth status"`), with
/// a longest-prefix fallback so tests only spell out the interesting part.
/// Registering the same command twice queues the replies in order; once the
/// queue is used up its last reply keeps being returned.
pub struct MockRunner {
    keys: Vec<String>,
    queues: Vec<Vec<Reply>>,
    cursor: Vec<usize>,
    calls: Vec<Call>,
    missing: Vec<String>,
    log: Ghost<Seq<Invocation>>,
    lookups: Ghost<Seq<(Seq<char>, bool)>>,
}

/// Words joined by single spaces.
pub open spec fn join_words(words: Seq<Seq<char>>) -> Seq<char>
    decreases words.len(),
{
    if words.len() == 0 {
        Seq::empty()
    } else if words.len() == 1 {
        words[0]
    } else {
        join_words(words.drop_last()) + " "@ + words.last()
    }
}

/// The command line a test registers replies against: the program, then its
/// arguments, separated by spaces.
pub open spec fn command_line(program: Seq<char>, args: Seq<Seq<char>>) -> Seq<char> {
    if args.len() == 0 {
        program
    } else {
        program + " "@ + join_words(args)
    }
}

/// Whether replies registered for `key` answer `command`.
pub open spec fn key_matches(key: Seq<char>, command: Seq<char>) -> bool {
    starts_with(command, key)
}

/// The slot that answers `command` among the first `n`: the one with the
/// longest matching key, the later one on a tie.
pub open spec fn best_slot(keys: Seq<Seq<char>>, command: Seq<char>, n: int) -> Option<int>
    decreases n,
{
    if n <= 0 {
        None
    } else {
        let prev = best_slot(keys, command, n - 1);
        if key_matches(keys[n - 1], command) && (prev is None || keys[prev->0].len() <= keys[n
            - 1].len()) {
            Some(n - 1)
        } else {
            prev
        }
    }
}

/// Which entry of a queue of `len` replies the `cursor`-th lookup returns.
pub open spec fn queue_position(cursor: nat, len: nat) -> nat {
    if cursor < len {
        cursor
    } else {
        (len - 1) as nat
    }
}

/// The reply registered for `command`: the next one queued in the slot with
/// the longest key that `command` starts with, if there is such a slot and
/// its queue is not empty.
pub open spec fn next_reply(slots: Seq<SlotView>, keys: Seq<Seq<char>>, command: Seq<char>) -> Option<ReplyView> {
    match best_slot(keys, command, keys.len() as int) {
        Some(k) => if slots[k].queue.len() == 0 {
            None
        } else {
            Some(slots[k].queue[queue_position(slots[k].cursor, slots[k].queue.len()) as int])
        },
        None => None,
    }
}

/// `slots` once `command` has taken its reply: the cursor of the slot that
/// answered moves past it.
pub open spec fn after_reply(slots: Seq<SlotView>, keys: Seq<Seq<char>>, command: Seq<char>) -> Seq<SlotView> {
    match best_slot(keys, command, keys.len() as int) {
        Some(k) => if slots[k].queue.len() == 0 {
            slots
        } else {
            slots.update(
                k,
                SlotView { cursor: queue_position(slots[k].cursor, slots[k].queue.len()) + 1, ..slots[k] },
            )
        },
        None => slots,
    }
}

/// [`answers`] for a command run on the terminal: only the exit status of a
/// registered output comes back.
pub open spec fn answers_status(r: Result<i32>, reply: Option<ReplyView>, command: Seq<char>) -> bool {
    match reply {
        Some(ReplyView::Out(o)) => r matches Ok(x) && x == o.status,
        Some(ReplyView::Missing(n)) => r matches Err(Error::MissingDependency(p)) && p@ == n,
        None => r matches Err(Error::InvalidInput(m))
            && m@ == "MockRunner received an unregistered command: `"@ + command + "`"@,
    }
}

/// What the mock hands back for `command` given its registered `reply`: the
/// output, the missing program's error, or an error naming a command that
/// nothing was registered for.
pub open spec fn answers(r: Result<Output>, reply: Option<ReplyView>, command: Seq<char>) -> bool {
    match reply {
        Some(ReplyView::Out(o)) => r matches Ok(x) && x@ == o,
        Some(ReplyView::Missing(n)) => r matches Err(Error::MissingDependency(p)) && p@ == n,
        None => r matches Err(Error::InvalidInput(m))
            && m@ == "MockRunner received an unregistered command: `"@ + command + "`"@,
    }
}

impl MockRunner {
    pub closed spec fn key_views(&self) -> Seq<Seq<char>> {
        self.keys@.map_values(|k: String| k@)
    }

    pub closed spec fn slots(&self) -> Seq<SlotView> {
        Seq::new(
            self.keys@.len(),
            |i: int|
                SlotView {
                    key: self.keys@[i]@,
                    queue: self.queues@[i]@.map_values(|r: Reply| r@),
                    cursor: self.cursor@[i] as nat,
                },
        )
    }

    pub closed spec fn call_views(&self) -> Seq<CallView> {
        self.calls@.map_values(|c: Call| c@)
    }

    pub closed spec fn missing_views(&self) -> Seq<Seq<char>> {
        self.missing@.map_values(|m: String| m@)
    }

    /// The three registration lists have one entry per key.
    pub closed spec fn wf(&self) -> bool {
        &&& self.queues@.len() == self.keys@.len()
        &&& self.cursor@.len() == self.keys@.len()
    }

    pub fn new() -> (m: Self)
        ensures
            m.wf(),
            m.slots().len() == 0,
            m.call_views().len() == 0,
            m.missing_views().len() == 0,
            m.invocations().len() == 0,
            m.probes().len() == 0,
    {
        MockRunner {
            keys: Vec::new(),
            queues: Vec::new(),
            cursor: Vec::new(),
            calls: Vec::new(),
            missing: Vec::new(),
            log: Ghost(Seq::empty()),
            lookups: Ghost(Seq::empty()),
        }
    }

    /// Registers a successful reply.
    pub fn ok(self, command: &str, stdout: &str) -> (m: Self)
        requires
            self.wf(),
        ensures
            m.wf(),
            m.call_views() == self.call_views(),
            m.missing_views() == self.missing_views(),
            registered(self.slots(), m.slots(), command@, ReplyView::Out(
                OutputView { status: 0, stdout: stdout@, stderr: Seq::empty() },
            )),
    {
        proof {
            reveal_strlit("");
            assert(""@ =~= Seq::<char>::empty());
        }
        self.status(command, 0, stdout, "")
    }

    /// Registers a reply with an explicit exit status.
    pub fn status(self, command: &str, status: i32, stdout: &str, stderr: &str) -> (m: Self)
        requires
            self.wf(),
        ensures
            m.wf(),
            m.call_views() == self.call_views(),
            m.missing_views() == self.missing_views(),
            registered(self.slots(), m.slots(), command@, ReplyView::Out(
                OutputView { status, stdout: stdout@, stderr: stderr@ },
            )),
    {
        let out = Output { status, stdout: stdout.to_string(), stderr: stderr.to_string() };
        self.push(command, Reply::Out(out))
    }

    /// Marks a program as absent from PATH.
    pub fn missing(self, program: &'static str) -> (m: Self)
        requires
            self.wf(),
        ensures
            m.wf(),
            m.call_views() == self.call_views(),
            m.missing_views() == self.missing_views().push(program@),
            registered(self.slots(), m.slots(), program@, ReplyView::Missing(program@)),
    {
        let mut this = self;
        this.missing.push(program.to_string());
        proof {
            assert(this.missing_views() =~= self.missing_views().push(program@));
        }
        this.push(program, Reply::Missing(program))
    }

    /// Whether `program` was registered as missing.
    fn is_missing(&self, program: &str) -> (b: bool)
        ensures
            b == self.missing_views().contains(program@),
    {
        let mut i: usize = 0;
        while i < self.missing.len()
            invariant
                i <= self.missing@.len(),
                forall|k: int| 0 <= k < i ==> self.missing_views()[k] != program@,
            decreases self.missing@.len() - i,
        {
            if str_eq(self.missing[i].as_str(), program) {
                assert(self.missing_views()[i as int] == program@);
                return true;
            }
            i = i + 1;
        }
        false
    }

    fn push(self, command: &str, reply: Reply) -> (m: Self)
        requires
            self.wf(),
        ensures
            m.wf(),
            m.call_views() == self.call_views(),
            m.missing_views() == self.missing_views(),
            registered(self.slots(), m.slots(), command@, reply@),
    {
        let mut this = self;
        let mut i: usize = 0;
        while i < this.keys.len()
            invariant
                this == self,
                self.wf(),
                i <= self.keys@.len(),
                forall|k: int| 0 <= k < i ==> self.keys@[k]@ != command@,
            decreases self.keys@.len() - i,
        {
            if str_eq(this.keys[i].as_str(), command) {
                let ghost before = this.slots();
                let mut q = this.queues.remove(i);
                q.push(reply);
                this.queues.insert(i, q);
                proof {
                    assert forall|k: int| 0 <= k < this.keys@.len() && k != i implies this.queues@[k]
                        == self.queues@[k] by {}
                    assert(this.queues@[i as int]@.map_values(|r: Reply| r@) =~= before[i as int].queue.push(reply@));
                    assert(this.slots() =~~= before.update(
                        i as int,
                        SlotView { queue: before[i as int].queue.push(reply@), ..before[i as int] },
                    ));
                }
                return this;
            }
            i = i + 1;
        }
        let ghost before = this.slots();
        this.keys.push(command.to_string());
        let mut q: Vec<Reply> = Vec::new();
        q.push(reply);
        this.queues.push(q);
        this.cursor.push(0);
        proof {
            assert(this.queues@.last()@.map_values(|r: Reply| r@) =~= seq![reply@]);
            assert(this.slots() =~~= before.push(
                SlotView { key: command@, queue: seq![reply@], cursor: 0 },
            ));
            assert forall|k: int| 0 <= k < before.len() implies before[k].key != command@ by {
                assert(before[k].key == self.keys@[k]@);
            }
        }
        this
    }

    /// Every command line seen so far, in order.
    pub fn calls(&self) -> (v: Vec<String>)
        ensures
            v@.len() == self.call_views().len(),
            forall|i: int| 0 <= i < v@.len() ==> #[trigger] v@[i]@ == self.call_views()[i].command,
    {
        let mut v: Vec<String> = Vec::new();
        let mut i: usize = 0;
        while i < self.calls.len()
            invariant
                i <= self.calls@.len(),
                v@.len() == i,
                forall|k: int| 0 <= k < i ==> #[trigger] v@[k]@ == self.calls@[k].command@,
            decreases self.calls@.len() - i,
        {
            v.push(self.calls[i].command.as_str().to_string());
            i = i + 1;
        }
        v
    }

    /// Every recorded call, in order.
    pub fn recorded(&self) -> (v: Vec<Call>)
        ensures
            v@.map_values(|c: Call| c@) == self.call_views(),
    {
        let mut v: Vec<Call> = Vec::new();
        let mut i: usize = 0;
        while i < self.calls.len()
            invariant
                i <= self.calls@.len(),
                v@.len() == i,
                forall|k: int| 0 <= k < i ==> #[trigger] v@[k]@ == self.calls@[k]@,
            decreases self.calls@.len() - i,
        {
            v.push(self.calls[i].duplicate());
            i = i + 1;
        }
        proof {
            assert(v@.map_values(|c: Call| c@) =~= self.call_views());
        }
        v
    }

    /// Whether any recorded command line starts with `command`.
    pub fn was_called(&self, command: &str) -> (b: bool)
        ensures
            b == exists|i: int|
                0 <= i < self.call_views().len() && starts_with(
                    #[trigger] self.call_views()[i].command,
                    command@,
                ),
    {
        let needle = chars_of(command);
        let mut i: usize = 0;
        while i < self.calls.len()
            invariant
                needle@ == command@,
                i <= self.calls@.len(),
                forall|k: int|
                    0 <= k < i ==> !starts_with(#[trigger] self.call_views()[k].command, command@),
            decreases self.calls@.len() - i,
        {
            let hay = chars_of(self.calls[i].command.as_str());
            if matches_at(&hay, &needle, 0) {
                assert(starts_with(self.call_views()[i as int].command, command@));
                return true;
            }
            i = i + 1;
        }
        false
    }

    /// Data piped to the first invocation whose command line starts with `command`, if any.
    pub fn stdin_for(&self, command: &str) -> (r: Option<String>)
        ensures
            match first_call_with(self.call_views(), command@, 0) {
                Some(k) => opt_view(r) == self.call_views()[k].stdin,
                None => r is None,
            },
    {
        let needle = chars_of(command);
        let mut i: usize = 0;
        while i < self.calls.len()
            invariant
                needle@ == command@,
                i <= self.calls@.len(),
                first_call_with(self.call_views(), command@, i as int) == first_call_with(
                    self.call_views(),
                    command@,
                    0,
                ),
            decreases self.calls@.len() - i,
        {
            let hay = chars_of(self.calls[i].command.as_str());
            if matches_at(&hay, &needle, 0) {
                return copy_opt(&self.calls[i].stdin);
            }
            i = i + 1;
        }
        None
    }

    /// The slot that answers `command` and the reply it gives, advancing its cursor.
    fn lookup(&mut self, command: &str) -> (r: Option<Reply>)
        ensures
            final(self).wf() == old(self).wf(),
            final(self).key_views() == old(self).key_views(),
            final(self).call_views() == old(self).call_views(),
            final(self).missing_views() == old(self).missing_views(),
            final(self).invocations() == old(self).invocations(),
            final(self).probes() == old(self).probes(),
            old(self).wf() ==> match best_slot(old(self).key_views(), command@, old(self).keys@.len() as int) {
                Some(k) => {
                    let slot = old(self).slots()[k];
                    if slot.queue.len() == 0 {
                        r is None && final(self).slots() == old(self).slots()
                    } else {
                        let pos = queue_position(slot.cursor, slot.queue.len());
                        &&& r matches Some(reply) && reply@ == slot.queue[pos as int]
                        &&& final(self).slots() == old(self).slots().update(
                            k,
                            SlotView { cursor: pos + 1, ..slot },
                        )
                    }
                },
                None => r is None && final(self).slots() == old(self).slots(),
            },
    {
        let cmd = chars_of(command);
        let mut best: Option<usize> = None;
        let mut best_len: usize = 0;
        let mut i: usize = 0;
        while i < self.keys.len()
            invariant
                cmd@ == command@,
                i <= self.keys@.len(),
                best_slot(self.key_views(), command@, i as int) == match best {
                    Some(b) => Some(b as int),
                    None => None::<int>,
                },
                best matches Some(b) ==> b < i && best_len == self.keys@[b as int]@.len(),
            decreases self.keys@.len() - i,
        {
            let key = chars_of(self.keys[i].as_str());
            proof {
                assert(self.key_views()[i as int] == self.keys@[i as int]@);
            }
            if matches_at(&cmd, &key, 0) {
                let take = match best {
                    Some(_) => best_len <= key.len(),
                    None => true,
                };
                if take {
                    best = Some(i);
                    best_len = key.len();
                }
            }
            i = i + 1;
        }
        match best {
            None => None,
            Some(index) => {
                if index >= self.queues.len() || index >= self.cursor.len() {
                    return None;
                }
                let len = self.queues[index].len();
                if len == 0 {
                    return None;
                }
                let position = if self.cursor[index] < len {
                    self.cursor[index]
                } else {
                    len - 1
                };
                let ghost before = self.slots();
                self.cursor.set(index, position + 1);
                proof {
                    if old(self).wf() {
                        let expected = before.update(
                            index as int,
                            SlotView { cursor: (position + 1) as nat, ..before[index as int] },
                        );
                        assert(index < self.keys@.len());
                        assert forall|k: int| 0 <= k < self.keys@.len() implies #[trigger] self.slots()[k]
                            == expected[k] by {
                            if k == index {
                                assert(self.cursor@[k] == position + 1);
                            } else {
                                assert(self.cursor@[k] == old(self).cursor@[k]);
                            }
                        }
                        assert(self.slots() =~= expected);
                    }
                }
                Some(self.queues[index][position].duplicate())
            },
        }
    }

    fn record(&mut self, command: String, stdin: Option<&str>, interactive: bool)
        ensures
            final(self).call_views() == old(self).call_views().push(
                CallView { command: command@, stdin: stdin_view(stdin), interactive },
            ),
            final(self).slots() == old(self).slots(),
            final(self).key_views() == old(self).key_views(),
            final(self).missing_views() == old(self).missing_views(),
            final(self).invocations() == old(self).invocations(),
            final(self).probes() == old(self).probes(),
            final(self).wf() == old(self).wf(),
    {
        let stdin_copy = match stdin {
            Some(s) => Some(s.to_string()),
            None => None,
        };
        self.calls.push(Call { command, stdin: stdin_copy, interactive });
        proof {
            assert(self.call_views() =~= old(self).call_views().push(
                CallView { command: command@, stdin: stdin_view(stdin), interactive },
            ));
        }
    }

    fn reply_to(&mut self, command: String) -> (r: Result<Output>)
        ensures
            final(self).wf() == old(self).wf(),
            final(self).key_views() == old(self).key_views(),
            final(self).call_views() == old(self).call_views(),
            final(self).invocations() == old(self).invocations(),
            final(self).probes() == old(self).probes(),
            final(self).missing_views() == old(self).missing_views(),
            old(self).wf() ==> answers(r, next_reply(old(self).slots(), old(self).key_views(), command@), command@),
            old(self).wf() ==> final(self).slots() == after_reply(
                old(self).slots(),
                old(self).key_views(),
                command@,
            ),
    {
        let reply = self.lookup(command.as_str());
        match reply {
            Some(Reply::Out(out)) => Ok(out),
            Some(Reply::Missing(name)) => Err(Error::MissingDependency(name)),
            None => {
                let mut m = "MockRunner received an unregistered command: `".to_string();
                m.append(command.as_str());
                m.append("`");
                Err(Error::InvalidInput(m))
            },
        }
    }
}

/// Whether `reg` is `slots` with `reply` queued for `key`: appended to the
/// queue of the slot with that key, or in a new slot at the end.
pub open spec fn registered(slots: Seq<SlotView>, reg: Seq<SlotView>, key: Seq<char>, reply: ReplyView) -> bool {
    if exists|i: int| 0 <= i < slots.len() && slots[i].key == key {
        exists|i: int|
            0 <= i < slots.len() && slots[i].key == key && (forall|k: int|
                0 <= k < i ==> slots[k].key != key) && reg == slots.update(
                i,
                SlotView { queue: slots[i].queue.push(reply), ..slots[i] },
            )
    } else {
        reg == slots.push(SlotView { key, queue: seq![reply], cursor: 0 })
    }
}

/// Index of the first recorded call at or after `i` whose command line starts with `command`.
pub open spec fn first_call_with(calls: Seq<CallView>, command: Seq<char>, i: int) -> Option<int>
    decreases calls.len() - i,
{
    if i < 0 || i >= calls.len() {
        None
    } else if starts_with(calls[i].command, command) {
        Some(i)
    } else {
        first_call_with(calls, command, i + 1)
    }
}

/// Joins a program and its arguments with single spaces.
fn join(program: &str, args: &[&str]) -> (s: String)
    ensures
        s@ == command_line(program@, arg_views(args@)),
{
    let mut s = program.to_string();
    let mut i: usize = 0;
    while i < args.len()
        invariant
            i <= args@.len(),
            s@ == command_line(program@, arg_views(args@.take(i as int))),
        decreases args@.len() - i,
    {
        let ghost prev = arg_views(args@.take(i as int));
        s.append(" ");
        s.append(args[i]);
        proof {
            let next = arg_views(args@.take(i + 1));
            assert(next =~= prev.push(args@[i as int]@));
            assert(next.drop_last() =~= prev);
            if i == 0 {
                assert(join_words(next) == args@[0]@);
            }
        }
        i = i + 1;
    }
    proof {
        assert(args@.take(args@.len() as int) =~= args@);
    }
    s
}

impl Runner for MockRunner {
    closed spec fn invocations(&self) -> Seq<Invocation> {
        self.log@
    }

    closed spec fn probes(&self) -> Seq<(Seq<char>, bool)> {
        self.lookups@
    }

    /// The reply is the next one registered for the command line, and the
    /// call joins [`MockRunner::calls`].
    fn run(&mut self, program: &str, args: &[&str], stdin: Option<&str>) -> (r: Result<Output>)
        ensures
            ({
                let line = command_line(program@, arg_views(args@));
                &&& final(self).call_views() == old(self).call_views().push(
                    CallView { command: line, stdin: stdin_view(stdin), interactive: false },
                )
                &&& final(self).wf() == old(self).wf()
                &&& final(self).key_views() == old(self).key_views()
                &&& final(self).missing_views() == old(self).missing_views()
                &&& old(self).wf() ==> answers(r, next_reply(old(self).slots(), old(self).key_views(), line), line)
                &&& old(self).wf() ==> final(self).slots() == after_reply(old(self).slots(), old(self).key_views(), line)
            }),
    {
        let command = join(program, args);
        let command_copy = command.as_str().to_string();
        self.record(command, stdin, false);
        let r = self.reply_to(command_copy);
        self.log = Ghost(
            self.log@.push(invocation(program@, arg_views(args@), stdin_view(stdin), false, reply_view(r))),
        );
        r
    }

    /// As [`MockRunner::run`], handing back only the exit status.
    fn run_interactive(&mut self, program: &str, args: &[&str]) -> (r: Result<i32>)
        ensures
            ({
                let line = command_line(program@, arg_views(args@));
                &&& final(self).call_views() == old(self).call_views().push(
                    CallView { command: line, stdin: None, interactive: true },
                )
                &&& final(self).wf() == old(self).wf()
                &&& final(self).key_views() == old(self).key_views()
                &&& final(self).missing_views() == old(self).missing_views()
                &&& old(self).wf() ==> answers_status(r, next_reply(old(self).slots(), old(self).key_views(), line), line)
                &&& old(self).wf() ==> final(self).slots() == after_reply(old(self).slots(), old(self).key_views(), line)
            }),
    {
        let command = join(program, args);
        let command_copy = command.as_str().to_string();
        self.record(command, None, true);
        let r = match self.reply_to(command_copy) {
            Ok(out) => Ok(out.status),
            Err(e) => Err(e),
        };
        self.log = Ghost(self.log@.push(invocation(program@, arg_views(args@), None, true, status_reply(r))));
        r
    }

    /// A program registered with [`MockRunner::missing`] is reported absent;
    /// any other is present.
    fn is_available(&mut self, program: &str) -> (b: bool)
        ensures
            b == !old(self).missing_views().contains(program@),
            final(self).call_views() == old(self).call_views(),
            final(self).slots() == old(self).slots(),
            final(self).wf() == old(self).wf(),
            final(self).key_views() == old(self).key_views(),
            final(self).missing_views() == old(self).missing_views(),
    {
        let b = !self.is_missing(program);
        self.lookups = Ghost(self.lookups@.push((program@, b)));
        b
    }
}

/// `gh auth status` output for the given logins on one host.
pub fn gh_status_output(host: &str, accounts: &[(&str, bool)]) -> (out: String)
    ensures
        out@ == status_text(host@, accounts@.map_values(|a: (&str, bool)| (a.0@, a.1))),
{
    let mut out = host.to_string();
    out.append("\n");
    let mut i: usize = 0;
    while i < accounts.len()
        invariant
            i <= accounts@.len(),
            out@ == status_text(
                host@,
                accounts@.take(i as int).map_values(|a: (&str, bool)| (a.0@, a.1)),
            ),
        decreases accounts@.len() - i,
    {
        let (login, active) = accounts[i];
        out.append("  \u{2713} Logged in to ");
        out.append(host);
        out.append(" account ");
        out.append(login);
        out.append(" (keyring)\n");
        out.append("  - Active account: ");
        if active {
            out.append("true");
        } else {
            out.append("false");
        }
        out.append("\n");
        out.append("  - Git operations protocol: https\n");
        out.append("  - Token: gho_************************\n");
        out.append("  - Token scopes: 'gist', 'read:org', 'repo'\n");
        proof {
            let prev = accounts@.take(i as int).map_values(|a: (&str, bool)| (a.0@, a.1));
            let next = accounts@.take(i + 1).map_values(|a: (&str, bool)| (a.0@, a.1));
            assert(next.drop_last() =~= prev);
            assert(next.last() == (login@, active));
        }
        i = i + 1;
    }
    proof {
        assert(accounts@.take(accounts@.len() as int) =~= accounts@);
    }
    out
}

/// The block `gh auth status` prints for one login.
pub open spec fn status_entry(host: Seq<char>, login: Seq<char>, active: bool) -> Seq<char> {
    "  \u{2713} Logged in to "@ + host + " account "@ + login + " (keyring)\n"@
        + "  - Active account: "@ + (if active {
        "true"@
    } else {
        "false"@
    }) + "\n"@ + "  - Git operations protocol: https\n"@
        + "  - Token: gho_************************\n"@
        + "  - Token scopes: 'gist', 'read:org', 'repo'\n"@
}

/// A whole `gh auth status` report for one host.
pub open spec fn status_text(host: Seq<char>, accounts: Seq<(Seq<char>, bool)>) -> Seq<char>
    decreases accounts.len(),
{
    if accounts.len() == 0 {
        host + "\n"@
    } else {
        status_text(host, accounts.drop_last()) + status_entry(
            host,
            accounts.last().0,
            accounts.last().1,
        )
    }
}



// ---------------------------------------------------------------------------
// Reading back a generated `gh auth status` report
// ---------------------------------------------------------------------------

/// A line ending in `\n` ends the same way inside a longer text.
proof fn lemma_line_end_prefix(a: Seq<char>, b: Seq<char>, pos: int)
    requires
        a.len() > 0,
        a.last() == '\n',
        0 <= pos < a.len(),
    ensures
        line_end(a + b, pos) == line_end(a, pos),
        line_end(a, pos) < a.len(),
    decreases a.len() - pos,
{
    assert((a + b)[pos] == a[pos]);
    if a[pos] != '\n' {
        lemma_line_end_prefix(a, b, pos + 1);
    }
}

/// Lines after a prefix end where they end on their own, shifted.
proof fn lemma_line_end_shift(a: Seq<char>, b: Seq<char>, x: int)
    requires
        0 <= x <= b.len(),
    ensures
        line_end(a + b, a.len() + x) == a.len() + line_end(b, x),
    decreases b.len() - x,
{
    if x < b.len() {
        assert((a + b)[a.len() + x] == b[x]);
        if b[x] != '\n' {
            lemma_line_end_shift(a, b, x + 1);
        }
    }
}

/// Reading `a + b` from a position inside `b` is reading `b` there.
proof fn lemma_parse_shift(a: Seq<char>, b: Seq<char>, x: int, st: ParseState)
    requires
        0 <= x,
    ensures
        parse_from(a + b, a.len() + x, st) == parse_from(b, x, st),
    decreases b.len() + 1 - x,
{
    if x < b.len() {
        let s = a + b;
        let pos = a.len() + x;
        lemma_line_end_shift(a, b, x);
        lemma_line_end(b, x);
        let e = line_end(b, x);
        assert(line_end(s, pos) == a.len() + e);
        if e < b.len() && e > x && b[e - 1] == '\r' {
            assert(s[a.len() + e - 1] == b[e - 1]);
            assert(s.subrange(pos, a.len() + e - 1) =~= b.subrange(x, e - 1));
        } else {
            if a.len() + e < s.len() && a.len() + e > pos {
                assert(s[a.len() + e - 1] == b[e - 1]);
            }
            assert(s.subrange(pos, a.len() + e) =~= b.subrange(x, e));
        }
        assert(line_at(s, pos) == line_at(b, x));
        lemma_parse_shift(a, b, e + 1, parse_step(st, line_at(b, x)));
    }
}

/// Reading `a + b`, where `a` ends a line, is reading `a` and then `b`.
proof fn lemma_parse_concat(a: Seq<char>, b: Seq<char>, pos: int, st: ParseState)
    requires
        a.len() > 0,
        a.last() == '\n',
        0 <= pos <= a.len(),
    ensures
        parse_from(a + b, pos, st) == parse_from(b, 0, parse_from(a, pos, st)),
    decreases a.len() - pos,
{
    let s = a + b;
    if pos == a.len() {
        lemma_parse_shift(a, b, 0, st);
    } else {
        lemma_line_end_prefix(a, b, pos);
        lemma_line_end(a, pos);
        let e = line_end(a, pos);
        if e > pos && a[e - 1] == '\r' {
            assert(s[e - 1] == a[e - 1]);
            assert(s.subrange(pos, e - 1) =~= a.subrange(pos, e - 1));
        } else {
            if e > pos {
                assert(s[e - 1] == a[e - 1]);
            }
            assert(s.subrange(pos, e) =~= a.subrange(pos, e));
        }
        assert(line_at(s, pos) == line_at(a, pos));
        lemma_parse_concat(a, b, e + 1, parse_step(st, line_at(a, pos)));
    }
}

/// Reading one line and its `\n` is one parser step.
proof fn lemma_parse_line(line: Seq<char>, st: ParseState)
    requires
        forall|k: int| 0 <= k < line.len() ==> line[k] != '\n',
        line.len() > 0 ==> line.last() != '\r',
    ensures
        parse_from(line + "\n"@, 0, st) == parse_step(st, line),
{
    reveal_strlit("\n");
    let s = line + "\n"@;
    lemma_line_end(s, 0);
    let e = line_end(s, 0);
    assert(s[line.len() as int] == '\n');
    assert forall|k: int| 0 <= k < line.len() implies s[k] != '\n' by {
        assert(s[k] == line[k]);
    }
    assert(e == line.len());
    if e > 0 {
        assert(s[e - 1] == line.last());
    }
    assert(s.subrange(0, e) =~= line);
    assert(line_at(s, 0) == line);
    assert(parse_from(s, e + 1, parse_step(st, line)) == parse_step(st, line));
}

/// No character of `s` is whitespace.
pub open spec fn no_ws(s: Seq<char>) -> bool {
    forall|k: int| 0 <= k < s.len() ==> !is_ws(#[trigger] s[k])
}

/// Trimming a text that two spaces indent and that starts and ends with a
/// visible character leaves the text.
proof fn lemma_trim_indented(t: Seq<char>, pad: Seq<char>)
    requires
        t.len() > 0,
        !is_ws(t[0]),
        !is_ws(t.last()),
        pad.len() <= 2,
        forall|k: int| 0 <= k < pad.len() ==> #[trigger] pad[k] == ' ',
    ensures
        trim(pad + t) == t,
{
    let s = pad + t;
    assert(s[pad.len() as int] == t[0]);
    if pad.len() == 2 {
        assert(s[0] == ' ' && s[1] == ' ');
        assert(skip_ws(s, 2) == 2);
        assert(skip_ws(s, 1) == 2);
    } else if pad.len() == 1 {
        assert(s[0] == ' ');
        assert(skip_ws(s, 1) == 1);
    }
    assert(skip_ws(s, 0) == pad.len());
    assert(s[s.len() - 1] == t.last());
    assert(drop_trailing_ws(s, pad.len() as int, s.len() as int) == s.len());
    assert(s.subrange(pad.len() as int, s.len() as int) =~= t);
}

/// A run of visible characters followed by whitespace ends there.
proof fn lemma_word_at(s: Seq<char>, i: int, j: int)
    requires
        0 <= i <= j < s.len(),
        forall|k: int| i <= k < j ==> !is_ws(#[trigger] s[k]),
        is_ws(s[j]),
    ensures
        word_end(s, i) == j,
    decreases j - i,
{
    if i < j {
        lemma_word_at(s, i + 1, j);
    }
}

/// The first word of `w + rest`, where `w` is one visible word and `rest`
/// starts with whitespace.
proof fn lemma_first_word(w: Seq<char>, rest: Seq<char>)
    requires
        w.len() > 0,
        no_ws(w),
        rest.len() > 0,
        is_ws(rest[0]),
    ensures
        first_word(w + rest) == Some(w),
{
    let s = w + rest;
    assert(s[0] == w[0]);
    assert(skip_ws(s, 0) == 0);
    assert forall|k: int| 0 <= k < w.len() implies !is_ws(#[trigger] s[k]) by {
        assert(s[k] == w[k]);
    }
    assert(s[w.len() as int] == rest[0]);
    lemma_word_at(s, 0, w.len() as int);
    assert(s.subrange(0, w.len() as int) =~= w);
}

/// `needle` first occurs in `hay` at `k`.
proof fn lemma_find_at(hay: Seq<char>, needle: Seq<char>, k: int)
    requires
        occurs_at(hay, needle, k),
        forall|m: int| 0 <= m < k ==> !occurs_at(hay, needle, m),
    ensures
        find_from(hay, needle, 0) == Some(k),
{
    lemma_find_from(hay, needle, 0);
}

/// The text of the login line `gh auth status` prints, without its indent.
pub open spec fn login_text(host: Seq<char>, login: Seq<char>) -> Seq<char> {
    "\u{2713} Logged in to "@ + host + " account "@ + login + " (keyring)"@
}

/// `account ` first occurs in a login line right after the host.
#[verifier::spinoff_prover]
proof fn lemma_login_marker(host: Seq<char>, login: Seq<char>)
    requires
        host.len() > 0,
        no_ws(host),
        !contains(host, "account"@),
    ensures
        find_from(login_text(host, login), "account "@, 0) == Some(
            ("\u{2713} Logged in to "@.len() + host.len() + 1) as int,
        ),
{
    reveal_strlit("\u{2713} Logged in to ");
    reveal_strlit(" account ");
    reveal_strlit(" (keyring)");
    reveal_strlit("account ");
    reveal_strlit("account");
    let p = "\u{2713} Logged in to "@;
    let m = " account "@;
    let n = "account "@;
    let t = login_text(host, login);
    let a = p.len() as int;
    let b = a + host.len();
    let k = b + 1;
    assert(forall|i: int| 0 <= i < a ==> #[trigger] t[i] == p[i]);
    assert(forall|i: int| a <= i < b ==> #[trigger] t[i] == host[i - a]);
    assert(forall|i: int| b <= i < b + m.len() ==> #[trigger] t[i] == m[i - b]);
    assert(t.subrange(k, k + 8) =~= n);
    assert forall|i: int| 0 <= i < a implies #[trigger] p[i] != 'a' by {}
    assert forall|x: int| 0 <= x < k implies !occurs_at(t, n, x) by {
        if occurs_at(t, n, x) {
            assert(t.subrange(x, x + 8)[0] == n[0]);
            assert(t[x] == 'a');
            if x < a {
                assert(t[x] == p[x]);
            } else if x == b {
                assert(t[b] == ' ');
            } else {
                // the match starts inside the host
                assert(t.subrange(x, x + 8)[7] == ' ');
                if x + 7 < b {
                    assert(t[x + 7] == host[x + 7 - a]);
                    assert(is_ws(t[x + 7]));
                    assert(false);
                } else if x + 7 == b {
                    assert forall|j: int| 0 <= j < 7 implies host.subrange(x - a, x - a + 7)[j]
                        == "account"@[j] by {
                        assert(t.subrange(x, x + 8)[j] == n[j]);
                        assert(t[x + j] == host[x - a + j]);
                    }
                    assert(host.subrange(x - a, x - a + 7) =~= "account"@);
                    assert(occurs_at(host, "account"@, x - a));
                    assert(false);
                } else {
                    let d = b - x;
                    assert(1 <= d <= 6);
                    assert(t.subrange(x, x + 8)[d] == n[d]);
                    assert(t[b] == ' ');
                    assert(false);
                }
            }
        }
    }
    lemma_find_at(t, n, k);
}

/// Reading a login line adds that login on that host, not yet active.
#[verifier::spinoff_prover]
proof fn lemma_login_step(st: ParseState, host: Seq<char>, login: Seq<char>)
    requires
        host.len() > 0,
        no_ws(host),
        !contains(host, "account"@),
        login.len() > 0,
        no_ws(login),
    ensures
        parse_step(st, "  "@ + login_text(host, login)) == (ParseState {
            host: st.host,
            accounts: st.accounts.push(
                GhAccountView { host, login: crate::process::redact_spec(login), active: false },
            ),
        }),
{
    reveal_strlit("  ");
    reveal_strlit("\u{2713} Logged in to ");
    reveal_strlit(" account ");
    reveal_strlit(" (keyring)");
    reveal_strlit("Logged in to");
    reveal_strlit("Logged in to ");
    let p = "\u{2713} Logged in to "@;
    let m = " account "@;
    let kr = " (keyring)"@;
    let t = login_text(host, login);
    let line = "  "@ + t;
    let a = p.len() as int;
    let b = a + host.len();
    let c = b + m.len();
    assert(t[0] == p[0]);
    assert(t[t.len() - 1] == kr[kr.len() - 1]);
    lemma_trim_indented(t, "  "@);
    assert(line[0] == ' ');
    assert(!is_host_header(line, t));
    // the login
    lemma_login_marker(host, login);
    assert(t.subrange(2, 14) =~= "Logged in to"@);
    assert(occurs_at(t, "Logged in to"@, 2));
    assert(contains(t, "Logged in to"@));
    reveal_strlit("account ");
    assert("account "@.len() == 8);
    assert(t.subrange(c, t.len() as int) =~= login + kr);
    assert(kr[0] == ' ');
    lemma_first_word(login, kr);
    assert(login_from_spec(t) == Some(crate::process::redact_spec(login)));
    // the host
    assert(t.subrange(2, 15) =~= "Logged in to "@);
    assert(t[0] != 'L' && t[1] != 'L');
    assert(!occurs_at(t, "Logged in to "@, 0) && !occurs_at(t, "Logged in to "@, 1)) by {
        if occurs_at(t, "Logged in to "@, 0) {
            assert(t.subrange(0, 13)[0] == "Logged in to "@[0]);
        }
        if occurs_at(t, "Logged in to "@, 1) {
            assert(t.subrange(1, 14)[0] == "Logged in to "@[0]);
        }
    }
    lemma_find_at(t, "Logged in to "@, 2);
    assert(t.subrange(15, t.len() as int) =~= host + (m + login + kr));
    assert((m + login + kr)[0] == ' ');
    lemma_first_word(host, m + login + kr);
    assert(host_from_spec(t) == Some(host));
}

/// A text without a capital `L` names no login.
proof fn lemma_no_login(t: Seq<char>)
    requires
        forall|k: int| 0 <= k < t.len() ==> #[trigger] t[k] != 'L',
    ensures
        login_from_spec(t) is None,
{
    reveal_strlit("Logged in to");
    assert forall|i: int| !occurs_at(t, "Logged in to"@, i) by {
        if occurs_at(t, "Logged in to"@, i) {
            assert(t.subrange(i, i + 12)[0] == 'L');
            assert(t[i] == 'L');
        }
    }
    assert(!contains(t, "Logged in to"@));
}

/// Reading the `Active account` line marks the last login read.
#[verifier::spinoff_prover]
proof fn lemma_active_step(st: ParseState, active: bool)
    requires
        st.accounts.len() > 0,
    ensures
        parse_step(st, "  "@ + ("- Active account: "@ + (if active { "true"@ } else { "false"@ }))) == (
        ParseState {
            host: st.host,
            accounts: st.accounts.update(
                st.accounts.len() - 1,
                GhAccountView { active, ..st.accounts.last() },
            ),
        }),
{
    reveal_strlit("  ");
    reveal_strlit(" ");
    reveal_strlit("- Active account: ");
    reveal_strlit("- Active account:");
    reveal_strlit("true");
    reveal_strlit("false");
    let tf = if active {
        "true"@
    } else {
        "false"@
    };
    let t = "- Active account: "@ + tf;
    let line = "  "@ + t;
    assert(t[0] == '-');
    assert(t[t.len() - 1] == 'e');
    lemma_trim_indented(t, "  "@);
    assert(line[0] == ' ');
    assert(!is_host_header(line, t));
    assert forall|k: int| 0 <= k < t.len() implies #[trigger] t[k] != 'L' by {
        if k >= 18 {
            assert(t[k] == tf[k - 18]);
        }
    }
    lemma_no_login(t);
    assert(t.subrange(0, 17) =~= "- Active account:"@);
    assert(starts_with(t, "- Active account:"@));
    let rest = t.subrange(17, t.len() as int);
    assert(rest =~= " "@ + tf);
    assert(tf[0] != ' ' && tf[tf.len() - 1] == 'e');
    lemma_trim_indented(tf, " "@);
    if active {
        assert(crate::text::eq_ignore_case(tf, "true"@));
    } else {
        assert(!crate::text::eq_ignore_case(tf, "true"@));
    }
}

/// A line that is none of a host header, a login or an `Active account`
/// line leaves the parser as it was.
proof fn lemma_quiet_step(st: ParseState, t: Seq<char>)
    requires
        t.len() > 2,
        !is_ws(t[0]),
        !is_ws(t.last()),
        t[2] != 'A',
        forall|k: int| 0 <= k < t.len() ==> #[trigger] t[k] != 'L',
    ensures
        parse_step(st, "  "@ + t) == st,
{
    reveal_strlit("  ");
    reveal_strlit("- Active account:");
    lemma_trim_indented(t, "  "@);
    assert(("  "@ + t)[0] == ' ');
    lemma_no_login(t);
    if starts_with(t, "- Active account:"@) {
        assert(t.subrange(0, 17)[2] == 'A');
    }
}

/// The host header line leaves the logins read so far as they are.
proof fn lemma_header_step(st: ParseState, host: Seq<char>)
    requires
        host.len() > 0,
        no_ws(host),
    ensures
        parse_step(st, host).accounts == st.accounts,
{
    reveal_strlit("account ");
    reveal_strlit("- Active account:");
    lemma_trim_indented(host, Seq::empty());
    assert(Seq::<char>::empty() + host =~= host);
    assert forall|i: int| !occurs_at(host, "account "@, i) by {
        if occurs_at(host, "account "@, i) {
            assert(host.subrange(i, i + 8)[7] == ' ');
            assert(is_ws(host[i + 7]));
        }
    }
    lemma_find_from(host, "account "@, 0);
    if starts_with(host, "- Active account:"@) {
        assert(host.subrange(0, 17)[1] == ' ');
        assert(is_ws(host[1]));
    }
}

/// `true` or `false`, as a report prints it.
pub open spec fn flag_text(active: bool) -> Seq<char> {
    if active {
        "true"@
    } else {
        "false"@
    }
}

/// The first line of the block for one login.
pub open spec fn entry_line1(host: Seq<char>, login: Seq<char>) -> Seq<char> {
    "  "@ + login_text(host, login)
}

/// The second line of the block for one login.
pub open spec fn entry_line2(active: bool) -> Seq<char> {
    "  "@ + ("- Active account: "@ + flag_text(active))
}

/// The three lines that close the block for one login, without their indent.
pub open spec fn entry_tail(k: int) -> Seq<char> {
    if k == 3 {
        "- Git operations protocol: https"@
    } else if k == 4 {
        "- Token: gho_************************"@
    } else {
        "- Token scopes: 'gist', 'read:org', 'repo'"@
    }
}

/// The block for one login is its five lines, each ended by a line break.
#[verifier::spinoff_prover]
proof fn lemma_entry_shape(host: Seq<char>, login: Seq<char>, active: bool)
    ensures
        status_entry(host, login, active) == (entry_line1(host, login) + "\n"@) + ((entry_line2(
            active,
        ) + "\n"@) + ((("  "@ + entry_tail(3)) + "\n"@) + ((("  "@ + entry_tail(4)) + "\n"@) + ((
        "  "@ + entry_tail(5)) + "\n"@)))),
{
    reveal_strlit("  \u{2713} Logged in to ");
    reveal_strlit("\u{2713} Logged in to ");
    reveal_strlit(" (keyring)\n");
    reveal_strlit(" (keyring)");
    reveal_strlit("  - Active account: ");
    reveal_strlit("- Active account: ");
    reveal_strlit("\n");
    reveal_strlit("  ");
    reveal_strlit("  - Git operations protocol: https\n");
    reveal_strlit("- Git operations protocol: https");
    reveal_strlit("  - Token: gho_************************\n");
    reveal_strlit("- Token: gho_************************");
    reveal_strlit("  - Token scopes: 'gist', 'read:org', 'repo'\n");
    reveal_strlit("- Token scopes: 'gist', 'read:org', 'repo'");
    assert(status_entry(host, login, active) =~= (entry_line1(host, login) + "\n"@) + ((entry_line2(
        active,
    ) + "\n"@) + ((("  "@ + entry_tail(3)) + "\n"@) + ((("  "@ + entry_tail(4)) + "\n"@) + ((
    "  "@ + entry_tail(5)) + "\n"@)))));
}

/// The first line of a block holds no line break and ends in `)`.
#[verifier::spinoff_prover]
proof fn lemma_line1_plain(host: Seq<char>, login: Seq<char>)
    requires
        no_ws(host),
        no_ws(login),
    ensures
        forall|k: int| 0 <= k < entry_line1(host, login).len() ==> entry_line1(host, login)[k] != '\n',
        entry_line1(host, login).last() == ')',
{
    reveal_strlit("  ");
    reveal_strlit("\u{2713} Logged in to ");
    reveal_strlit(" account ");
    reveal_strlit(" (keyring)");
    let l1 = entry_line1(host, login);
    assert forall|k: int| 0 <= k < l1.len() implies l1[k] != '\n' by {
        let a = 2 + "\u{2713} Logged in to "@.len();
        let b = a + host.len();
        let c = b + 9;
        if a <= k < b {
            assert(l1[k] == host[k - a]);
        } else if c <= k < c + login.len() {
            assert(l1[k] == login[k - c]);
        }
    }
}

/// The other lines of a block hold no line break and no capital `L`, and
/// start and end with a visible character once their indent is gone.
#[verifier::spinoff_prover]
proof fn lemma_other_lines_plain(active: bool)
    ensures
        forall|k: int| 0 <= k < entry_line2(active).len() ==> entry_line2(active)[k] != '\n',
        entry_line2(active).last() == 'e',
        forall|j: int|
            3 <= j <= 5 ==> {
                let t = #[trigger] entry_tail(j);
                &&& t.len() > 2
                &&& !is_ws(t[0])
                &&& !is_ws(t.last())
                &&& t[2] != 'A'
                &&& forall|k: int| 0 <= k < t.len() ==> #[trigger] t[k] != 'L'
                &&& forall|k: int| 0 <= k < ("  "@ + t).len() ==> ("  "@ + t)[k] != '\n'
            },
{
    reveal_strlit("  ");
    reveal_strlit("- Active account: ");
    reveal_strlit("true");
    reveal_strlit("false");
    reveal_strlit("- Git operations protocol: https");
    reveal_strlit("- Token: gho_************************");
    reveal_strlit("- Token scopes: 'gist', 'read:org', 'repo'");
    let l2 = entry_line2(active);
    assert forall|k: int| 0 <= k < l2.len() implies l2[k] != '\n' by {}
    assert forall|j: int| 3 <= j <= 5 implies {
        let t = #[trigger] entry_tail(j);
        &&& t.len() > 2
        &&& !is_ws(t[0])
        &&& !is_ws(t.last())
        &&& t[2] != 'A'
        &&& forall|k: int| 0 <= k < t.len() ==> #[trigger] t[k] != 'L'
        &&& forall|k: int| 0 <= k < ("  "@ + t).len() ==> ("  "@ + t)[k] != '\n'
    } by {
        let t = entry_tail(j);
        assert forall|k: int| 0 <= k < t.len() implies #[trigger] t[k] != 'L' by {}
        assert forall|k: int| 0 <= k < ("  "@ + t).len() implies ("  "@ + t)[k] != '\n' by {}
    }
}

/// Reading the block printed for one login adds that login, marked as the
/// block says.
#[verifier::spinoff_prover]
proof fn lemma_entry(st: ParseState, host: Seq<char>, login: Seq<char>, active: bool)
    requires
        host.len() > 0,
        no_ws(host),
        !contains(host, "account"@),
        login.len() > 0,
        no_ws(login),
    ensures
        parse_from(status_entry(host, login, active), 0, st).accounts == st.accounts.push(
            GhAccountView { host, login: crate::process::redact_spec(login), active },
        ),
{
    reveal_strlit("\n");
    let nl = "\n"@;
    let l1 = entry_line1(host, login);
    let l2 = entry_line2(active);
    let l3 = "  "@ + entry_tail(3);
    let l4 = "  "@ + entry_tail(4);
    let l5 = "  "@ + entry_tail(5);
    let r4 = (l4 + nl) + (l5 + nl);
    let r3 = (l3 + nl) + r4;
    let r2 = (l2 + nl) + r3;
    lemma_entry_shape(host, login, active);
    lemma_line1_plain(host, login);
    lemma_other_lines_plain(active);
    let s1 = parse_step(st, l1);
    lemma_login_step(st, host, login);
    lemma_parse_line(l1, st);
    lemma_parse_concat(l1 + nl, r2, 0, st);
    let s2 = parse_step(s1, l2);
    lemma_active_step(s1, active);
    lemma_parse_line(l2, s1);
    lemma_parse_concat(l2 + nl, r3, 0, s1);
    lemma_quiet_step(s2, entry_tail(3));
    lemma_parse_line(l3, s2);
    lemma_parse_concat(l3 + nl, r4, 0, s2);
    lemma_quiet_step(s2, entry_tail(4));
    lemma_parse_line(l4, s2);
    lemma_parse_concat(l4 + nl, l5 + nl, 0, s2);
    lemma_quiet_step(s2, entry_tail(5));
    lemma_parse_line(l5, s2);
    assert(s2.accounts =~= st.accounts.push(
        GhAccountView { host, login: crate::process::redact_spec(login), active },
    ));
}

/// The logins a report lists, as read back: on `host`, in order.
pub open spec fn listed(host: Seq<char>, accounts: Seq<(Seq<char>, bool)>) -> Seq<GhAccountView> {
    Seq::new(
        accounts.len(),
        |k: int|
            GhAccountView {
                host,
                login: crate::process::redact_spec(accounts[k].0),
                active: accounts[k].1,
            },
    )
}

/// Hosts and logins a report can print so that it reads back: visible
/// words, and a host that does not hold the word `account`.
pub open spec fn printable(host: Seq<char>, accounts: Seq<(Seq<char>, bool)>) -> bool {
    &&& host.len() > 0
    &&& no_ws(host)
    &&& !contains(host, "account"@)
    &&& forall|k: int| 0 <= k < accounts.len() ==> (#[trigger] accounts[k]).0.len() > 0 && no_ws(accounts[k].0)
}

#[verifier::spinoff_prover]
proof fn lemma_read_report(host: Seq<char>, accounts: Seq<(Seq<char>, bool)>)
    requires
        printable(host, accounts),
    ensures
        status_text(host, accounts).len() > 0,
        status_text(host, accounts).last() == '\n',
        parse_from(
            status_text(host, accounts),
            0,
            ParseState { host: Seq::empty(), accounts: Seq::empty() },
        ).accounts == listed(host, accounts),
    decreases accounts.len(),
{
    reveal_strlit("\n");
    reveal_strlit("  - Token scopes: 'gist', 'read:org', 'repo'\n");
    let init = ParseState { host: Seq::empty(), accounts: Seq::empty() };
    if accounts.len() == 0 {
        assert forall|k: int| 0 <= k < host.len() implies host[k] != '\n' by {
            assert(!is_ws(host[k]));
        }
        assert(!is_ws(host.last()));
        lemma_parse_line(host, init);
        lemma_header_step(init, host);
        assert(listed(host, accounts) =~= Seq::<GhAccountView>::empty());
    } else {
        let rest = accounts.drop_last();
        let (login, active) = accounts.last();
        assert(printable(host, rest)) by {
            assert forall|k: int| 0 <= k < rest.len() implies (#[trigger] rest[k]).0.len() > 0 && no_ws(
                rest[k].0,
            ) by {
                assert(rest[k] == accounts[k]);
            }
        }
        assert(accounts[accounts.len() - 1] == accounts.last());
        lemma_read_report(host, rest);
        let before = status_text(host, rest);
        let entry = status_entry(host, login, active);
        lemma_parse_concat(before, entry, 0, init);
        lemma_entry(parse_from(before, 0, init), host, login, active);
        assert(listed(host, accounts) =~= listed(host, rest).push(
            GhAccountView { host, login: crate::process::redact_spec(login), active },
        ));
        assert(entry.last() == '\n');
        assert((before + entry).last() == entry.last());
    }
}

/// Every one of `accounts` is on `host`.
proof fn lemma_host_count_all(accounts: Seq<GhAccountView>, host: Seq<char>)
    requires
        forall|k: int| 0 <= k < accounts.len() ==> (#[trigger] accounts[k]).host == host,
    ensures
        host_count(accounts, host) == accounts.len(),
    decreases accounts.len(),
{
    if accounts.len() > 0 {
        let rest = accounts.drop_last();
        assert forall|k: int| 0 <= k < rest.len() implies (#[trigger] rest[k]).host == host by {
            assert(rest[k] == accounts[k]);
        }
        lemma_host_count_all(rest, host);
        assert(accounts[accounts.len() - 1] == accounts.last());
    }
}

/// Law: the `gh auth status` report [`gh_status_output`] prints for one host
/// reads back as the same logins on that host, in the same order, each
/// active as printed, except that a host's only login is always the active
/// one. Logins shaped like tokens come back redacted.
pub proof fn lemma_status_report_reads_back(host: Seq<char>, accounts: Seq<(Seq<char>, bool)>)
    requires
        printable(host, accounts),
    ensures
        parse_status_spec(status_text(host, accounts)) == Seq::new(
            accounts.len(),
            |k: int|
                GhAccountView {
                    host,
                    login: crate::process::redact_spec(accounts[k].0),
                    active: accounts[k].1 || accounts.len() == 1,
                },
        ),
{
    lemma_read_report(host, accounts);
    let read = listed(host, accounts);
    lemma_host_count_all(read, host);
    assert(mark_lone_accounts(read) =~= Seq::new(
        accounts.len(),
        |k: int|
            GhAccountView {
                host,
                login: crate::process::redact_spec(accounts[k].0),
                active: accounts[k].1 || accounts.len() == 1,
            },
    ));
}

} // verus!
