//! The interactive command-input state: the raw input buffer, the
//! searchable input options, and the completion set, together with the
//! completion engine (live filtering and space-triggered auto-expansion)
//! and the interpreter entry point for submitted buffers.

use crate::action::command_action;
use crate::action::command_action_ok;
use crate::action::Action;
use crate::commands::all_commands;
use crate::commands::find_command;
use crate::commands::registry_order;
use crate::commands::UserCommand;
use crate::matcher::commonest_completion;
use crate::matcher::is_prefix_of;
use crate::matcher::lcp_len;
use crate::matcher::lemma_lcp_len_le;
use crate::matcher::linear_matches;
use crate::tokenize::is_space;
use crate::tokenize::is_space_char;
use crate::tokenize::tokenize;
use crate::tokenize::tokens_of;
use vstd::prelude::*;

verus! {

/// `comps` is exactly the set of indices of options in `opts` whose
/// display string `buf` is a literal prefix of, in increasing option
/// order.
pub open spec fn completion_set_ok(
    buf: Seq<char>,
    opts: Seq<(UserCommand, String)>,
    comps: Seq<usize>,
) -> bool {
    &&& forall|k: int|
        0 <= k < comps.len() ==> #[trigger] comps[k] < opts.len() && is_prefix_of(
            buf,
            opts[comps[k] as int].1@,
        )
    &&& forall|i: int|
        0 <= i < opts.len() && is_prefix_of(buf, #[trigger] opts[i].1@) ==> comps.contains(
            i as usize,
        )
    &&& forall|k1: int, k2: int| 0 <= k1 < k2 < comps.len() ==> comps[k1] < comps[k2]
}

/// The completion set always names exactly the options whose display the
/// buffer is a prefix of: membership in the set is equivalent to the
/// prefix test, option by option.
pub proof fn lemma_completion_set_exact(
    buf: Seq<char>,
    opts: Seq<(UserCommand, String)>,
    comps: Seq<usize>,
)
    requires
        completion_set_ok(buf, opts, comps),
        opts.len() <= usize::MAX,
    ensures
        forall|i: int|
            0 <= i < opts.len() ==> (comps.contains(i as usize) <==> is_prefix_of(
                buf,
                #[trigger] opts[i].1@,
            )),
{
    assert forall|i: int|
        0 <= i < opts.len() implies (comps.contains(i as usize) <==> is_prefix_of(
        buf,
        opts[i].1@,
    )) by {
        if comps.contains(i as usize) {
            let k = choose|k: int| 0 <= k < comps.len() && comps[k] == i as usize;
            assert(comps[k] < opts.len() && is_prefix_of(buf, opts[comps[k] as int].1@));
        }
    }
}

/// An empty buffer matches every option: after the buffer is cleared, the
/// recomputed completion set contains every option index.
pub proof fn lemma_empty_buffer_matches_all(opts: Seq<(UserCommand, String)>, comps: Seq<usize>)
    requires
        completion_set_ok(Seq::<char>::empty(), opts, comps),
        opts.len() <= usize::MAX,
    ensures
        forall|i: int| 0 <= i < opts.len() ==> #[trigger] comps.contains(i as usize),
{
    assert forall|i: int| 0 <= i < opts.len() implies #[trigger] comps.contains(i as usize) by {
        assert(is_prefix_of(Seq::<char>::empty(), opts[i].1@));
    }
}

/// Display strings of the matched options, in completion-set order.
pub open spec fn matched_displays(opts: Seq<(UserCommand, String)>, comps: Seq<usize>) -> Seq<
    Seq<char>,
> {
    Seq::new(comps.len(), |k: int| opts[comps[k] as int].1@)
}

/// The matched option at position `k` of the completion set carries a
/// priority-flagged command.
pub open spec fn priority_at(opts: Seq<(UserCommand, String)>, comps: Seq<usize>, k: int) -> bool {
    opts[comps[k] as int].0.is_priority_spec()
}

/// Exactly one distinct priority command occurs among the matches (by
/// command identity, not by option, since a command may be displayed under
/// several variants).
pub open spec fn unique_priority(opts: Seq<(UserCommand, String)>, comps: Seq<usize>) -> bool {
    &&& exists|k: int| 0 <= k < comps.len() && #[trigger] priority_at(opts, comps, k)
    &&& forall|k1: int, k2: int|
        0 <= k1 < comps.len() && 0 <= k2 < comps.len() && #[trigger] priority_at(opts, comps, k1)
            && #[trigger] priority_at(opts, comps, k2) ==> opts[comps[k1] as int].0
            == opts[comps[k2] as int].0
}

/// The buffer that auto-expansion produces from a non-empty completion
/// set: the unique priority command's canonical name with a trailing
/// space, or else the longest common prefix of the matched display
/// strings, with a trailing space appended exactly when a single option
/// was matched.
pub open spec fn expansion_ok(
    opts: Seq<(UserCommand, String)>,
    comps: Seq<usize>,
    newbuf: Seq<char>,
) -> bool {
    if unique_priority(opts, comps) {
        exists|k: int|
            0 <= k < comps.len() && #[trigger] priority_at(opts, comps, k) && newbuf
                == opts[comps[k] as int].0.name_spec() + seq![' ']
    } else {
        let cands = matched_displays(opts, comps);
        newbuf == cands[0].take(lcp_len(cands) as int) + (if comps.len() == 1 {
            seq![' ']
        } else {
            Seq::<char>::empty()
        })
    }
}

/// The state of the interactive command input session: the registered
/// commands, the text typed so far, the searchable input options, and the
/// completion set.
pub struct CommandInput {
    /// The registered commands, in registration order; submission resolves
    /// command names against this list.
    pub commands: Vec<UserCommand>,
    /// The raw input buffer: the text typed so far.
    pub command_input: String,
    /// The searchable completion universe: each option pairs a command
    /// with a display string.
    pub input_options: Vec<(UserCommand, String)>,
    /// Indices into `input_options` that the current buffer matches.
    pub input_completions: Vec<usize>,
}

impl CommandInput {
    /// The completion set is consistent with the current buffer: it is
    /// never stale.
    pub open spec fn wf(self) -> bool {
        completion_set_ok(self.command_input@, self.input_options@, self.input_completions@)
    }

    /// Creates the default session state: the full registry in
    /// registration order, each command displayed under its canonical
    /// name, an empty buffer, and the completion set recomputed (an empty
    /// buffer matches every option).
    pub fn new() -> (r: CommandInput)
        ensures
            r.wf(),
            r.commands@ == registry_order(),
            r.input_options@.len() == registry_order().len(),
            forall|i: int|
                0 <= i < registry_order().len() ==> (#[trigger] r.input_options@[i]).0
                    == registry_order()[i] && r.input_options@[i].1@
                    == registry_order()[i].name_spec(),
            r.command_input@ == Seq::<char>::empty(),
    {
        let commands = all_commands();
        let mut input_options: Vec<(UserCommand, String)> = Vec::new();
        let mut i: usize = 0;
        while i < commands.len()
            invariant
                i <= commands.len(),
                commands@ == registry_order(),
                input_options@.len() == i,
                forall|k: int|
                    0 <= k < i ==> (#[trigger] input_options@[k]).0 == commands@[k]
                        && input_options@[k].1@ == commands@[k].name_spec(),
            decreases commands.len() - i,
        {
            let c = commands[i];
            input_options.push((c, c.name()));
            i += 1;
        }
        let mut r = CommandInput {
            commands,
            command_input: String::new(),
            input_options,
            input_completions: Vec::new(),
        };
        r.filter_commands();
        r
    }

    /// Creates a session state over a custom list of input options (for
    /// example, display variants of a command); the registered commands
    /// are the options' commands, in order.
    pub fn with_options(options: Vec<(UserCommand, String)>) -> (r: CommandInput)
        ensures
            r.wf(),
            r.input_options == options,
            r.commands@.len() == options@.len(),
            forall|i: int| 0 <= i < options@.len() ==> r.commands@[i] == (#[trigger] options@[i]).0,
            r.command_input@ == Seq::<char>::empty(),
    {
        let mut commands: Vec<UserCommand> = Vec::new();
        let mut i: usize = 0;
        while i < options.len()
            invariant
                i <= options@.len(),
                commands@.len() == i,
                forall|k: int| 0 <= k < i ==> commands@[k] == (#[trigger] options@[k]).0,
            decreases options.len() - i,
        {
            commands.push(options[i].0);
            i += 1;
        }
        let mut r = CommandInput {
            commands,
            command_input: String::new(),
            input_options: options,
            input_completions: Vec::new(),
        };
        r.filter_commands();
        r
    }

    /// Recomputes the completion set: the indices of all input options
    /// whose display string the current buffer is a literal prefix of, in
    /// option order.
    pub fn filter_commands(&mut self)
        ensures
            final(self).commands == old(self).commands,
            final(self).command_input == old(self).command_input,
            final(self).input_options == old(self).input_options,
            final(self).wf(),
    {
        let ghost buf = self.command_input@;
        let ghost opts = self.input_options@;
        let mut comps: Vec<usize> = Vec::new();
        let n = self.input_options.len();
        let mut i: usize = 0;
        while i < n
            invariant
                i <= n,
                buf == self.command_input@,
                opts == self.input_options@,
                n == opts.len(),
                forall|k: int|
                    0 <= k < comps@.len() ==> #[trigger] comps@[k] < i && is_prefix_of(
                        buf,
                        opts[comps@[k] as int].1@,
                    ),
                forall|m: int|
                    0 <= m < i && is_prefix_of(buf, #[trigger] opts[m].1@) ==> comps@.contains(
                        m as usize,
                    ),
                forall|k1: int, k2: int| 0 <= k1 < k2 < comps@.len() ==> comps@[k1] < comps@[k2],
            decreases n - i,
        {
            let ghost old_comps = comps@;
            if linear_matches(self.command_input.as_str(), self.input_options[i].1.as_str()) {
                comps.push(i);
            }
            proof {
                assert forall|m: int|
                    0 <= m < i + 1 && is_prefix_of(buf, #[trigger] opts[m].1@) implies comps@
                    .contains(m as usize) by {
                    if m < i {
                        let k = choose|k: int|
                            0 <= k < old_comps.len() && old_comps[k] == m as usize;
                        assert(comps@[k] == m as usize);
                    } else {
                        assert(comps@[comps@.len() - 1] == i as usize);
                    }
                }
            }
            i += 1;
        }
        self.input_completions = comps;
    }

    /// Handles a keystroke-level change of the input text.  When the
    /// previous completion set is non-empty and the new text ends in a
    /// whitespace character, auto-expansion fires instead of accepting the
    /// text verbatim; either way the completion set is recomputed against
    /// the resulting buffer before returning.
    pub fn on_input_changed(&mut self, new_text: String)
        requires
            old(self).wf(),
        ensures
            final(self).wf(),
            final(self).commands == old(self).commands,
            final(self).input_options == old(self).input_options,
            ({
                let fired = old(self).input_completions@.len() > 0 && new_text@.len() > 0
                    && is_space_char(new_text@[new_text@.len() - 1]);
                if fired {
                    expansion_ok(
                        old(self).input_options@,
                        old(self).input_completions@,
                        final(self).command_input@,
                    )
                } else {
                    final(self).command_input@ == new_text@
                }
            }),
    {
        let ghost opts = self.input_options@;
        let ghost comps = self.input_completions@;
        let ns = self.input_completions.len();
        let n = new_text.as_str().unicode_len();
        let fired = ns > 0 && n > 0 && is_space(new_text.as_str().get_char(n - 1));
        if !fired {
            self.command_input = new_text;
            self.filter_commands();
            return ;
        }
        let mut first_priority: Option<UserCommand> = None;
        let mut several = false;
        let mut k: usize = 0;
        while k < ns
            invariant
                k <= ns,
                ns == comps.len(),
                opts == self.input_options@,
                comps == self.input_completions@,
                completion_set_ok(self.command_input@, opts, comps),
                first_priority is None ==> !several && forall|m: int|
                    0 <= m < k ==> !priority_at(opts, comps, m),
                first_priority matches Some(p) ==> p.is_priority_spec() && exists|m: int|
                    0 <= m < k && #[trigger] priority_at(opts, comps, m) && opts[comps[m] as int].0
                        == p,
                first_priority matches Some(p) ==> several || (forall|m: int|
                    0 <= m < k && #[trigger] priority_at(opts, comps, m) ==> opts[comps[m] as int].0
                        == p),
                several ==> exists|m1: int, m2: int|
                    0 <= m1 < k && 0 <= m2 < k && #[trigger] priority_at(opts, comps, m1)
                        && #[trigger] priority_at(opts, comps, m2) && opts[comps[m1] as int].0
                        != opts[comps[m2] as int].0,
            decreases ns - k,
        {
            let idx = self.input_completions[k];
            let cmd = self.input_options[idx].0;
            if cmd.is_priority() {
                proof {
                    assert(priority_at(opts, comps, k as int));
                }
                match first_priority {
                    None => { first_priority = Some(cmd) },
                    Some(p) => {
                        if p != cmd {
                            several = true;
                        }
                    },
                }
            }
            k += 1;
        }
        if let Some(p) = first_priority {
            if !several {
                proof {
                    assert(unique_priority(opts, comps));
                }
                let mut buf = p.name();
                buf.append(" ");
                proof {
                    reveal_strlit(" ");
                    assert(" "@ =~= seq![' ']);
                    assert(buf@ == p.name_spec() + seq![' ']);
                }
                self.command_input = buf;
                self.filter_commands();
                return ;
            }
        }
        proof {
            assert(!unique_priority(opts, comps));
        }
        let ghost cands = matched_displays(opts, comps);
        let mut displays: Vec<&str> = Vec::new();
        let mut j: usize = 0;
        while j < ns
            invariant
                j <= ns,
                ns == comps.len(),
                opts == self.input_options@,
                comps == self.input_completions@,
                completion_set_ok(self.command_input@, opts, comps),
                cands == matched_displays(opts, comps),
                displays@.len() == j,
                forall|m: int| 0 <= m < j ==> (#[trigger] displays@[m])@ == cands[m],
            decreases ns - j,
        {
            let idx = self.input_completions[j];
            displays.push(self.input_options[idx].1.as_str());
            j += 1;
        }
        proof {
            assert(displays.deep_view() =~= cands);
        }
        let l = commonest_completion(displays);
        proof {
            lemma_lcp_len_le(cands);
        }
        let first_str: &str = self.input_options[self.input_completions[0]].1.as_str();
        proof {
            assert(first_str@ == cands[0]);
        }
        let mut buf = first_str.substring_char(0, l).to_owned();
        if ns == 1 {
            buf.append(" ");
            proof {
                reveal_strlit(" ");
                assert(" "@ =~= seq![' ']);
            }
        } else {
            proof {
                assert(buf@ =~= cands[0].take(lcp_len(cands) as int) + Seq::<char>::empty());
            }
        }
        self.command_input = buf;
        self.filter_commands();
    }

    /// Interprets the submitted buffer: tokenizes it, resolves the first
    /// token to a registered command by exact name, converts the remaining
    /// tokens (truncated to the command's declared argument count), and
    /// returns the command's outbound action.  On successful command-name
    /// resolution the buffer is cleared and the completion set recomputed,
    /// whether or not the arguments convert; an empty or unrecognized
    /// submission returns nothing and leaves the state untouched.
    pub fn parse_command(&mut self) -> (r: Option<Action>)
        requires
            old(self).wf(),
        ensures
            final(self).wf(),
            final(self).commands == old(self).commands,
            final(self).input_options == old(self).input_options,
            ({
                let toks = tokens_of(old(self).command_input@);
                if toks.len() == 0 {
                    r is None && *final(self) == *old(self)
                } else {
                    match find_command(old(self).commands@, toks[0]) {
                        None => r is None && *final(self) == *old(self),
                        Some(cmd) => command_action_ok(
                            cmd,
                            arg_tokens(toks, cmd.args_spec().len()),
                            r,
                        ) && final(self).command_input@ == Seq::<char>::empty(),
                    }
                }
            }),
    {
        let ghost toks_spec = tokens_of(self.command_input@);
        let toks = tokenize(self.command_input.as_str());
        if toks.len() == 0 {
            return None;
        }
        let first_tok: &String = &toks[0];
        proof {
            assert(first_tok@ == toks_spec[0]);
        }
        let mut found: Option<UserCommand> = None;
        let mut i: usize = 0;
        proof {
            assert(self.commands@.skip(0) =~= self.commands@);
        }
        while i < self.commands.len() && found.is_none()
            invariant
                i <= self.commands@.len(),
                first_tok@ == toks_spec[0],
                found is None ==> find_command(self.commands@, toks_spec[0]) == find_command(
                    self.commands@.skip(i as int),
                    toks_spec[0],
                ),
                found matches Some(c) ==> find_command(self.commands@, toks_spec[0]) == Some(c),
            decreases self.commands@.len() - i,
        {
            proof {
                assert(self.commands@.skip(i as int)[0] == self.commands@[i as int]);
                assert(self.commands@.skip(i as int).skip(1) =~= self.commands@.skip(i as int + 1));
            }
            let c = self.commands[i];
            if c.name() == *first_tok {
                found = Some(c);
            }
            i += 1;
        }
        proof {
            if found is None {
                assert(self.commands@.skip(self.commands@.len() as int) =~= Seq::<
                    UserCommand,
                >::empty());
            }
        }
        match found {
            None => None,
            Some(cmd) => {
                let nargs = cmd.args().len();
                let mut args: Vec<String> = Vec::new();
                let mut k: usize = 1;
                while k < toks.len() && args.len() < nargs
                    invariant
                        1 <= k <= toks.len(),
                        toks.deep_view() == toks_spec,
                        toks_spec.len() >= 1,
                        args@.len() == k - 1,
                        args@.len() <= nargs,
                        forall|m: int| 0 <= m < k - 1 ==> (#[trigger] args@[m])@ == toks_spec[m + 1],
                    decreases toks.len() - k,
                {
                    args.push(toks[k].clone());
                    k += 1;
                }
                proof {
                    let rest = toks_spec.skip(1);
                    if args@.len() == nargs && rest.len() > nargs {
                        assert(args.deep_view() =~= rest.take(nargs as int));
                    } else {
                        assert(args.deep_view() =~= rest);
                    }
                    assert(args.deep_view() == arg_tokens(toks_spec, cmd.args_spec().len()));
                }
                let r = command_action(&cmd, &args);
                self.command_input = String::new();
                self.filter_commands();
                r
            },
        }
    }
}

/// The raw argument tokens of a submission: the tokens after the command
/// name, truncated to the command's declared number of argument slots.
pub open spec fn arg_tokens(toks: Seq<Seq<char>>, nargs: nat) -> Seq<Seq<char>> {
    let rest = toks.skip(1);
    if rest.len() <= nargs {
        rest
    } else {
        rest.take(nargs as int)
    }
}

} // verus!
