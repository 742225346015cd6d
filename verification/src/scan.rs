//! The scan of the invocation's tokens.
//!
//! The tokens are read once, from left to right, with one token of lookahead.
//! A token is, in this order of precedence: a request for the help banner, a
//! request for the version banner, a declared option, the keyword of a
//! declared positional argument, or nothing the definition knows; the last is
//! passed over. A banner is rendered on the spot and the scan goes on.

use vstd::prelude::*;
use vstd::string::*;
use crate::cli::CLI;
use crate::laws::lemma_scan_keeps_declarations;
use crate::model::{first_from, texts, ArgView, CliView, OptView};
use crate::render::{help_text, version_text};
use crate::text::{is_dashed, starts_with_dash, str_eq};

verus! {

/// Whether `t` asks for the help banner.
pub open spec fn is_help_token(t: Seq<char>) -> bool {
    t == "--help"@ || t == "-h"@
}

/// Whether `t` asks for the version banner.
pub open spec fn is_version_token(t: Seq<char>) -> bool {
    t == "--version"@ || t == "-v"@
}

/// The index of the first option at or after `from` that `t` names, or the
/// number of options where none does.
pub open spec fn option_from(cli: CliView, t: Seq<char>, from: int) -> int {
    first_from(cli.options, |o: OptView| o.answers(t), from)
}

/// The index of the first option that `t` names by either form, or the number
/// of options where none does.
pub open spec fn option_at(cli: CliView, t: Seq<char>) -> int {
    option_from(cli, t, 0)
}

/// The index of the first positional argument at or after `from` whose
/// keyword is `t`, or the number of positional arguments where none is.
pub open spec fn arg_from(cli: CliView, t: Seq<char>, from: int) -> int {
    first_from(cli.args, |a: ArgView| a.name == t, from)
}

/// The index of the first positional argument whose keyword is `t`, or the
/// number of positional arguments where none is.
pub open spec fn arg_at(cli: CliView, t: Seq<char>) -> int {
    arg_from(cli, t, 0)
}

/// How many tokens from `from` on stand before the next one that starts with
/// the option marker, or before the end.
pub open spec fn run_len(tokens: Seq<Seq<char>>, from: int) -> nat
    decreases tokens.len() - from,
{
    if 0 <= from < tokens.len() && !is_dashed(tokens[from]) {
        1 + run_len(tokens, from + 1)
    } else {
        0
    }
}

/// How many tokens after the one at `pos` are consumed together with it: the
/// value of an option, or the run that a positional argument captures.
pub open spec fn taken(cli: CliView, tokens: Seq<Seq<char>>, pos: int) -> nat {
    let t = tokens[pos];
    if is_help_token(t) || is_version_token(t) {
        0
    } else if option_at(cli, t) < cli.options.len() {
        if pos + 1 < tokens.len() && !is_dashed(tokens[pos + 1]) {
            1
        } else {
            0
        }
    } else if arg_at(cli, t) < cli.args.len() {
        run_len(tokens, pos + 1)
    } else {
        0
    }
}

/// The definition after the token at `pos` has been dealt with.
pub open spec fn settled(cli: CliView, tokens: Seq<Seq<char>>, pos: int) -> CliView {
    let t = tokens[pos];
    let k = option_at(cli, t);
    let j = arg_at(cli, t);
    if is_help_token(t) || is_version_token(t) {
        cli
    } else if k < cli.options.len() {
        if taken(cli, tokens, pos) == 1 {
            cli.set_value(k, tokens[pos + 1])
        } else {
            cli.set_value(k, Seq::empty())
        }
    } else if j < cli.args.len() {
        let run = tokens.subrange(pos + 1, pos + 1 + taken(cli, tokens, pos));
        cli.set_values(j, (cli.args[j].values + run).push(Seq::empty()))
    } else {
        cli
    }
}

/// What the token `t` writes out: a banner, or nothing.
pub open spec fn banner(cli: CliView, t: Seq<char>) -> Seq<char> {
    if is_help_token(t) {
        help_text(cli)
    } else if is_version_token(t) {
        version_text(cli)
    } else {
        Seq::empty()
    }
}

/// How many tokens stand at or after `pos`.
pub open spec fn tokens_left(tokens: Seq<Seq<char>>, pos: int) -> nat {
    if pos < tokens.len() {
        (tokens.len() - pos) as nat
    } else {
        0
    }
}

/// The definition after the tokens from `pos` on have been scanned.
pub open spec fn scan_from(cli: CliView, tokens: Seq<Seq<char>>, pos: int) -> CliView
    decreases tokens_left(tokens, pos),
{
    if 0 <= pos < tokens.len() {
        scan_from(settled(cli, tokens, pos), tokens, pos + 1 + taken(cli, tokens, pos))
    } else {
        cli
    }
}

/// What the scan of the tokens from `pos` on writes out.
pub open spec fn output_from(cli: CliView, tokens: Seq<Seq<char>>, pos: int) -> Seq<char>
    decreases tokens_left(tokens, pos),
{
    if 0 <= pos < tokens.len() {
        banner(cli, tokens[pos]) + output_from(
            settled(cli, tokens, pos),
            tokens,
            pos + 1 + taken(cli, tokens, pos),
        )
    } else {
        Seq::empty()
    }
}

/// The definition after a scan of `tokens`.
pub open spec fn scan(cli: CliView, tokens: Seq<Seq<char>>) -> CliView {
    scan_from(cli, tokens, 0)
}

/// What a scan of `tokens` writes out: the banners that the tokens ask for,
/// in their order.
pub open spec fn scan_output(cli: CliView, tokens: Seq<Seq<char>>) -> Seq<char> {
    output_from(cli, tokens, 0)
}

/// The tokens of an invocation without the first, which is the program's own
/// name.
pub open spec fn arguments(argv: Seq<Seq<char>>) -> Seq<Seq<char>> {
    if argv.len() > 0 {
        argv.drop_first()
    } else {
        argv
    }
}

/// A run ends within the tokens.
pub proof fn lemma_run_len_bound(tokens: Seq<Seq<char>>, from: int)
    requires
        0 <= from <= tokens.len(),
    ensures
        from + run_len(tokens, from) <= tokens.len(),
        forall|i: int| from <= i < from + run_len(tokens, from) ==> !is_dashed(#[trigger] tokens[i]),
        from + run_len(tokens, from) < tokens.len() ==> is_dashed(
            tokens[from + run_len(tokens, from)],
        ),
    decreases tokens.len() - from,
{
    if from < tokens.len() && !is_dashed(tokens[from]) {
        lemma_run_len_bound(tokens, from + 1);
    }
}

impl<'a> CLI<'a> {
    /// The index of the first option that `t` names, or the number of options.
    fn find_option(&self, t: &str) -> (k: usize)
        ensures
            k == option_at(self@, t@),
            k <= self.options@.len(),
    {
        let mut i: usize = 0;
        while i < self.options.len()
            invariant
                i <= self.options@.len(),
                option_from(self@, t@, i as int) == option_at(self@, t@),
            decreases self.options@.len() - i,
        {
            let o = &self.options[i];
            assert(self@.options[i as int] == o@);
            let by_short = match o.short {
                Some(s) => str_eq(s, t),
                None => false,
            };
            if str_eq(o.name, t) || by_short {
                return i;
            }
            i += 1;
        }
        i
    }

    /// The index of the first positional argument whose keyword is `t`, or
    /// the number of positional arguments.
    fn find_arg(&self, t: &str) -> (j: usize)
        ensures
            j == arg_at(self@, t@),
            j <= self.args@.len(),
    {
        let mut i: usize = 0;
        while i < self.args.len()
            invariant
                i <= self.args@.len(),
                arg_from(self@, t@, i as int) == arg_at(self@, t@),
            decreases self.args@.len() - i,
        {
            assert(self@.args[i as int] == self.args@[i as int]@);
            if str_eq(self.args[i].name, t) {
                return i;
            }
            i += 1;
        }
        i
    }

    /// Gives option `k` the value `v`.
    fn set_value(&mut self, k: usize, v: String)
        requires
            k < old(self).options@.len(),
        ensures
            final(self)@ == old(self)@.set_value(k as int, v@),
    {
        self.options[k].value = Some(v);
        assert(self@.options =~= old(self)@.set_value(k as int, v@).options);
        assert(self@.args =~= old(self)@.args);
    }

    /// Appends `v` to the values of positional argument `j`.
    fn push_value(&mut self, j: usize, v: String)
        requires
            j < old(self).args@.len(),
        ensures
            final(self)@ == old(self)@.set_values(
                j as int,
                old(self)@.args[j as int].values.push(v@),
            ),
    {
        self.args[j].values.push(v);
        assert(texts(self.args@[j as int].values@) =~= texts(old(self).args@[j as int].values@).push(
            v@,
        ));
        assert(self@.args =~= old(self)@.set_values(
            j as int,
            old(self)@.args[j as int].values.push(v@),
        ).args);
        assert(self@.options =~= old(self)@.options);
    }

    /// Gives option `k` its value: the token after the one at `pos`, unless
    /// that one is missing or starts with `-`. Returns the position of the
    /// next token to deal with.
    fn take_value(&mut self, k: usize, tokens: &[String], pos: usize) -> (next: usize)
        requires
            k < old(self).options@.len(),
            pos < tokens@.len(),
        ensures
            pos < next <= tokens@.len(),
            next == pos + 2 <==> pos + 1 < tokens@.len() && !is_dashed(
                texts(tokens@)[pos + 1],
            ),
            next == pos + 2 || next == pos + 1,
            next == pos + 2 ==> final(self)@ == old(self)@.set_value(
                k as int,
                texts(tokens@)[pos + 1],
            ),
            next == pos + 1 ==> final(self)@ == old(self)@.set_value(k as int, Seq::empty()),
    {
        let n = tokens.len();
        if pos + 1 < n {
            assert(tokens@[pos + 1]@ == texts(tokens@)[pos + 1]);
        }
        if pos + 1 < n && !starts_with_dash(tokens[pos + 1].as_str()) {
            self.set_value(k, tokens[pos + 1].clone());
            pos + 2
        } else {
            self.set_value(k, String::new());
            pos + 1
        }
    }

    /// Lets positional argument `j` capture the tokens after the one at
    /// `pos`, up to the next one that starts with `-`, and closes the run.
    /// Returns the position of the next token to deal with.
    fn take_run(&mut self, j: usize, tokens: &[String], pos: usize) -> (next: usize)
        requires
            j < old(self).args@.len(),
            pos < tokens@.len(),
        ensures
            next == pos + 1 + run_len(texts(tokens@), pos + 1),
            next <= tokens@.len(),
            final(self)@ == old(self)@.set_values(
                j as int,
                (old(self)@.args[j as int].values + texts(tokens@).subrange(
                    pos + 1,
                    next as int,
                )).push(Seq::empty()),
            ),
    {
        let ghost before = self@;
        let ghost toks = texts(tokens@);
        let ghost held = before.args[j as int].values;
        let n = tokens.len();
        let mut i: usize = pos + 1;
        proof {
            assert(held + toks.subrange(pos + 1, i as int) =~= held);
            assert(before.args.update(j as int, before.args[j as int].with_values(held))
                =~= before.args);
        }
        while i < n && !starts_with_dash(tokens[i].as_str())
            invariant
                n == tokens@.len(),
                pos + 1 <= i <= n,
                toks == texts(tokens@),
                j < self.args@.len(),
                j < before.args.len(),
                held == before.args[j as int].values,
                self@ == before.set_values(j as int, held + toks.subrange(pos + 1, i as int)),
                run_len(toks, pos + 1) == (i - (pos + 1)) + run_len(toks, i as int),
                i < n ==> tokens@[i as int]@ == toks[i as int],
            decreases n - i,
        {
            self.push_value(j, tokens[i].clone());
            proof {
                assert((held + toks.subrange(pos + 1, i as int)).push(toks[i as int]) =~= held
                    + toks.subrange(pos + 1, i + 1));
                assert(self@.args =~= before.set_values(
                    j as int,
                    held + toks.subrange(pos + 1, i + 1),
                ).args);
                if i + 1 < n {
                    assert(tokens@[i + 1]@ == toks[i + 1]);
                }
            }
            i += 1;
        }
        self.push_value(j, String::new());
        proof {
            assert(self@.args =~= before.set_values(
                j as int,
                (held + toks.subrange(pos + 1, i as int)).push(Seq::empty()),
            ).args);
        }
        i
    }

    /// Deals with the token at `pos`: appends to `out` what it writes out,
    /// and returns the position of the next token to deal with.
    fn scan_token(&mut self, tokens: &[String], pos: usize, out: &mut String) -> (next: usize)
        requires
            pos < tokens@.len(),
        ensures
            next == pos + 1 + taken(old(self)@, texts(tokens@), pos as int),
            next <= tokens@.len(),
            final(self)@ == settled(old(self)@, texts(tokens@), pos as int),
            final(out)@ == old(out)@ + banner(old(self)@, texts(tokens@)[pos as int]),
    {
        let t = tokens[pos].as_str();
        assert(t@ == texts(tokens@)[pos as int]);
        if str_eq(t, "--help") || str_eq(t, "-h") {
            let text = self.render_help();
            out.append(text.as_str());
            pos + 1
        } else if str_eq(t, "--version") || str_eq(t, "-v") {
            let text = self.render_version();
            out.append(text.as_str());
            pos + 1
        } else {
            assert(out@ + Seq::<char>::empty() =~= out@);
            let k = self.find_option(t);
            if k < self.options.len() {
                self.take_value(k, tokens, pos)
            } else {
                let j = self.find_arg(t);
                if j < self.args.len() {
                    self.take_run(j, tokens, pos)
                } else {
                    pos + 1
                }
            }
        }
    }

    /// Scans `tokens`, the arguments of the invocation without the program's
    /// own name, and returns what the scan writes out.
    ///
    /// An option that a token names gets the next token as its value, unless
    /// that one starts with `-` or is missing: then its value is empty. Where
    /// an option is met again, the later value stays. The keyword of a
    /// positional argument captures the tokens after it up to the next one
    /// that starts with `-`, and closes the run with an empty string.
    pub fn parse(&mut self, tokens: &[String]) -> (out: String)
        ensures
            final(self)@ == scan(old(self)@, texts(tokens@)),
            out@ == scan_output(old(self)@, texts(tokens@)),
            final(self)@.same_declarations(old(self)@),
            old(self)@.wf() ==> final(self)@.wf(),
    {
        let ghost start = self@;
        let ghost toks = texts(tokens@);
        let n = tokens.len();
        let mut out = String::new();
        let mut i: usize = 0;
        assert(out@ + scan_output(start, toks) =~= scan_output(start, toks));
        while i < n
            invariant
                n == tokens@.len(),
                i <= n,
                toks == texts(tokens@),
                scan_from(self@, toks, i as int) == scan(start, toks),
                out@ + output_from(self@, toks, i as int) == scan_output(start, toks),
            decreases n - i,
        {
            let ghost before = self@;
            let ghost shown = out@;
            let ghost rest = output_from(
                settled(before, toks, i as int),
                toks,
                i + 1 + taken(before, toks, i as int),
            );
            assert((shown + banner(before, toks[i as int])) + rest =~= shown + (banner(
                before,
                toks[i as int],
            ) + rest));
            i = self.scan_token(tokens, i, &mut out);
        }
        assert(out@ + Seq::<char>::empty() =~= out@);
        proof {
            lemma_scan_keeps_declarations(start, toks);
        }
        out
    }

    /// Scans the argument vector of an invocation: `argv` without its first
    /// item, which is the program's own name. Returns what the scan writes
    /// out.
    pub fn parse_args(&mut self, argv: &[String]) -> (out: String)
        ensures
            final(self)@ == scan(old(self)@, arguments(texts(argv@))),
            out@ == scan_output(old(self)@, arguments(texts(argv@))),
            final(self)@.same_declarations(old(self)@),
            old(self)@.wf() ==> final(self)@.wf(),
    {
        if argv.len() > 0 {
            let (_, tokens) = argv.split_at(1);
            assert(texts(tokens@) =~= arguments(texts(argv@)));
            self.parse(tokens)
        } else {
            assert(texts(argv@) =~= arguments(texts(argv@)));
            self.parse(argv)
        }
    }
}

} // verus!
