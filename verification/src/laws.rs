//! What holds of the library as a whole.

use vstd::prelude::*;
use crate::access::{found, lookup, named_arg, named_option};
use crate::manual::{manual_forms, Fault, Forms};
use crate::model::{lemma_first_from, ArgView, CliView, OptView};
use crate::render::{
    help_head, help_text, option_line, option_lines, shown_name, shown_version, text_or_empty,
    title_line, version_text,
};
use crate::style::{blue_text, bold_text, cyan_text, italic_text, red_text, yellow_text};
use crate::scan::{
    arg_at, is_help_token, is_version_token, lemma_run_len_bound, option_at, scan, scan_from,
    scan_output, settled, taken, tokens_left,
};
use crate::text::{
    after_head, all_space, head_field, is_dashed, is_double_dashed, is_space,
    lemma_field_len_prefix, lemma_trimmed_padded, trimmed, COMMA,
};

verus! {

/// A declaration that gives a short form, a separator and a long form yields
/// exactly these two forms, whatever white space stands before, between and
/// behind them.
pub proof fn lemma_forms_of_pair(
    short: Seq<char>,
    long: Seq<char>,
    w0: Seq<char>,
    w1: Seq<char>,
    w2: Seq<char>,
    w3: Seq<char>,
)
    requires
        is_dashed(short),
        is_double_dashed(long),
        !is_space(short.last()),
        !is_space(long.last()),
        !short.contains(COMMA),
        !long.contains(COMMA),
        all_space(w0),
        all_space(w1),
        all_space(w2),
        all_space(w3),
    ensures
        manual_forms(w0 + short + w1 + seq![COMMA] + w2 + long + w3) == Ok::<Forms, Fault>(
            Forms { name: long, short: Some(short) },
        ),
{
    let manual = w0 + short + w1 + seq![COMMA] + w2 + long + w3;
    let whole = short + w1 + seq![COMMA] + w2 + long;
    let first = short + w1;
    let second = w2 + long;
    let none = Seq::<char>::empty();
    assert(manual.contains(COMMA)) by {
        assert(manual[(w0.len() + short.len() + w1.len()) as int] == COMMA);
    }
    assert(trimmed(manual) == whole) by {
        assert(manual =~= w0 + whole + w3);
        assert(whole.first() == short[0]);
        assert(whole.last() == long.last());
        lemma_trimmed_padded(w0, whole, w3);
    }
    assert(!first.contains(COMMA)) by {
        if first.contains(COMMA) {
            let i = choose|i: int| 0 <= i < first.len() && first[i] == COMMA;
            if i < short.len() {
                assert(short[i] == COMMA);
            } else {
                assert(w1[i - short.len()] == COMMA);
            }
        }
    }
    assert(!second.contains(COMMA)) by {
        if second.contains(COMMA) {
            let i = choose|i: int| 0 <= i < second.len() && second[i] == COMMA;
            if i < w2.len() {
                assert(w2[i] == COMMA);
            } else {
                assert(long[i - w2.len()] == COMMA);
            }
        }
    }
    assert(whole =~= first + seq![COMMA] + second);
    lemma_field_len_prefix(first, second);
    assert(head_field(whole) =~= first);
    assert(after_head(whole) =~= second);
    lemma_field_len_prefix(second, none);
    assert(head_field(second) =~= second);
    assert(trimmed(first) == short) by {
        assert(first =~= none + short + w1);
        lemma_trimmed_padded(none, short, w1);
    }
    assert(trimmed(second) == long) by {
        assert(second =~= w2 + long + none);
        lemma_trimmed_padded(w2, long, none);
    }
}

/// A declaration is refused exactly where a form lacks its marker: without a
/// separator, where the trimmed declaration does not start with `--`; with a
/// separator, where the trimmed first part does not start with `-` or the
/// trimmed second part does not start with `--`.
pub proof fn lemma_refused_without_marker(manual: Seq<char>)
    ensures
        !manual.contains(COMMA) ==> (manual_forms(manual) is Err <==> !is_double_dashed(
            trimmed(manual),
        )),
        manual.contains(COMMA) ==> (manual_forms(manual) is Err <==> (!is_dashed(
            trimmed(head_field(trimmed(manual))),
        ) || !is_double_dashed(trimmed(head_field(after_head(trimmed(manual))))))),
        manual_forms(manual) matches Ok(forms) ==> is_double_dashed(forms.name) && (
        forms.short matches Some(s) ==> is_dashed(s)),
{
}

/// An accepted declaration adds a well-formed option to a well-formed
/// definition.
pub proof fn lemma_declared_option_is_well_formed(
    cli: CliView,
    manual: Seq<char>,
    description: Seq<char>,
)
    requires
        cli.wf(),
        manual_forms(manual) is Ok,
    ensures
        cli.declare_option(
            manual_forms(manual)->Ok_0.name,
            manual_forms(manual)->Ok_0.short,
            manual,
            description,
        ).wf(),
{
    let forms = manual_forms(manual)->Ok_0;
    let next = cli.declare_option(forms.name, forms.short, manual, description);
    lemma_refused_without_marker(manual);
    assert forall|i: int| 0 <= i < next.options.len() implies (#[trigger] next.options[i]).wf() by {
        if i < cli.options.len() {
            assert(next.options[i] == cli.options[i]);
        }
    }
}

/// One step of a scan changes values only: every declaration stays as it was.
pub proof fn lemma_step_keeps_declarations(cli: CliView, tokens: Seq<Seq<char>>, pos: int)
    requires
        0 <= pos < tokens.len(),
    ensures
        settled(cli, tokens, pos).same_declarations(cli),
{
    let t = tokens[pos];
    lemma_first_from(cli.options, |o: OptView| o.answers(t), 0);
    lemma_first_from(cli.args, |a: ArgView| a.name == t, 0);
}

/// A scan changes values only: every declaration stays as it was.
pub proof fn lemma_scan_from_keeps_declarations(cli: CliView, tokens: Seq<Seq<char>>, pos: int)
    ensures
        scan_from(cli, tokens, pos).same_declarations(cli),
    decreases tokens_left(tokens, pos),
{
    if 0 <= pos < tokens.len() {
        let next = settled(cli, tokens, pos);
        lemma_step_keeps_declarations(cli, tokens, pos);
        lemma_scan_from_keeps_declarations(next, tokens, pos + 1 + taken(cli, tokens, pos));
        let end = scan_from(cli, tokens, pos);
        assert forall|i: int| 0 <= i < end.options.len() implies (
        #[trigger] end.options[i]).same_declaration(cli.options[i]) by {
            assert(end.options[i].same_declaration(next.options[i]));
            assert(next.options[i].same_declaration(cli.options[i]));
        }
        assert forall|i: int| 0 <= i < end.args.len() implies (
        #[trigger] end.args[i]).same_declaration(cli.args[i]) by {
            assert(end.args[i].same_declaration(next.args[i]));
            assert(next.args[i].same_declaration(cli.args[i]));
        }
    }
}

/// A scan changes values only, and so keeps a well-formed definition well
/// formed.
pub proof fn lemma_scan_keeps_declarations(cli: CliView, tokens: Seq<Seq<char>>)
    ensures
        scan(cli, tokens).same_declarations(cli),
        cli.wf() ==> scan(cli, tokens).wf(),
{
    lemma_scan_from_keeps_declarations(cli, tokens, 0);
    let end = scan(cli, tokens);
    if cli.wf() {
        assert forall|i: int| 0 <= i < end.options.len() implies (#[trigger] end.options[i]).wf() by {
            assert(end.options[i].same_declaration(cli.options[i]));
            assert(cli.options[i].wf());
        }
        assert forall|i: int| 0 <= i < end.args.len() implies (#[trigger] end.args[i]).wf() by {
            assert(end.args[i].same_declaration(cli.args[i]));
            assert(cli.args[i].wf());
        }
    }
}

/// Whether `name` is the long form of an option or the name of a positional
/// argument of `cli`.
pub open spec fn is_declared(cli: CliView, name: Seq<char>) -> bool {
    ||| exists|i: int| 0 <= i < cli.options.len() && (#[trigger] cli.options[i]).name == name
    ||| exists|i: int| 0 <= i < cli.args.len() && (#[trigger] cli.args[i]).name == name
}

/// A name that was never declared stands for nothing.
pub proof fn lemma_undeclared_not_found(cli: CliView, name: Seq<char>)
    requires
        !is_declared(cli, name),
    ensures
        lookup(cli, name) is None,
{
    lemma_first_from(cli.options, |o: OptView| o.name == name, 0);
    lemma_first_from(cli.args, |a: ArgView| a.name == name, 0);
    let k = named_option(cli, name);
    let j = named_arg(cli, name);
    if k < cli.options.len() {
        assert(cli.options[k].name == name);
    }
    if j < cli.args.len() {
        assert(cli.args[j].name == name);
    }
}

/// A name that was never declared stands for nothing after any scan either.
pub proof fn lemma_undeclared_not_found_after_scan(
    cli: CliView,
    tokens: Seq<Seq<char>>,
    name: Seq<char>,
)
    requires
        !is_declared(cli, name),
    ensures
        lookup(scan(cli, tokens), name) is None,
{
    let end = scan(cli, tokens);
    lemma_scan_keeps_declarations(cli, tokens);
    assert(!is_declared(end, name)) by {
        if is_declared(end, name) {
            if exists|i: int| 0 <= i < end.options.len() && (#[trigger] end.options[i]).name == name {
                let i = choose|i: int|
                    0 <= i < end.options.len() && (#[trigger] end.options[i]).name == name;
                assert(end.options[i].same_declaration(cli.options[i]));
                assert(cli.options[i].name == name);
            } else {
                let i = choose|i: int|
                    0 <= i < end.args.len() && (#[trigger] end.args[i]).name == name;
                assert(end.args[i].same_declaration(cli.args[i]));
                assert(cli.args[i].name == name);
            }
        }
    }
    lemma_undeclared_not_found(end, name);
}

/// A declaration that no scan has met stands for nothing: where no option
/// has a value and no positional argument has captured anything, every name
/// is looked up in vain.
pub proof fn lemma_unmet_not_found(cli: CliView, name: Seq<char>)
    requires
        forall|i: int| 0 <= i < cli.options.len() ==> (#[trigger] cli.options[i]).value is None,
        forall|i: int| 0 <= i < cli.args.len() ==> (#[trigger] cli.args[i]).values.len() == 0,
    ensures
        lookup(cli, name) is None,
{
    lemma_first_from(cli.options, |o: OptView| o.name == name, 0);
    lemma_first_from(cli.args, |a: ArgView| a.name == name, 0);
    let k = named_option(cli, name);
    let j = named_arg(cli, name);
    if k < cli.options.len() {
        assert(cli.options[k].value is None);
    }
    if j < cli.args.len() {
        assert(cli.args[j].values.len() == 0);
    }
}

/// Looking a name up again gives the same: two answers for one name on one
/// definition are equal.
pub proof fn lemma_lookup_repeatable(
    cli: CliView,
    name: Seq<char>,
    first: Option<&[String]>,
    second: Option<&[String]>,
)
    requires
        found(first) == lookup(cli, name),
        found(second) == lookup(cli, name),
    ensures
        found(first) == found(second),
{
}

/// An option followed by a token that does not start with `-` takes that
/// token as its value, and the scan goes on behind it.
pub proof fn lemma_option_takes_value(cli: CliView, tokens: Seq<Seq<char>>, pos: int)
    requires
        0 <= pos,
        pos + 1 < tokens.len(),
        !is_help_token(tokens[pos]),
        !is_version_token(tokens[pos]),
        option_at(cli, tokens[pos]) < cli.options.len(),
        !is_dashed(tokens[pos + 1]),
    ensures
        0 <= option_at(cli, tokens[pos]),
        cli.options[option_at(cli, tokens[pos])].answers(tokens[pos]),
        settled(cli, tokens, pos).options[option_at(cli, tokens[pos])].value == Some(
            tokens[pos + 1],
        ),
        taken(cli, tokens, pos) == 1,
{
    lemma_first_from(cli.options, |o: OptView| o.answers(tokens[pos]), 0);
}

/// An option followed by a token that starts with `-`, or by none, is met as
/// a flag: its value is empty, and the scan goes on with the very next token.
pub proof fn lemma_option_as_flag(cli: CliView, tokens: Seq<Seq<char>>, pos: int)
    requires
        0 <= pos < tokens.len(),
        !is_help_token(tokens[pos]),
        !is_version_token(tokens[pos]),
        option_at(cli, tokens[pos]) < cli.options.len(),
        pos + 1 < tokens.len() ==> is_dashed(tokens[pos + 1]),
    ensures
        0 <= option_at(cli, tokens[pos]),
        cli.options[option_at(cli, tokens[pos])].answers(tokens[pos]),
        settled(cli, tokens, pos).options[option_at(cli, tokens[pos])].value == Some(
            Seq::<char>::empty(),
        ),
        taken(cli, tokens, pos) == 0,
{
    lemma_first_from(cli.options, |o: OptView| o.answers(tokens[pos]), 0);
}

/// The keyword of a positional argument, where no option answers to it,
/// captures the tokens behind it up to the first that starts with `-`, in
/// their order, and closes the run with one empty text; the scan goes on at
/// that token, or ends with the tokens.
pub proof fn lemma_positional_captures_run(cli: CliView, tokens: Seq<Seq<char>>, pos: int)
    requires
        0 <= pos < tokens.len(),
        !is_help_token(tokens[pos]),
        !is_version_token(tokens[pos]),
        option_at(cli, tokens[pos]) >= cli.options.len(),
        arg_at(cli, tokens[pos]) < cli.args.len(),
    ensures
        0 <= arg_at(cli, tokens[pos]),
        cli.args[arg_at(cli, tokens[pos])].name == tokens[pos],
        pos + 1 + taken(cli, tokens, pos) <= tokens.len(),
        settled(cli, tokens, pos).args[arg_at(cli, tokens[pos])].values == (cli.args[arg_at(
            cli,
            tokens[pos],
        )].values + tokens.subrange(pos + 1, pos + 1 + taken(cli, tokens, pos))).push(
            Seq::<char>::empty(),
        ),
        forall|i: int|
            pos + 1 <= i < pos + 1 + taken(cli, tokens, pos) ==> !is_dashed(#[trigger] tokens[i]),
        pos + 1 + taken(cli, tokens, pos) < tokens.len() ==> is_dashed(
            tokens[pos + 1 + taken(cli, tokens, pos)],
        ),
{
    lemma_first_from(cli.args, |a: ArgView| a.name == tokens[pos], 0);
    lemma_run_len_bound(tokens, pos + 1);
}

/// A built-in token changes nothing in the definition, whatever was declared
/// under its name, and takes no token with it.
pub proof fn lemma_built_in_token_keeps_definition(
    cli: CliView,
    tokens: Seq<Seq<char>>,
    pos: int,
)
    requires
        0 <= pos < tokens.len(),
        is_help_token(tokens[pos]) || is_version_token(tokens[pos]),
    ensures
        settled(cli, tokens, pos) == cli,
        taken(cli, tokens, pos) == 0,
{
}

/// A token that is neither built in nor declared changes nothing.
pub proof fn lemma_unknown_token_ignored(cli: CliView, tokens: Seq<Seq<char>>, pos: int)
    requires
        0 <= pos < tokens.len(),
        option_at(cli, tokens[pos]) >= cli.options.len(),
        arg_at(cli, tokens[pos]) >= cli.args.len(),
    ensures
        settled(cli, tokens, pos) == cli,
        taken(cli, tokens, pos) == 0,
{
}

/// Whether `part` stands somewhere in `whole`, in one piece.
pub open spec fn occurs_in(part: Seq<char>, whole: Seq<char>) -> bool {
    exists|i: int|
        0 <= i && i + part.len() <= whole.len() && #[trigger] whole.subrange(i, i + part.len())
            == part
}

/// A text stands in whatever is put together around it.
pub proof fn lemma_occurs_between(front: Seq<char>, part: Seq<char>, back: Seq<char>)
    ensures
        occurs_in(part, front + part + back),
{
    let whole = front + part + back;
    let i = front.len() as int;
    assert(whole.subrange(i, i + part.len()) =~= part);
}

/// What stands in a text stands in it with more text behind it.
pub proof fn lemma_occurs_before(part: Seq<char>, whole: Seq<char>, back: Seq<char>)
    requires
        occurs_in(part, whole),
    ensures
        occurs_in(part, whole + back),
{
    let i = choose|i: int|
        0 <= i && i + part.len() <= whole.len() && #[trigger] whole.subrange(i, i + part.len())
            == part;
    assert((whole + back).subrange(i, i + part.len()) =~= whole.subrange(i, i + part.len()));
}

/// What stands in a text stands in it with more text in front of it.
pub proof fn lemma_occurs_after(front: Seq<char>, part: Seq<char>, whole: Seq<char>)
    requires
        occurs_in(part, whole),
    ensures
        occurs_in(part, front + whole),
{
    let i = choose|i: int|
        0 <= i && i + part.len() <= whole.len() && #[trigger] whole.subrange(i, i + part.len())
            == part;
    let j = front.len() + i;
    assert((front + whole).subrange(j, j + part.len()) =~= whole.subrange(i, i + part.len()));
}

/// What stands in the title line stands in the help banner.
proof fn lemma_title_in_help(cli: CliView, part: Seq<char>)
    requires
        occurs_in(part, title_line(cli)),
    ensures
        occurs_in(part, help_text(cli)),
{
    let s0 = title_line(cli);
    let s1 = s0 + italic_text(text_or_empty(cli.description));
    let s2 = s1 + "\n"@;
    let s3 = s2 + "\n"@;
    let s4 = s3 + bold_text(yellow_text("Options:"@));
    let s5 = s4 + "\n"@;
    let s6 = s5 + option_line("--help"@, "-h"@, "Print this message"@);
    let s7 = s6 + option_line("--version"@, "-v"@, "Print the application version"@);
    let s8 = s7 + option_lines(cli.options);
    lemma_occurs_before(part, s0, italic_text(text_or_empty(cli.description)));
    lemma_occurs_before(part, s1, "\n"@);
    lemma_occurs_before(part, s2, "\n"@);
    lemma_occurs_before(part, s3, bold_text(yellow_text("Options:"@)));
    lemma_occurs_before(part, s4, "\n"@);
    lemma_occurs_before(part, s5, option_line("--help"@, "-h"@, "Print this message"@));
    lemma_occurs_before(
        part,
        s6,
        option_line("--version"@, "-v"@, "Print the application version"@),
    );
    assert(s7 == help_head(cli));
    lemma_occurs_before(part, s7, option_lines(cli.options));
    lemma_occurs_before(part, s8, "\n"@);
}

/// A text stands in its bold and coloured form, whatever the colour's
/// escape sequence.
proof fn lemma_occurs_in_bold(part: Seq<char>, colour: Seq<char>)
    ensures
        occurs_in(part, bold_text(colour + part + "\x1B[0m"@)),
{
    let inner = colour + part + "\x1B[0m"@;
    lemma_occurs_between(colour, part, "\x1B[0m"@);
    lemma_occurs_after("\x1B[1m"@, part, inner);
    lemma_occurs_before(part, "\x1B[1m"@ + inner, "\x1B[22m\x1B[0m"@);
}

/// The help banner shows the name and the version of the program, and the
/// version banner the version.
pub proof fn lemma_banners_show_name_and_version(cli: CliView)
    ensures
        occurs_in(shown_name(cli), help_text(cli)),
        occurs_in(shown_version(cli), help_text(cli)),
        occurs_in(shown_version(cli), version_text(cli)),
{
    let name = shown_name(cli);
    let version = shown_version(cli);
    let b1 = bold_text(red_text(name));
    let b2 = bold_text(cyan_text("v"@));
    let b3 = bold_text(cyan_text(version));
    let t1 = "\n"@ + b1;
    let t2 = t1 + ", "@;
    let t3 = t2 + b2;
    let t4 = t3 + b3;
    assert(occurs_in(name, title_line(cli))) by {
        lemma_occurs_in_bold(name, "\x1B[31m"@);
        lemma_occurs_after("\n"@, name, b1);
        lemma_occurs_before(name, t1, ", "@);
        lemma_occurs_before(name, t2, b2);
        lemma_occurs_before(name, t3, b3);
        lemma_occurs_before(name, t4, "\n"@);
    }
    assert(occurs_in(version, title_line(cli))) by {
        lemma_occurs_in_bold(version, "\x1B[36m"@);
        lemma_occurs_after(t3, version, b3);
        lemma_occurs_before(version, t4, "\n"@);
    }
    lemma_title_in_help(cli, name);
    lemma_title_in_help(cli, version);
    assert(occurs_in(version, version_text(cli))) by {
        let v1 = bold_text(blue_text("v"@));
        let v2 = bold_text(blue_text(version));
        lemma_occurs_in_bold(version, "\x1B[34m"@);
        lemma_occurs_after(v1, version, v2);
        lemma_occurs_before(version, v1 + v2, "\n"@);
    }
}

/// A scan of the one token that asks for help writes out the help banner,
/// and with it the name and the version of the program.
pub proof fn lemma_help_token_writes_banner(cli: CliView, token: Seq<char>)
    requires
        is_help_token(token),
    ensures
        scan_output(cli, seq![token]) == help_text(cli),
        scan(cli, seq![token]) == cli,
        occurs_in(shown_name(cli), scan_output(cli, seq![token])),
        occurs_in(shown_version(cli), scan_output(cli, seq![token])),
{
    let tokens = seq![token];
    assert(tokens[0] == token);
    assert(scan_output(cli, tokens) =~= help_text(cli)) by {
        reveal_with_fuel(crate::scan::output_from, 3);
    }
    assert(scan(cli, tokens) == cli) by {
        reveal_with_fuel(crate::scan::scan_from, 3);
    }
    lemma_banners_show_name_and_version(cli);
}

} // verus!
