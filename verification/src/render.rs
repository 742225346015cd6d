//! The help and version banners.

use vstd::prelude::*;
use vstd::string::*;
use crate::cli::CLI;
use crate::model::{CliView, OptView};
use crate::style::{
    blue, blue_text, bold, bold_text, cyan, cyan_text, italic, italic_text, red, red_text, yellow,
    yellow_text,
};

verus! {

/// The text `t`, or empty text where there is none.
pub open spec fn text_or_empty(t: Option<Seq<char>>) -> Seq<char> {
    match t {
        Some(s) => s,
        None => Seq::empty(),
    }
}

/// The name shown for a program: its own, or a placeholder.
pub open spec fn shown_name(cli: CliView) -> Seq<char> {
    match cli.name {
        Some(s) => s,
        None => "My Program"@,
    }
}

/// The version shown for a program: its own, or `0.0.1`.
pub open spec fn shown_version(cli: CliView) -> Seq<char> {
    match cli.version {
        Some(s) => s,
        None => "0.0.1"@,
    }
}

/// The first line of the help banner, after an empty line: the name in bold
/// red, then the version in bold cyan.
pub open spec fn title_line(cli: CliView) -> Seq<char> {
    "\n"@ + bold_text(red_text(shown_name(cli))) + ", "@ + bold_text(cyan_text("v"@)) + bold_text(
        cyan_text(shown_version(cli)),
    ) + "\n"@
}

/// The line of one option in the help banner: both forms in blue, then the
/// description.
pub open spec fn option_line(name: Seq<char>, short: Seq<char>, description: Seq<char>) -> Seq<
    char,
> {
    "\t"@ + blue_text(name) + ", "@ + blue_text(short) + " \t"@ + description + "\n"@
}

/// The lines of the declared options, in the order of their declaration.
pub open spec fn option_lines(options: Seq<OptView>) -> Seq<char>
    decreases options.len(),
{
    if options.len() == 0 {
        Seq::empty()
    } else {
        let o = options.last();
        option_lines(options.drop_last()) + option_line(
            o.name,
            text_or_empty(o.short),
            o.description,
        )
    }
}

/// The help banner up to the lines of the declared options.
pub open spec fn help_head(cli: CliView) -> Seq<char> {
    title_line(cli) + italic_text(text_or_empty(cli.description)) + "\n"@ + "\n"@ + bold_text(
        yellow_text("Options:"@),
    ) + "\n"@ + option_line("--help"@, "-h"@, "Print this message"@) + option_line(
        "--version"@,
        "-v"@,
        "Print the application version"@,
    )
}

/// The help banner: the title, the description, the two built-in options, the
/// declared options, and an empty line.
pub open spec fn help_text(cli: CliView) -> Seq<char> {
    help_head(cli) + option_lines(cli.options) + "\n"@
}

/// The version banner: the version in bold blue.
pub open spec fn version_text(cli: CliView) -> Seq<char> {
    bold_text(blue_text("v"@)) + bold_text(blue_text(shown_version(cli))) + "\n"@
}

/// Appends the line of one option to `out`.
fn push_option_line(out: &mut String, name: &str, short: &str, description: &str)
    ensures
        final(out)@ == old(out)@ + option_line(name@, short@, description@),
{
    let n = blue(name);
    let s = blue(short);
    out.append("\t");
    out.append(n.as_str());
    out.append(", ");
    out.append(s.as_str());
    out.append(" \t");
    out.append(description);
    out.append("\n");
    assert(out@ =~= old(out)@ + option_line(name@, short@, description@));
}

impl<'a> CLI<'a> {
    /// The help banner of this definition.
    pub fn render_help(&self) -> (out: String)
        ensures
            out@ == help_text(self@),
    {
        let name = match self.name {
            Some(s) => s,
            None => "My Program",
        };
        let version = match self.version {
            Some(s) => s,
            None => "0.0.1",
        };
        let description = match self.description {
            Some(s) => s,
            None => "",
        };
        proof {
            reveal_strlit("");
        }
        assert(description@ =~= text_or_empty(self@.description));
        let title = bold(red(name).as_str());
        let v = bold(cyan("v").as_str());
        let number = bold(cyan(version).as_str());
        let about = italic(description);
        let heading = bold(yellow("Options:").as_str());
        let mut out = String::from_str("\n");
        out.append(title.as_str());
        out.append(", ");
        out.append(v.as_str());
        out.append(number.as_str());
        out.append("\n");
        assert(out@ =~= title_line(self@));
        out.append(about.as_str());
        out.append("\n");
        out.append("\n");
        out.append(heading.as_str());
        out.append("\n");
        push_option_line(&mut out, "--help", "-h", "Print this message");
        push_option_line(&mut out, "--version", "-v", "Print the application version");
        assert(out@ =~= help_head(self@));
        let mut i: usize = 0;
        while i < self.options.len()
            invariant
                i <= self.options@.len(),
                out@ == help_head(self@) + option_lines(self@.options.take(i as int)),
            decreases self.options@.len() - i,
        {
            let o = &self.options[i];
            let short = match o.short {
                Some(s) => s,
                None => "",
            };
            proof {
                reveal_strlit("");
                assert(self@.options[i as int] == o@);
            }
            assert(short@ =~= text_or_empty(self@.options[i as int].short));
            push_option_line(&mut out, o.name, short, o.description);
            proof {
                let next = self@.options.take(i + 1);
                assert(next.drop_last() =~= self@.options.take(i as int));
                assert(next.last() == self@.options[i as int]);
                assert(out@ =~= help_head(self@) + option_lines(next));
            }
            i += 1;
        }
        assert(self@.options.take(i as int) =~= self@.options);
        out.append("\n");
        out
    }

    /// The version banner of this definition.
    pub fn render_version(&self) -> (out: String)
        ensures
            out@ == version_text(self@),
    {
        let version = match self.version {
            Some(s) => s,
            None => "0.0.1",
        };
        let mut out = bold(blue("v").as_str());
        let number = bold(blue(version).as_str());
        out.append(number.as_str());
        out.append("\n");
        out
    }
}

} // verus!
