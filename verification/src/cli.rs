//! The definition of a command-line interface, and how it is built.

use vstd::prelude::*;
use crate::laws::lemma_declared_option_is_well_formed;
use crate::manual::{manual_forms, parse_manual, Fault, Forms, ManualError};
use crate::model::{text_of, texts, value_of, ArgView, CliView, OptView};
use crate::text::DASH;

verus! {

/// An option: a flag that may carry a value.
#[derive(Clone, Debug)]
pub struct Opt<'a> {
    /// The long form, such as `--run`.
    pub name: &'a str,
    /// The short form, such as `-r`.
    pub short: Option<&'a str>,
    /// The declaration as it was given, such as `-r, --run`.
    pub manual: &'a str,
    /// What the option is for.
    pub description: &'a str,
    /// `None` until a scan meets the option; empty where it stood alone as a
    /// flag; else the token that followed it.
    pub value: Option<String>,
}

/// A positional argument: a keyword, and the tokens that follow it.
#[derive(Clone, Debug)]
pub struct Arg<'a> {
    /// The keyword that introduces the argument, such as `build`.
    pub name: &'a str,
    /// How to use it, such as `build [targets]`.
    pub manual: &'a str,
    /// What the argument is for.
    pub description: &'a str,
    /// The tokens captured so far, in the order of the scan. Each run of
    /// captured tokens is closed by one empty string.
    pub values: Vec<String>,
}

/// The definition of a command-line interface.
#[derive(Debug)]
pub struct CLI<'a> {
    /// The name of the program, where one was set.
    pub name: Option<&'a str>,
    /// The version of the program, where one was set.
    pub version: Option<&'a str>,
    /// What the program is for, where that was set.
    pub description: Option<&'a str>,
    /// The options, in the order of their declaration.
    pub options: Vec<Opt<'a>>,
    /// The positional arguments, in the order of their declaration.
    pub args: Vec<Arg<'a>>,
}

impl<'a> View for Opt<'a> {
    type V = OptView;

    open spec fn view(&self) -> OptView {
        OptView {
            name: self.name@,
            short: text_of(self.short),
            manual: self.manual@,
            description: self.description@,
            value: value_of(self.value),
        }
    }
}

impl<'a> View for Arg<'a> {
    type V = ArgView;

    open spec fn view(&self) -> ArgView {
        ArgView {
            name: self.name@,
            manual: self.manual@,
            description: self.description@,
            values: texts(self.values@),
        }
    }
}

impl<'a> View for CLI<'a> {
    type V = CliView;

    open spec fn view(&self) -> CliView {
        CliView {
            name: text_of(self.name),
            version: text_of(self.version),
            description: text_of(self.description),
            options: self.options@.map_values(|o: Opt<'a>| o@),
            args: self.args@.map_values(|a: Arg<'a>| a@),
        }
    }
}

impl<'a> CLI<'a> {
    /// A definition without a name, a version, a description or any
    /// declaration.
    pub fn new() -> (res: Self)
        ensures
            res@ == (CliView {
                name: None,
                version: None,
                description: None,
                options: Seq::empty(),
                args: Seq::empty(),
            }),
            res@.wf(),
    {
        let res = CLI {
            name: None,
            version: None,
            description: None,
            options: Vec::new(),
            args: Vec::new(),
        };
        assert(res@.options =~= Seq::empty());
        assert(res@.args =~= Seq::empty());
        res
    }

    /// Sets the name of the program.
    pub fn name(&mut self, name: &'a str) -> (res: &mut Self)
        ensures
            res@ == (CliView { name: Some(name@), ..old(self)@ }),
            *final(self) == *final(res),
    {
        self.name = Some(name);
        self
    }

    /// Sets the version of the program.
    pub fn version(&mut self, version: &'a str) -> (res: &mut Self)
        ensures
            res@ == (CliView { version: Some(version@), ..old(self)@ }),
            *final(self) == *final(res),
    {
        self.version = Some(version);
        self
    }

    /// Sets the description of the program.
    pub fn description(&mut self, desc: &'a str) -> (res: &mut Self)
        ensures
            res@ == (CliView { description: Some(desc@), ..old(self)@ }),
            *final(self) == *final(res),
    {
        self.description = Some(desc);
        self
    }

    /// Declares a positional argument, after those declared before. The name
    /// is not examined: one declared twice stands twice, and a lookup finds
    /// the first.
    pub fn arg(&mut self, name: &'a str, manual: &'a str, description: &'a str) -> (res: &mut Self)
        ensures
            res@ == old(self)@.declare_arg(name@, manual@, description@),
            res@.wf() <==> old(self)@.wf() && name@.len() > 0 && !name@.contains(DASH),
            *final(self) == *final(res),
    {
        self.args.push(Arg { name, manual, description, values: Vec::new() });
        assert(self@.args =~= old(self)@.args.push(
            ArgView {
                name: name@,
                manual: manual@,
                description: description@,
                values: Seq::empty(),
            },
        )) by {
            assert(texts(Seq::<String>::empty()) =~= Seq::empty());
        }
        proof {
            let before = old(self)@;
            let after = self@;
            let n = before.args.len() as int;
            assert(after.args[n].name == name@);
            assert(after.options == before.options);
            if after.wf() {
                assert(after.args[n].wf());
                assert forall|i: int| 0 <= i < before.args.len() implies (
                #[trigger] before.args[i]).wf() by {
                    assert(after.args[i] == before.args[i]);
                }
            }
            if before.wf() && name@.len() > 0 && !name@.contains(DASH) {
                assert forall|i: int| 0 <= i < after.args.len() implies (
                #[trigger] after.args[i]).wf() by {
                    if i < n {
                        assert(after.args[i] == before.args[i]);
                    }
                }
            }
        }
        self
    }

    /// Declares an option, after those declared before, unless `manual` is
    /// refused: then nothing changes.
    pub fn option<'b>(&'b mut self, manual: &'a str, description: &'a str) -> (res: Result<
        &'b mut Self,
        ManualError<'a>,
    >)
        ensures
            match res {
                Ok(cli) => {
                    &&& manual_forms(manual@) matches Ok(forms)
                    &&& cli@ == old(self)@.declare_option(
                        forms.name,
                        forms.short,
                        manual@,
                        description@,
                    )
                    &&& old(self)@.wf() ==> cli@.wf()
                    &&& *final(self) == *final(cli)
                },
                Err(e) => {
                    &&& manual_forms(manual@) == Err::<Forms, Fault>(e@)
                    &&& *final(self) == *old(self)
                },
            },
    {
        match parse_manual(manual) {
            Ok((name, short)) => {
                self.options.push(Opt { name, short, manual, description, value: None });
                assert(self@.options =~= old(self)@.options.push(
                    OptView {
                        name: name@,
                        short: text_of(short),
                        manual: manual@,
                        description: description@,
                        value: None,
                    },
                ));
                proof {
                    if old(self)@.wf() {
                        lemma_declared_option_is_well_formed(old(self)@, manual@, description@);
                    }
                }
                Ok(self)
            },
            Err(e) => Err(e),
        }
    }
}

} // verus!
