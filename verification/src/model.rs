//! The mathematical model of a definition: what its contracts speak of.

use vstd::prelude::*;
use crate::text::{is_dashed, is_double_dashed, DASH};

verus! {

/// An option as plain values.
pub struct OptView {
    /// The long form, such as `--run`.
    pub name: Seq<char>,
    /// The short form, such as `-r`.
    pub short: Option<Seq<char>>,
    /// The declaration as it was given.
    pub manual: Seq<char>,
    /// What the option is for.
    pub description: Seq<char>,
    /// `None` until a scan meets the option; empty where it stood alone as a
    /// flag; else the token that followed it.
    pub value: Option<Seq<char>>,
}

/// A positional argument as plain values.
pub struct ArgView {
    /// The keyword that introduces the argument.
    pub name: Seq<char>,
    /// How to use it.
    pub manual: Seq<char>,
    /// What the argument is for.
    pub description: Seq<char>,
    /// The tokens captured so far, in the order of the scan. Each run of
    /// captured tokens is closed by one empty text.
    pub values: Seq<Seq<char>>,
}

/// A definition as plain values.
pub struct CliView {
    /// The name of the program, where one was set.
    pub name: Option<Seq<char>>,
    /// The version of the program, where one was set.
    pub version: Option<Seq<char>>,
    /// What the program is for, where that was set.
    pub description: Option<Seq<char>>,
    /// The options, in the order of their declaration.
    pub options: Seq<OptView>,
    /// The positional arguments, in the order of their declaration.
    pub args: Seq<ArgView>,
}

impl OptView {
    /// The long form starts with `--`, and the short form, if any, with `-`.
    pub open spec fn wf(self) -> bool {
        &&& is_double_dashed(self.name)
        &&& self.short matches Some(s) ==> is_dashed(s)
    }

    /// Whether the token `t` names this option, by either form.
    pub open spec fn answers(self, t: Seq<char>) -> bool {
        self.name == t || self.short == Some(t)
    }

    /// This option with `v` as its value.
    pub open spec fn with_value(self, v: Seq<char>) -> OptView {
        OptView { value: Some(v), ..self }
    }

    /// Whether `other` is the same declaration, whatever the values.
    pub open spec fn same_declaration(self, other: OptView) -> bool {
        &&& self.name == other.name
        &&& self.short == other.short
        &&& self.manual == other.manual
        &&& self.description == other.description
    }
}

impl ArgView {
    /// The name is not empty and holds no option marker.
    pub open spec fn wf(self) -> bool {
        self.name.len() > 0 && !self.name.contains(DASH)
    }

    /// This argument with `vs` as its values.
    pub open spec fn with_values(self, vs: Seq<Seq<char>>) -> ArgView {
        ArgView { values: vs, ..self }
    }

    /// Whether `other` is the same declaration, whatever the values.
    pub open spec fn same_declaration(self, other: ArgView) -> bool {
        &&& self.name == other.name
        &&& self.manual == other.manual
        &&& self.description == other.description
    }
}

impl CliView {
    /// Every declaration is well formed.
    pub open spec fn wf(self) -> bool {
        &&& forall|i: int| 0 <= i < self.options.len() ==> (#[trigger] self.options[i]).wf()
        &&& forall|i: int| 0 <= i < self.args.len() ==> (#[trigger] self.args[i]).wf()
    }

    /// This definition with `v` as the value of option `k`.
    pub open spec fn set_value(self, k: int, v: Seq<char>) -> CliView {
        CliView { options: self.options.update(k, self.options[k].with_value(v)), ..self }
    }

    /// This definition with `vs` as the values of positional argument `j`.
    pub open spec fn set_values(self, j: int, vs: Seq<Seq<char>>) -> CliView {
        CliView { args: self.args.update(j, self.args[j].with_values(vs)), ..self }
    }

    /// This definition with one more option, not met yet.
    pub open spec fn declare_option(
        self,
        name: Seq<char>,
        short: Option<Seq<char>>,
        manual: Seq<char>,
        description: Seq<char>,
    ) -> CliView {
        CliView {
            options: self.options.push(OptView { name, short, manual, description, value: None }),
            ..self
        }
    }

    /// This definition with one more positional argument, without values.
    pub open spec fn declare_arg(
        self,
        name: Seq<char>,
        manual: Seq<char>,
        description: Seq<char>,
    ) -> CliView {
        CliView {
            args: self.args.push(ArgView { name, manual, description, values: Seq::empty() }),
            ..self
        }
    }

    /// Whether `other` holds the same declarations, whatever the values.
    pub open spec fn same_declarations(self, other: CliView) -> bool {
        &&& self.name == other.name
        &&& self.version == other.version
        &&& self.description == other.description
        &&& self.options.len() == other.options.len()
        &&& self.args.len() == other.args.len()
        &&& forall|i: int|
            0 <= i < self.options.len() ==> (#[trigger] self.options[i]).same_declaration(
                other.options[i],
            )
        &&& forall|i: int|
            0 <= i < self.args.len() ==> (#[trigger] self.args[i]).same_declaration(other.args[i])
    }
}

/// The index of the first item of `s` at or after `from` that `hit` holds of,
/// or the length of `s` where there is none.
pub open spec fn first_from<T>(s: Seq<T>, hit: spec_fn(T) -> bool, from: int) -> int
    decreases s.len() - from,
{
    if from >= s.len() {
        s.len() as int
    } else if from >= 0 && hit(s[from]) {
        from
    } else {
        first_from(s, hit, from + 1)
    }
}

/// `first_from` gives the least index that is hit.
pub proof fn lemma_first_from<T>(s: Seq<T>, hit: spec_fn(T) -> bool, from: int)
    requires
        0 <= from,
    ensures
        from <= first_from(s, hit, from) || s.len() < from,
        first_from(s, hit, from) <= s.len(),
        first_from(s, hit, from) < s.len() ==> hit(s[first_from(s, hit, from)]),
        forall|i: int| from <= i < first_from(s, hit, from) ==> !hit(#[trigger] s[i]),
    decreases s.len() - from,
{
    if from < s.len() && !hit(s[from]) {
        lemma_first_from(s, hit, from + 1);
    }
}

/// The view of an optional piece of borrowed text.
pub open spec fn text_of(t: Option<&str>) -> Option<Seq<char>> {
    match t {
        Some(s) => Some(s@),
        None => None,
    }
}

/// The view of an optional piece of owned text.
pub open spec fn value_of(t: Option<String>) -> Option<Seq<char>> {
    match t {
        Some(s) => Some(s@),
        None => None,
    }
}

/// The texts of a sequence of strings.
pub open spec fn texts(s: Seq<String>) -> Seq<Seq<char>> {
    s.map_values(|t: String| t@)
}

} // verus!
