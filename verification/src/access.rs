//! Reading captured values back by name.

use vstd::prelude::*;
use crate::cli::CLI;
use crate::model::{first_from, texts, ArgView, CliView, OptView};
use crate::text::str_eq;

verus! {

/// `core::slice::from_ref` of std: the slice of length one that holds `s`.
pub assume_specification<T>[ core::slice::from_ref::<T> ](s: &T) -> (r: &[T])
    ensures
        r@ == seq![*s],
;

/// The index of the first option at or after `from` whose long form is
/// `name`, or the number of options where there is none.
pub open spec fn named_option_from(cli: CliView, name: Seq<char>, from: int) -> int {
    first_from(cli.options, |o: OptView| o.name == name, from)
}

/// The index of the first option whose long form is `name`, or the number of
/// options where there is none.
pub open spec fn named_option(cli: CliView, name: Seq<char>) -> int {
    named_option_from(cli, name, 0)
}

/// The index of the first positional argument at or after `from` whose name
/// is `name`, or the number of positional arguments where there is none.
pub open spec fn named_arg_from(cli: CliView, name: Seq<char>, from: int) -> int {
    first_from(cli.args, |a: ArgView| a.name == name, from)
}

/// The index of the first positional argument whose name is `name`, or the
/// number of positional arguments where there is none.
pub open spec fn named_arg(cli: CliView, name: Seq<char>) -> int {
    named_arg_from(cli, name, 0)
}

/// What `name` stands for after a scan.
///
/// Where the first option of that long form has a value, that value alone.
/// Else, where the first positional argument of that name has captured
/// anything, all that it captured, in order. Else nothing.
pub open spec fn lookup(cli: CliView, name: Seq<char>) -> Option<Seq<Seq<char>>> {
    let k = named_option(cli, name);
    let j = named_arg(cli, name);
    if k < cli.options.len() && cli.options[k].value is Some {
        Some(seq![cli.options[k].value->0])
    } else if j < cli.args.len() && cli.args[j].values.len() > 0 {
        Some(cli.args[j].values)
    } else {
        None
    }
}

/// The texts of an optional slice of strings.
pub open spec fn found(r: Option<&[String]>) -> Option<Seq<Seq<char>>> {
    match r {
        Some(s) => Some(texts(s@)),
        None => None,
    }
}

impl<'a> CLI<'a> {
    /// The index of the first option whose long form is `name`, or the number
    /// of options.
    fn find_named_option(&self, name: &str) -> (k: usize)
        ensures
            k == named_option(self@, name@),
            k <= self.options@.len(),
    {
        let mut i: usize = 0;
        while i < self.options.len()
            invariant
                i <= self.options@.len(),
                named_option_from(self@, name@, i as int) == named_option(self@, name@),
            decreases self.options@.len() - i,
        {
            assert(self@.options[i as int] == self.options@[i as int]@);
            if str_eq(self.options[i].name, name) {
                return i;
            }
            i += 1;
        }
        i
    }

    /// The index of the first positional argument named `name`, or the number
    /// of positional arguments.
    fn find_named_arg(&self, name: &str) -> (j: usize)
        ensures
            j == named_arg(self@, name@),
            j <= self.args@.len(),
    {
        let mut i: usize = 0;
        while i < self.args.len()
            invariant
                i <= self.args@.len(),
                named_arg_from(self@, name@, i as int) == named_arg(self@, name@),
            decreases self.args@.len() - i,
        {
            assert(self@.args[i as int] == self.args@[i as int]@);
            if str_eq(self.args[i].name, name) {
                return i;
            }
            i += 1;
        }
        i
    }

    /// What `name` stands for: the value of the option of that long form, as
    /// a slice of one; or what the positional argument of that name has
    /// captured; or `None` where the name was not declared or not met.
    pub fn get(&self, name: &str) -> (res: Option<&[String]>)
        ensures
            found(res) == lookup(self@, name@),
    {
        let k = self.find_named_option(name);
        if k < self.options.len() {
            assert(self@.options[k as int] == self.options@[k as int]@);
            match &self.options[k].value {
                Some(v) => {
                    let one = core::slice::from_ref(v);
                    assert(texts(one@) =~= seq![v@]);
                    return Some(one);
                },
                None => {},
            }
        }
        let j = self.find_named_arg(name);
        if j < self.args.len() {
            assert(self@.args[j as int] == self.args@[j as int]@);
            if self.args[j].values.len() > 0 {
                return Some(self.args[j].values.as_slice());
            }
        }
        None
    }
}

} // verus!
