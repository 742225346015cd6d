//! The declaration syntax of an option: `"--long"` alone, or `"-s, --long"`.

use vstd::prelude::*;
use vstd::string::*;
use crate::model::text_of;
use crate::text::{
    after_head, chars_of, find_comma, head_field, is_dashed, is_double_dashed,
    lemma_field_len_bound, trim_range, trimmed, COMMA, DASH,
};

verus! {

/// The two forms under which an option is recognised.
pub struct Forms {
    /// The long form, such as `--run`.
    pub name: Seq<char>,
    /// The short form, such as `-r`, where the declaration gives one.
    pub short: Option<Seq<char>>,
}

/// Why a declaration is refused, with the text that is at fault.
pub enum Fault {
    /// The short form does not start with `-`.
    ShortMarker(Seq<char>),
    /// The long form does not start with `--`.
    LongMarker(Seq<char>),
}

impl Fault {
    /// The text that is at fault.
    pub open spec fn text(self) -> Seq<char> {
        match self {
            Fault::ShortMarker(t) => t,
            Fault::LongMarker(t) => t,
        }
    }

    /// The sentence that reports the fault.
    pub open spec fn message(self) -> Seq<char> {
        match self {
            Fault::ShortMarker(t) => "short option should start with '-' ("@ + t + ")"@,
            Fault::LongMarker(t) => "option should start with '--'("@ + t + ")"@,
        }
    }
}

/// What a declaration means.
///
/// With a separator in it, the declaration is trimmed and cut at its
/// separators: the first part, trimmed, is the short form and must start with
/// `-`; the second part, trimmed, is the long form and must start with `--`;
/// further parts are ignored. Without a separator the whole declaration,
/// trimmed, is the long form.
pub open spec fn manual_forms(manual: Seq<char>) -> Result<Forms, Fault> {
    if manual.contains(COMMA) {
        let whole = trimmed(manual);
        let first = head_field(whole);
        let second = head_field(after_head(whole));
        if !is_dashed(trimmed(first)) {
            Err(Fault::ShortMarker(first))
        } else if !is_double_dashed(trimmed(second)) {
            Err(Fault::LongMarker(second))
        } else {
            Ok(Forms { name: trimmed(second), short: Some(trimmed(first)) })
        }
    } else if is_double_dashed(trimmed(manual)) {
        Ok(Forms { name: trimmed(manual), short: None })
    } else {
        Err(Fault::LongMarker(manual))
    }
}

/// A refused declaration. The text at fault is a part of the declaration.
#[derive(Clone, Copy, Debug)]
pub enum ManualError<'a> {
    /// The short form does not start with `-`.
    ShortMarker(&'a str),
    /// The long form does not start with `--`.
    LongMarker(&'a str),
}

impl<'a> View for ManualError<'a> {
    type V = Fault;

    open spec fn view(&self) -> Fault {
        match *self {
            ManualError::ShortMarker(t) => Fault::ShortMarker(t@),
            ManualError::LongMarker(t) => Fault::LongMarker(t@),
        }
    }
}

impl<'a> ManualError<'a> {
    /// The text that is at fault.
    pub fn text(&self) -> (res: &'a str)
        ensures
            res@ == self@.text(),
    {
        match *self {
            ManualError::ShortMarker(t) => t,
            ManualError::LongMarker(t) => t,
        }
    }

    /// The sentence that reports the fault.
    pub fn message(&self) -> (res: String)
        ensures
            res@ == self@.message(),
    {
        match *self {
            ManualError::ShortMarker(t) => {
                let mut m = String::from_str("short option should start with '-' (");
                m.append(t);
                m.append(")");
                m
            },
            ManualError::LongMarker(t) => {
                let mut m = String::from_str("option should start with '--'(");
                m.append(t);
                m.append(")");
                m
            },
        }
    }
}

/// Reads a declaration: its long form and, where it has one, its short form,
/// both cut out of `manual`.
pub fn parse_manual<'a>(manual: &'a str) -> (res: Result<(&'a str, Option<&'a str>), ManualError<'a>>)
    ensures
        match res {
            Ok(f) => manual_forms(manual@) == Ok::<Forms, Fault>(
                Forms { name: f.0@, short: text_of(f.1) },
            ),
            Err(e) => manual_forms(manual@) == Err::<Forms, Fault>(e@),
        },
{
    let cs = chars_of(manual);
    let n = cs.len();
    let ghost whole_raw = cs@.subrange(0, n as int);
    assert(whole_raw == manual@);
    let sep = find_comma(&cs, 0, n);
    proof {
        lemma_field_len_bound(manual@);
    }
    let (lo, hi) = trim_range(&cs, 0, n);
    let ghost whole = cs@.subrange(lo as int, hi as int);
    if sep < n {
        let c0 = find_comma(&cs, lo, hi);
        let ghost first = cs@.subrange(lo as int, c0 as int);
        assert(first == head_field(whole));
        let (a0, b0) = trim_range(&cs, lo, c0);
        if !(a0 < b0 && cs[a0] == DASH) {
            return Err(ManualError::ShortMarker(manual.substring_char(lo, c0)));
        }
        let s1: usize = if c0 < hi { c0 + 1 } else { hi };
        let ghost rest = cs@.subrange(s1 as int, hi as int);
        assert(rest == after_head(whole));
        let c1 = find_comma(&cs, s1, hi);
        let ghost second = cs@.subrange(s1 as int, c1 as int);
        assert(second == head_field(rest));
        let (a1, b1) = trim_range(&cs, s1, c1);
        if !(b1 - a1 >= 2 && cs[a1] == DASH && cs[a1 + 1] == DASH) {
            return Err(ManualError::LongMarker(manual.substring_char(s1, c1)));
        }
        Ok((manual.substring_char(a1, b1), Some(manual.substring_char(a0, b0))))
    } else {
        if hi - lo >= 2 && cs[lo] == DASH && cs[lo + 1] == DASH {
            Ok((manual.substring_char(lo, hi), None))
        } else {
            Err(ManualError::LongMarker(manual))
        }
    }
}

} // verus!
