//! Characters, trimming and comparison of text.
//!
//! Text is modelled as `Seq<char>`. The executable functions work on the
//! characters of a `&str` collected once into a `Vec<char>`, and give their
//! results as bounds within it.

use vstd::prelude::*;
use vstd::string::*;

verus! {

/// The option marker: a token that starts with it is taken for an option.
pub const DASH: char = '-';

/// The separator between the short and the long form of a declaration.
pub const COMMA: char = ',';

/// Whether `c` has the Unicode property White_Space.
pub open spec fn is_space(c: char) -> bool {
    let u = c as u32;
    ||| 0x09 <= u <= 0x0D
    ||| u == 0x20
    ||| u == 0x85
    ||| u == 0xA0
    ||| u == 0x1680
    ||| 0x2000 <= u <= 0x200A
    ||| u == 0x2028
    ||| u == 0x2029
    ||| u == 0x202F
    ||| u == 0x205F
    ||| u == 0x3000
}

/// `s` without its leading white space.
pub open spec fn strip_front(s: Seq<char>) -> Seq<char>
    decreases s.len(),
{
    if s.len() > 0 && is_space(s.first()) {
        strip_front(s.drop_first())
    } else {
        s
    }
}

/// `s` without its trailing white space.
pub open spec fn strip_back(s: Seq<char>) -> Seq<char>
    decreases s.len(),
{
    if s.len() > 0 && is_space(s.last()) {
        strip_back(s.drop_last())
    } else {
        s
    }
}

/// `s` without its leading and trailing white space.
pub open spec fn trimmed(s: Seq<char>) -> Seq<char> {
    strip_back(strip_front(s))
}

/// Whether `s` starts with the option marker.
pub open spec fn is_dashed(s: Seq<char>) -> bool {
    s.len() >= 1 && s[0] == DASH
}

/// Whether `s` starts with two option markers, as a long option name does.
pub open spec fn is_double_dashed(s: Seq<char>) -> bool {
    s.len() >= 2 && s[0] == DASH && s[1] == DASH
}

/// The number of characters of `s` before its first separator, or its length
/// where it holds none.
pub open spec fn field_len(s: Seq<char>) -> nat
    decreases s.len(),
{
    if s.len() == 0 || s.first() == COMMA {
        0
    } else {
        1 + field_len(s.drop_first())
    }
}

/// The part of `s` before its first separator.
pub open spec fn head_field(s: Seq<char>) -> Seq<char> {
    s.take(field_len(s) as int)
}

/// What follows the first separator of `s`; empty where `s` holds none.
pub open spec fn after_head(s: Seq<char>) -> Seq<char> {
    if field_len(s) < s.len() {
        s.skip(field_len(s) as int + 1)
    } else {
        Seq::empty()
    }
}

pub proof fn lemma_field_len_bound(s: Seq<char>)
    ensures
        field_len(s) <= s.len(),
        field_len(s) < s.len() ==> s[field_len(s) as int] == COMMA,
        forall|i: int| 0 <= i < field_len(s) ==> s[i] != COMMA,
        field_len(s) == s.len() <==> !s.contains(COMMA),
    decreases s.len(),
{
    if s.len() == 0 || s.first() == COMMA {
        if s.len() > 0 {
            assert(s[0] == COMMA);
        }
    } else {
        let t = s.drop_first();
        lemma_field_len_bound(t);
        assert forall|i: int| 0 <= i < field_len(s) implies s[i] != COMMA by {
            if i > 0 {
                assert(s[i] == t[i - 1]);
            }
        }
        if field_len(s) < s.len() {
            assert(s[field_len(s) as int] == t[field_len(t) as int]);
        }
        if t.contains(COMMA) {
            let j = choose|j: int| 0 <= j < t.len() && t[j] == COMMA;
            assert(s[j + 1] == COMMA);
        }
        if s.contains(COMMA) {
            let j = choose|j: int| 0 <= j < s.len() && s[j] == COMMA;
            assert(t[j - 1] == COMMA);
        }
    }
}

/// Whether `c` is white space.
pub fn is_whitespace(c: char) -> (r: bool)
    ensures
        r == is_space(c),
{
    let u: u32 = c as u32;
    (0x09 <= u && u <= 0x0D) || u == 0x20 || u == 0x85 || u == 0xA0 || u == 0x1680 || (0x2000 <= u
        && u <= 0x200A) || u == 0x2028 || u == 0x2029 || u == 0x202F || u == 0x205F || u == 0x3000
}

/// The characters of `s`, in order.
pub fn chars_of(s: &str) -> (v: Vec<char>)
    ensures
        v@ == s@,
{
    let mut v: Vec<char> = Vec::new();
    for c in it: s.chars()
        invariant
            v@ == it.seq().take(it.index@),
    {
        v.push(c);
    }
    v
}

/// Whether `a` and `b` hold the same characters.
pub fn str_eq(a: &str, b: &str) -> (r: bool)
    ensures
        r == (a@ == b@),
{
    let x = a.as_bytes();
    let y = b.as_bytes();
    if x.len() != y.len() {
        return false;
    }
    let mut i: usize = 0;
    while i < x.len()
        invariant
            x@.len() == y@.len(),
            i <= x@.len(),
            x@.take(i as int) == y@.take(i as int),
            x@ == a.spec_bytes(),
            y@ == b.spec_bytes(),
        decreases x@.len() - i,
    {
        if x[i] != y[i] {
            return false;
        }
        assert(x@.take(i + 1) == x@.take(i as int).push(x@[i as int]));
        assert(y@.take(i + 1) == y@.take(i as int).push(y@[i as int]));
        i += 1;
    }
    proof {
        assert(x@ == x@.take(i as int));
        assert(y@ == y@.take(i as int));
        vstd::utf8::encode_utf8_decode_utf8(a@);
        vstd::utf8::encode_utf8_decode_utf8(b@);
    }
    true
}

/// Whether `s` starts with the option marker.
pub fn starts_with_dash(s: &str) -> (r: bool)
    ensures
        r == is_dashed(s@),
{
    broadcast use vstd::string::group_string_axioms;

    let mut it = s.chars();
    match it.next() {
        Some(c) => c == DASH,
        None => false,
    }
}

/// The bounds of what is left of `cs[lo..hi]` once its leading and trailing
/// white space is gone.
pub fn trim_range(cs: &Vec<char>, lo: usize, hi: usize) -> (r: (usize, usize))
    requires
        lo <= hi <= cs@.len(),
    ensures
        lo <= r.0 <= r.1 <= hi,
        cs@.subrange(r.0 as int, r.1 as int) == trimmed(cs@.subrange(lo as int, hi as int)),
{
    let mut a: usize = lo;
    while a < hi && is_whitespace(cs[a])
        invariant
            lo <= a <= hi <= cs@.len(),
            strip_front(cs@.subrange(lo as int, hi as int)) == strip_front(
                cs@.subrange(a as int, hi as int),
            ),
        decreases hi - a,
    {
        assert(cs@.subrange(a as int, hi as int).drop_first() == cs@.subrange(a + 1, hi as int));
        a += 1;
    }
    let mut b: usize = hi;
    while b > a && is_whitespace(cs[b - 1])
        invariant
            a <= b <= hi <= cs@.len(),
            strip_back(cs@.subrange(a as int, hi as int)) == strip_back(
                cs@.subrange(a as int, b as int),
            ),
        decreases b - a,
    {
        assert(cs@.subrange(a as int, b as int).drop_last() == cs@.subrange(a as int, b - 1));
        b -= 1;
    }
    (a, b)
}

/// The index of the first separator in `cs[lo..hi]`, or `hi` where it holds
/// none.
pub fn find_comma(cs: &Vec<char>, lo: usize, hi: usize) -> (r: usize)
    requires
        lo <= hi <= cs@.len(),
    ensures
        lo <= r <= hi,
        r == lo + field_len(cs@.subrange(lo as int, hi as int)),
{
    let mut i: usize = lo;
    while i < hi && cs[i] != COMMA
        invariant
            lo <= i <= hi <= cs@.len(),
            field_len(cs@.subrange(lo as int, hi as int)) == (i - lo) + field_len(
                cs@.subrange(i as int, hi as int),
            ),
        decreases hi - i,
    {
        assert(cs@.subrange(i as int, hi as int).drop_first() == cs@.subrange(i + 1, hi as int));
        i += 1;
    }
    i
}

/// Whether `w` holds white space only.
pub open spec fn all_space(w: Seq<char>) -> bool {
    forall|i: int| 0 <= i < w.len() ==> is_space(#[trigger] w[i])
}

/// Whether `s` is not empty and neither starts nor ends with white space.
pub open spec fn is_tight(s: Seq<char>) -> bool {
    s.len() > 0 && !is_space(s.first()) && !is_space(s.last())
}

/// White space in front of a text does not change what is left of it once the
/// leading white space is gone.
pub proof fn lemma_strip_front_pad(w: Seq<char>, s: Seq<char>)
    requires
        all_space(w),
    ensures
        strip_front(w + s) == strip_front(s),
    decreases w.len(),
{
    if w.len() == 0 {
        assert(w + s =~= s);
    } else {
        assert((w + s).first() == w[0]);
        assert((w + s).drop_first() =~= w.drop_first() + s);
        assert(all_space(w.drop_first())) by {
            assert forall|i: int| 0 <= i < w.drop_first().len() implies is_space(
                #[trigger] w.drop_first()[i],
            ) by {
                assert(w.drop_first()[i] == w[i + 1]);
            }
        }
        lemma_strip_front_pad(w.drop_first(), s);
    }
}

/// White space behind a text does not change what is left of it once the
/// trailing white space is gone.
pub proof fn lemma_strip_back_pad(s: Seq<char>, w: Seq<char>)
    requires
        all_space(w),
    ensures
        strip_back(s + w) == strip_back(s),
    decreases w.len(),
{
    if w.len() == 0 {
        assert(s + w =~= s);
    } else {
        assert((s + w).last() == w.last());
        assert((s + w).drop_last() =~= s + w.drop_last());
        assert(all_space(w.drop_last())) by {
            assert forall|i: int| 0 <= i < w.drop_last().len() implies is_space(
                #[trigger] w.drop_last()[i],
            ) by {
                assert(w.drop_last()[i] == w[i]);
            }
        }
        lemma_strip_back_pad(s, w.drop_last());
    }
}

/// Trimming gives back a tight text whatever white space stands around it.
pub proof fn lemma_trimmed_padded(front: Seq<char>, s: Seq<char>, back: Seq<char>)
    requires
        all_space(front),
        all_space(back),
        is_tight(s),
    ensures
        trimmed(front + s + back) == s,
{
    assert(front + s + back =~= front + (s + back));
    lemma_strip_front_pad(front, s + back);
    assert((s + back).first() == s.first());
    assert(strip_front(s + back) == s + back);
    lemma_strip_back_pad(s, back);
    assert(strip_back(s) == s);
}

/// A text without a separator is one field; with a separator behind it, it
/// is the first field.
pub proof fn lemma_field_len_prefix(a: Seq<char>, b: Seq<char>)
    requires
        !a.contains(COMMA),
    ensures
        field_len(a) == a.len(),
        field_len(a + seq![COMMA] + b) == a.len(),
    decreases a.len(),
{
    lemma_field_len_bound(a);
    let s = a + seq![COMMA] + b;
    if a.len() == 0 {
        assert(s.first() == COMMA);
    } else {
        assert(a.first() != COMMA) by {
            assert(a.contains(a[0]));
        }
        assert(s.first() == a.first());
        assert(s.drop_first() =~= a.drop_first() + seq![COMMA] + b);
        assert(!a.drop_first().contains(COMMA)) by {
            if a.drop_first().contains(COMMA) {
                let j = choose|j: int| 0 <= j < a.drop_first().len() && a.drop_first()[j] == COMMA;
                assert(a[j + 1] == COMMA);
            }
        }
        lemma_field_len_prefix(a.drop_first(), b);
    }
}

} // verus!
