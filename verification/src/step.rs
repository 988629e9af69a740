//! A step: a tile name and the luminance range in which the tile appears.
//!
//! A step is written `name:start..end`. The name is everything before the
//! first `:` and may hold any other character; the two bounds are unsigned
//! 8-bit literals. Nothing here asks that `start <= end`: a series refuses
//! steps that do not form a partition.

use crate::decimal::{
    decimal, is_digit, lemma_parse_decimal, parse_u8, push_decimal, read_u8, unsigned_digits,
};
use crate::error::TextureError;
use vstd::prelude::*;
use vstd::slice::slice_subrange;
use vstd::string::*;

verus! {

/// A tile name with the inclusive luminance range `start..=end`.
#[derive(Debug, Clone, PartialEq, Eq)]
pub struct Step {
    pub name: String,
    pub start: u8,
    pub end: u8,
}

/// What a step is to a contract: its name as characters, and its bounds.
pub struct StepView {
    pub name: Seq<char>,
    pub start: u8,
    pub end: u8,
}

impl View for Step {
    type V = StepView;

    open spec fn view(&self) -> StepView {
        StepView { name: self.name@, start: self.start, end: self.end }
    }
}

impl DeepView for Step {
    type V = StepView;

    open spec fn deep_view(&self) -> StepView {
        self@
    }
}

/// The position of the first `c` in `s`, or `s.len()` where `s` holds none.
pub open spec fn find(s: Seq<char>, c: char) -> int
    decreases s.len(),
{
    if s.len() == 0 {
        0
    } else if s[0] == c {
        0
    } else {
        1 + find(s.skip(1), c)
    }
}

/// The step that `s` describes, if it describes one.
///
/// The name ends at the first `:`. What follows is cut at its first `.`,
/// which must be followed by a second `.`; the text before the two dots and
/// the text after them must each be an unsigned 8-bit literal. A literal
/// holds neither `:` nor `.`, so a second colon or a third dot is refused.
pub open spec fn parse_step(s: Seq<char>) -> Option<StepView> {
    let colon = find(s, ':');
    if colon < s.len() {
        let range = s.skip(colon + 1);
        let dots = find(range, '.');
        if dots + 1 < range.len() && range[dots + 1] == '.' {
            match (parse_u8(range.take(dots)), parse_u8(range.skip(dots + 2))) {
                (Some(start), Some(end)) => Some(StepView { name: s.take(colon), start, end }),
                _ => None,
            }
        } else {
            None
        }
    } else {
        None
    }
}

/// The canonical description of a step: `name:start..end`, the bounds in
/// shortest decimal notation.
pub open spec fn render_step(step: StepView) -> Seq<char> {
    step.name + seq![':'] + decimal(step.start as nat) + seq!['.', '.'] + decimal(step.end as nat)
}

/// `find` is the one position before which `c` does not occur and at which
/// it does, or the end.
pub proof fn lemma_find(s: Seq<char>, c: char, at: int)
    requires
        0 <= at <= s.len(),
        forall|j: int| 0 <= j < at ==> s[j] != c,
        at < s.len() ==> s[at] == c,
    ensures
        find(s, c) == at,
    decreases at,
{
    if at > 0 {
        lemma_find(s.skip(1), c, at - 1);
    }
}

/// Before the position that `find` gives, `c` does not occur; at it, where
/// it is no end, stands `c`.
pub proof fn lemma_find_first(s: Seq<char>, c: char)
    ensures
        0 <= find(s, c) <= s.len(),
        forall|j: int| 0 <= j < find(s, c) ==> s[j] != c,
        find(s, c) < s.len() ==> s[find(s, c)] == c,
    decreases s.len(),
{
    if s.len() > 0 && s[0] != c {
        let rest = s.skip(1);
        lemma_find_first(rest, c);
        assert forall|j: int| 0 <= j < find(s, c) implies s[j] != c by {
            if j > 0 {
                assert(rest[j - 1] == s[j]);
            }
        }
    }
}

/// An unsigned 8-bit literal holds digits and at most a leading `+`: neither
/// a colon nor a dot.
pub proof fn lemma_literal_chars(s: Seq<char>)
    requires
        parse_u8(s) is Some,
    ensures
        s.len() > 0,
        forall|j: int| 0 <= j < s.len() ==> s[j] != ':' && s[j] != '.',
{
    let digits = unsigned_digits(s);
    assert forall|j: int| 0 <= j < s.len() implies s[j] != ':' && s[j] != '.' by {
        if s[0] == '+' && j > 0 {
            assert(is_digit(digits[j - 1]));
        }
    }
}

/// A name without a colon, then `:`, a literal, `..` and a literal describe
/// the step of that name with the bounds that the literals denote.
pub proof fn lemma_parse_step_of_parts(name: Seq<char>, start: Seq<char>, end: Seq<char>)
    requires
        forall|j: int| 0 <= j < name.len() ==> name[j] != ':',
        parse_u8(start) is Some,
        parse_u8(end) is Some,
    ensures
        parse_step(name + seq![':'] + start + seq!['.', '.'] + end) == Some(
            StepView { name, start: parse_u8(start).unwrap(), end: parse_u8(end).unwrap() },
        ),
{
    let s = name + seq![':'] + start + seq!['.', '.'] + end;
    lemma_literal_chars(start);
    lemma_find(s, ':', name.len() as int);
    let range = s.skip(name.len() as int + 1);
    lemma_find(range, '.', start.len() as int);
    assert(range.take(start.len() as int) =~= start);
    assert(range.skip(start.len() as int + 2) =~= end);
    assert(s.take(name.len() as int) =~= name);
}

/// Every description that is read as a step is made of the step's name,
/// which holds no colon, then `:`, a literal for the lower bound, `..` and a
/// literal for the upper bound. The two literals are returned.
pub proof fn lemma_parse_step_parts(s: Seq<char>) -> (bounds: (Seq<char>, Seq<char>))
    requires
        parse_step(s) is Some,
    ensures
        forall|j: int| 0 <= j < parse_step(s)->0.name.len() ==> parse_step(s)->0.name[j] != ':',
        parse_u8(bounds.0) == Some(parse_step(s)->0.start),
        parse_u8(bounds.1) == Some(parse_step(s)->0.end),
        s == parse_step(s)->0.name + seq![':'] + bounds.0 + seq!['.', '.'] + bounds.1,
{
    let colon = find(s, ':');
    let range = s.skip(colon + 1);
    let dots = find(range, '.');
    lemma_find_first(s, ':');
    lemma_find_first(range, '.');
    (range.take(dots), range.skip(dots + 2))
}

/// A step whose name holds no colon is read back from its canonical
/// description.
pub proof fn lemma_parse_rendered(step: StepView)
    requires
        forall|j: int| 0 <= j < step.name.len() ==> step.name[j] != ':',
    ensures
        parse_step(render_step(step)) == Some(step),
{
    lemma_parse_decimal(step.start);
    lemma_parse_decimal(step.end);
    lemma_parse_step_of_parts(step.name, decimal(step.start as nat), decimal(step.end as nat));
}

/// Round trip: where a description is read as a step, the step's canonical
/// description is read as the same step, so that reading and writing again
/// reproduces the canonical description.
pub proof fn lemma_round_trip(s: Seq<char>)
    requires
        parse_step(s) is Some,
    ensures
        parse_step(render_step(parse_step(s)->0)) == parse_step(s),
        render_step(parse_step(render_step(parse_step(s)->0))->0) == render_step(parse_step(s)->0),
{
    lemma_parse_step_parts(s);
    lemma_parse_rendered(parse_step(s)->0);
}

fn chars_of(text: &str) -> (v: Vec<char>)
    ensures
        v@ == text@,
{
    let mut v: Vec<char> = Vec::new();
    for c in it: text.chars()
        invariant
            it.seq() == text@,
            v@ == it.seq().take(it.index() as int),
    {
        v.push(c);
    }
    v
}

fn position(text: &[char], c: char) -> (at: usize)
    ensures
        at == find(text@, c),
        at <= text@.len(),
{
    let mut i: usize = 0;
    while i < text.len() && text[i] != c
        invariant
            i <= text@.len(),
            forall|j: int| 0 <= j < i ==> text@[j] != c,
        decreases text@.len() - i,
    {
        i = i + 1;
    }
    proof {
        lemma_find(text@, c, i as int);
    }
    i
}

impl Step {
    /// Reads a step from its description `name:start..end`.
    pub fn try_from(value: &str) -> (r: Result<Step, TextureError>)
        ensures
            match parse_step(value@) {
                Some(step) => r matches Ok(s) && s@ == step,
                None => r matches Err(TextureError::MalformedStep(text)) && text@ == value@,
            },
    {
        let chars = chars_of(value);
        let all = chars.as_slice();
        let colon = position(all, ':');
        if colon >= all.len() {
            return Err(TextureError::MalformedStep(value.to_owned()));
        }
        let range = slice_subrange(all, colon + 1, all.len());
        let dots = position(range, '.');
        if dots >= range.len() || dots + 1 >= range.len() || range[dots + 1] != '.' {
            return Err(TextureError::MalformedStep(value.to_owned()));
        }
        let start = read_u8(slice_subrange(range, 0, dots));
        let end = read_u8(slice_subrange(range, dots + 2, range.len()));
        match (start, end) {
            (Some(start), Some(end)) => {
                let name = value.substring_char(0, colon).to_owned();
                Ok(Step { name, start, end })
            },
            _ => Err(TextureError::MalformedStep(value.to_owned())),
        }
    }

    /// The canonical description of the step, `name:start..end`.
    pub fn to_string(&self) -> (s: String)
        ensures
            s@ == render_step(self@),
    {
        let mut s = String::new();
        self.push_to(&mut s);
        s
    }

    /// Appends the canonical description of the step to `out`.
    pub fn push_to(&self, out: &mut String)
        ensures
            final(out)@ == old(out)@ + render_step(self@),
    {
        proof {
            reveal_strlit(":");
            reveal_strlit("..");
        }
        out.append(self.name.as_str());
        out.append(":");
        push_decimal(out, self.start as u64);
        out.append("..");
        push_decimal(out, self.end as u64);
    }
}

} // verus!
