//! The condition language of skill steps, and the filling of placeholders.
//!
//! A condition is one of
//!
//! - `steps.<id>.result`, true where that result is not empty,
//! - `<ref> contains "text"`, `<ref> == "text"`, `<ref> != "text"`,
//! - `<ref> length > n`, `<ref> length < n`, which compare the number of bytes,
//! - `<cond> or <cond>`, `<cond> and <cond>`, `not <cond>`, in rising order of precedence.
//!
//! Text stands in double or single quotation marks. What stands inside them is never read as an
//! operator, and neither are letters inside the name of a step. A reference to an unknown step, or
//! to anything else, stands for the empty text.
use crate::json::{field_models, models, Json, JsonV};
use crate::text::{
    after_prefix, all_digits, byte_len, byte_len_of, char_is_space, chars_of, contains,
    contains_text, decimal, find, find_chars, is_digit, is_space, law_numbers_are_read_as_written,
    law_replace,
    lemma_decimal, lemma_find_from,
    lemma_replace_absent, occurs, occurs_at, parse_usize, parsed_usize, replace, replace_text,
    same, string_of, strip_end, strip_start, trim, trim_text, without_plus, CharClass,
};
use crate::textmap::{assign, law_assign_then_lookup, lookup, Entries, TextMap};
use crate::views::opt_view;
use vstd::prelude::*;

verus! {

/// Whether `c` is a quotation mark.
pub open spec fn is_mark(c: char) -> bool {
    c == '"' || c == '\''
}

/// The quotation mark that is open at the end of `s`; none where none is. Inside quotation marks of
/// one kind, the other kind is text.
pub open spec fn inside(s: Seq<char>) -> Option<char>
    decreases s.len(),
{
    if s.len() == 0 {
        None
    } else {
        after_char(inside(s.drop_last()), s.last())
    }
}

/// The quotation mark that is open after one more character.
pub open spec fn after_char(mark: Option<char>, c: char) -> Option<char> {
    match mark {
        Some(q) => if c == q {
            None
        } else {
            mark
        },
        None => if is_mark(c) {
            Some(c)
        } else {
            None
        },
    }
}

/// Whether position `i` of `s` is outside quotation marks, and no quotation mark itself.
pub open spec fn outside(s: Seq<char>, i: int) -> bool {
    0 <= i < s.len() && !is_mark(s[i]) && inside(s.take(i)) is None
}

/// Whether `p` stands in `s` at position `i`, outside quotation marks.
pub open spec fn open_at(s: Seq<char>, p: Seq<char>, i: int) -> bool {
    occurs_at(s, p, i) && outside(s, i)
}

/// The first position from `i` on at which `p` stands in `s` outside quotation marks.
pub open spec fn find_open_from(s: Seq<char>, p: Seq<char>, i: int) -> Option<int>
    decreases s.len() - i,
{
    if i < 0 || i >= s.len() {
        None
    } else if open_at(s, p, i) {
        Some(i)
    } else {
        find_open_from(s, p, i + 1)
    }
}

/// The first position at which `p` stands in `s` outside quotation marks.
pub open spec fn find_open(s: Seq<char>, p: Seq<char>) -> Option<int> {
    find_open_from(s, p, 0)
}

/// What `find_open_from` gives: the least such position, if there is one.
pub proof fn lemma_find_open_from(s: Seq<char>, p: Seq<char>, i: int)
    requires
        0 <= i,
    ensures
        match find_open_from(s, p, i) {
            Some(k) => i <= k && open_at(s, p, k) && forall|j: int|
                i <= j < k ==> !open_at(s, p, j),
            None => forall|j: int| i <= j ==> !open_at(s, p, j),
        },
    decreases s.len() - i,
{
    if i < s.len() && !open_at(s, p, i) {
        lemma_find_open_from(s, p, i + 1);
    }
}

/// The quotation mark that is open after one more character.
fn next_mark(mark: Option<char>, c: char) -> (r: Option<char>)
    ensures
        r == after_char(mark, c),
{
    match mark {
        Some(q) => if c == q {
            None
        } else {
            mark
        },
        None => if c == '"' || c == '\'' {
            Some(c)
        } else {
            None
        },
    }
}

/// The first position at which `p` stands in `v` outside quotation marks.
fn find_keyword(v: &Vec<char>, p: &str) -> (r: Option<usize>)
    ensures
        match r {
            Some(i) => find_open(v@, p@) == Some(i as int) && i + p@.len() <= v@.len(),
            None => find_open(v@, p@) is None,
        },
{
    let q = chars_of(p);
    let mut mark: Option<char> = None;
    let mut i: usize = 0;
    assert(v@.take(0) =~= Seq::<char>::empty());
    while i < v.len()
        invariant
            i <= v@.len(),
            q@ == p@,
            mark == inside(v@.take(i as int)),
            find_open_from(v@, p@, i as int) == find_open(v@, p@),
        decreases v@.len() - i,
    {
        assert(v@.take(i + 1).drop_last() =~= v@.take(i as int));
        if mark.is_none() && v[i] != '"' && v[i] != '\'' && occurs(v, &q, i) {
            return Some(i);
        }
        mark = next_mark(mark, v[i]);
        i += 1;
    }
    None
}

/// Trimming makes no text longer.
pub proof fn lemma_trim_len(s: Seq<char>)
    ensures
        trim(s).len() <= s.len(),
{
    lemma_strip_start_len(s, CharClass::Space);
    lemma_strip_end_len(strip_start(s, CharClass::Space), CharClass::Space);
}

proof fn lemma_strip_start_len(s: Seq<char>, class: CharClass)
    ensures
        strip_start(s, class).len() <= s.len(),
    decreases s.len(),
{
    if s.len() > 0 && class.has(s[0]) {
        lemma_strip_start_len(s.drop_first(), class);
    }
}

proof fn lemma_strip_end_len(s: Seq<char>, class: CharClass)
    ensures
        strip_end(s, class).len() <= s.len(),
    decreases s.len(),
{
    if s.len() > 0 && class.has(s.last()) {
        lemma_strip_end_len(s.drop_last(), class);
    }
}

/// Whether `s` stands in quotation marks of one kind.
pub open spec fn quoted(s: Seq<char>) -> bool {
    s.len() >= 2 && is_mark(s[0]) && s.last() == s[0]
}

/// What stands between the first and the last character.
pub open spec fn inner(s: Seq<char>) -> Seq<char> {
    s.subrange(1, s.len() - 1)
}

/// The result of the step `id`; empty where there is none.
pub open spec fn result_of(results: Entries, id: Seq<char>) -> Seq<char> {
    match lookup(results, id) {
        Some(v) => v,
        None => Seq::empty(),
    }
}

/// The texts that take the place of placeholders: results of steps, and variables.
pub struct Fillings {
    pub steps: Entries,
    pub variables: Entries,
}

impl Fillings {
    /// `text` with the placeholders filled.
    pub open spec fn fill(self, text: Seq<char>) -> Seq<char> {
        filled(text, self.steps, self.variables)
    }
}

/// No fillings: text stays as it is.
pub open spec fn no_fillings() -> Fillings {
    Fillings { steps: Entries::empty(), variables: Entries::empty() }
}

/// What a reference stands for: quoted text for itself, `steps.<id>` and `steps.<id>.<anything>`
/// for the result of the step, and what is made of placeholders for what they are filled with. All
/// else is unknown and stands for the empty text.
pub open spec fn resolved(reference: Seq<char>, results: Entries, f: Fillings) -> Seq<char> {
    let r = trim(reference);
    if quoted(r) {
        f.fill(inner(r))
    } else if "steps."@.is_prefix_of(r) {
        let rest = f.fill(r.skip("steps."@.len() as int));
        match find(rest, "."@) {
            Some(end) => result_of(results, rest.take(end)),
            None => result_of(results, rest),
        }
    } else if f.fill(r) == r {
        Seq::empty()
    } else {
        f.fill(r)
    }
}

/// What a literal stands for: the text in quotation marks, or all of it where there are none.
pub open spec fn literal(s: Seq<char>, f: Fillings) -> Seq<char> {
    let t = trim(s);
    f.fill(
        if quoted(t) {
            inner(t)
        } else {
            t
        },
    )
}

/// The number that a length is compared with; 0 where it cannot be read.
pub open spec fn bound(s: Seq<char>, f: Fillings) -> usize {
    match parsed_usize(f.fill(trim(s))) {
        Some(n) => n,
        None => 0,
    }
}

/// How two operands are compared.
#[derive(Clone, Copy, PartialEq, Eq, Structural)]
pub enum Operator {
    Contains,
    /// `length >`.
    Longer,
    /// `length >=`.
    AtLeast,
    /// `length <`.
    Shorter,
    Equal,
    Unequal,
}

impl Operator {
    /// How the operator is written.
    pub open spec fn sign(self) -> Seq<char> {
        match self {
            Operator::Contains => "contains"@,
            Operator::Longer => "length >"@,
            Operator::AtLeast => "length >="@,
            Operator::Shorter => "length <"@,
            Operator::Equal => "=="@,
            Operator::Unequal => "!="@,
        }
    }

    /// How the operator is written.
    fn text(self) -> (r: &'static str)
        ensures
            r@ == self.sign(),
    {
        match self {
            Operator::Contains => "contains",
            Operator::Longer => "length >",
            Operator::AtLeast => "length >=",
            Operator::Shorter => "length <",
            Operator::Equal => "==",
            Operator::Unequal => "!=",
        }
    }
}

/// Where the name of a step ends in a condition that begins with a reference to it: behind the dot
/// after the name. 0 where there is no such dot.
pub open spec fn name_end(e: Seq<char>) -> int {
    if "steps."@.is_prefix_of(e) {
        match find_open_from(e, "."@, "steps."@.len() as int) {
            Some(k) => k + 1,
            None => 0,
        }
    } else {
        0
    }
}

/// Whether a word may begin at `i`, or end before it: there is white space or a quotation mark
/// there, or nothing more.
pub open spec fn parts_words(e: Seq<char>, i: int) -> bool {
    0 <= i < e.len() ==> is_space(e[i]) || is_mark(e[i])
}

/// Whether an operator stands at position `i`, behind the reference and outside quotation marks.
/// Those made of letters are words of their own; the others may follow the reference at once, but
/// not stand in the name of its step.
pub open spec fn stands(e: Seq<char>, op: Operator, i: int) -> bool {
    let word = parts_words(e, i - 1);
    let end = i + op.sign().len();
    &&& i > 0
    &&& open_at(e, op.sign(), i)
    &&& match op {
        Operator::Contains => word && parts_words(e, end),
        Operator::Longer => word && !(end < e.len() && e[end] == '='),
        Operator::AtLeast => word,
        Operator::Shorter => word,
        Operator::Equal => word || i >= name_end(e),
        Operator::Unequal => word || i >= name_end(e),
    }
}

/// The first position from `i` on at which an operator stands.
pub open spec fn find_operator_from(e: Seq<char>, op: Operator, i: int) -> Option<int>
    decreases e.len() - i,
{
    if i < 0 || i >= e.len() {
        None
    } else if stands(e, op, i) {
        Some(i)
    } else {
        find_operator_from(e, op, i + 1)
    }
}

/// What `find_operator_from` gives: the least such position, if there is one.
proof fn lemma_find_operator_from(e: Seq<char>, op: Operator, i: int)
    requires
        0 <= i,
    ensures
        match find_operator_from(e, op, i) {
            Some(k) => i <= k < e.len() && stands(e, op, k) && forall|j: int|
                i <= j < k ==> !stands(e, op, j),
            None => forall|j: int| i <= j ==> !stands(e, op, j),
        },
    decreases e.len() - i,
{
    if i < e.len() && !stands(e, op, i) {
        lemma_find_operator_from(e, op, i + 1);
    }
}

/// An operator and where it stands first, or else what is found of the others.
pub open spec fn found_or(e: Seq<char>, op: Operator, others: Option<(int, Operator)>) -> Option<
    (int, Operator),
> {
    match find_operator_from(e, op, 0) {
        Some(i) => Some((i, op)),
        None => others,
    }
}

/// The operator that counts in a comparison, and where it stands. Where there are several, it is
/// `contains` before those of the length, and those before `==` and `!=`.
pub open spec fn operator_in(e: Seq<char>) -> Option<(int, Operator)> {
    found_or(
        e,
        Operator::Contains,
        found_or(
            e,
            Operator::Longer,
            found_or(
                e,
                Operator::AtLeast,
                found_or(
                    e,
                    Operator::Shorter,
                    found_or(e, Operator::Equal, found_or(e, Operator::Unequal, None)),
                ),
            ),
        ),
    )
}

/// What a comparison of `left` with what is written in `right` comes to.
pub open spec fn compared(op: Operator, left: Seq<char>, right: Seq<char>, f: Fillings) -> bool {
    match op {
        Operator::Contains => contains(left, literal(right, f)),
        Operator::Longer => byte_len(left) > bound(right, f),
        Operator::AtLeast => byte_len(left) >= bound(right, f),
        Operator::Shorter => byte_len(left) < bound(right, f),
        Operator::Equal => left == literal(right, f),
        Operator::Unequal => left != literal(right, f),
    }
}

/// What a condition without `or`, `and` and `not` comes to: the operator compares what stands before
/// it with what stands after it, and without an operator the reference is not to be empty.
pub open spec fn comparison(cond: Seq<char>, results: Entries, f: Fillings) -> bool {
    let e = trim(cond);
    match operator_in(e) {
        Some((i, op)) => compared(
            op,
            resolved(e.take(i), results, f),
            e.skip(i + op.sign().len()),
            f,
        ),
        None => resolved(e, results, f).len() > 0,
    }
}

/// What a condition comes to.
pub open spec fn condition(cond: Seq<char>, results: Entries, f: Fillings) -> bool
    decreases cond.len(),
{
    let e = trim(cond);
    proof {
        lemma_trim_len(cond);
        lemma_find_open_from(e, " or "@, 0);
        lemma_find_open_from(e, " and "@, 0);
        reveal_strlit("not ");
        reveal_strlit(" or ");
        reveal_strlit(" and ");
    }
    if e.len() == 0 {
        true
    } else if let Some(i) = find_open(e, " or "@) {
        condition(e.take(i), results, f) || condition(e.skip(i + " or "@.len()), results, f)
    } else if let Some(i) = find_open(e, " and "@) {
        condition(e.take(i), results, f) && condition(e.skip(i + " and "@.len()), results, f)
    } else if "not "@.is_prefix_of(e) {
        !condition(e.skip("not "@.len() as int), results, f)
    } else {
        comparison(e, results, f)
    }
}

/// The texts that fill the placeholders of a condition.
struct Filler<'a> {
    steps: &'a TextMap,
    variables: &'a TextMap,
}

impl<'a> Filler<'a> {
    spec fn fillings(self) -> Fillings {
        Fillings { steps: self.steps@, variables: self.variables@ }
    }

    /// `text` with the placeholders filled.
    fn fill(&self, text: &str) -> (r: String)
        ensures
            r@ == self.fillings().fill(text@),
    {
        interpolate_str(text, self.steps, self.variables)
    }
}

/// The text inside quotation marks; none where there are none around `t`.
fn unquoted(t: &str) -> (r: Option<String>)
    ensures
        opt_view(r) == if quoted(t@) {
            Some(inner(t@))
        } else {
            None
        },
{
    let v = chars_of(t);
    if v.len() >= 2 && (v[0] == '"' || v[0] == '\'') && v[v.len() - 1] == v[0] {
        Some(string_of(&v, 1, v.len() - 1))
    } else {
        None
    }
}

/// The text that a reference stands for.
fn resolve_filled(reference: &str, results: &TextMap, f: &Filler) -> (r: String)
    ensures
        r@ == resolved(reference@, results@, f.fillings()),
{
    let t = trim_text(reference);
    match unquoted(t.as_str()) {
        Some(text) => {
            return f.fill(text.as_str());
        },
        None => {},
    }
    match after_prefix(t.as_str(), "steps.") {
        Some(rest) => {
            let rest = f.fill(rest.as_str());
            let w = chars_of(rest.as_str());
            let dot = chars_of(".");
            let id = match find_chars(&w, &dot, 0) {
                Some(end) => string_of(&w, 0, end),
                None => rest,
            };
            match results.get(id.as_str()) {
                Some(value) => value.clone(),
                None => String::new(),
            }
        },
        None => {
            let text = f.fill(t.as_str());
            if same(text.as_str(), t.as_str()) {
                String::new()
            } else {
                text
            }
        },
    }
}

/// The text that a reference stands for, without placeholders: quoted text for itself, the result of
/// a step, and the empty text for all else.
pub fn resolve_reference(ref_str: &str, step_results: &TextMap) -> (r: String)
    ensures
        r@ == resolved(ref_str@, step_results@, no_fillings()),
{
    let none = TextMap::new();
    let f = Filler { steps: &none, variables: &none };
    resolve_filled(ref_str, step_results, &f)
}

/// The text that a literal stands for.
fn parse_string_literal(s: &str, f: &Filler) -> (r: String)
    ensures
        r@ == literal(s@, f.fillings()),
{
    let t = trim_text(s);
    match unquoted(t.as_str()) {
        Some(text) => f.fill(text.as_str()),
        None => f.fill(t.as_str()),
    }
}

/// The number that a length is compared with.
fn parse_bound(s: &str, f: &Filler) -> (r: usize)
    ensures
        r == bound(s@, f.fillings()),
{
    let t = trim_text(s);
    match parse_usize(f.fill(t.as_str()).as_str()) {
        Some(n) => n,
        None => 0,
    }
}

/// What stands in `v` before the operator at `i` and, `n` characters long, after it.
fn around(v: &Vec<char>, i: usize, n: usize) -> (r: (String, String))
    requires
        i + n <= v.len(),
    ensures
        r.0@ == v@.take(i as int),
        r.1@ == v@.skip(i + n),
{
    let left = string_of(v, 0, i);
    let right = string_of(v, i + n, v.len());
    (left, right)
}

/// Whether a word may begin behind position `i`, or end before it.
fn between_words(v: &Vec<char>, i: usize) -> (r: bool)
    ensures
        r == parts_words(v@, i as int),
{
    i >= v.len() || char_is_space(v[i]) || v[i] == '"' || v[i] == '\''
}

/// Where the name of a step ends.
fn step_name_end(v: &Vec<char>) -> (r: usize)
    ensures
        r == name_end(v@),
{
    let head = chars_of("steps.");
    let dot = chars_of(".");
    proof {
        reveal_strlit("steps.");
        reveal_strlit(".");
    }
    if !occurs(v, &head, 0) {
        assert(!("steps."@.is_prefix_of(v@))) by {
            if "steps."@.is_prefix_of(v@) {
                assert(v@.subrange(0, 6) =~= "steps."@);
            }
        }
        return 0;
    }
    assert("steps."@.is_prefix_of(v@));
    let mut mark: Option<char> = None;
    let mut i: usize = 0;
    assert(v@.take(0) =~= Seq::<char>::empty());
    while i < v.len()
        invariant
            i <= v@.len(),
            dot@ == "."@,
            "."@.len() == 1,
            "steps."@.len() == 6,
            "steps."@.is_prefix_of(v@),
            mark == inside(v@.take(i as int)),
            i >= 6 ==> find_open_from(v@, "."@, i as int) == find_open_from(v@, "."@, 6),
        decreases v@.len() - i,
    {
        assert(v@.take(i + 1).drop_last() =~= v@.take(i as int));
        if i >= 6 && mark.is_none() && v[i] != '"' && v[i] != '\'' && occurs(v, &dot, i) {
            return i + 1;
        }
        mark = next_mark(mark, v[i]);
        i += 1;
    }
    0
}

/// The first position at which an operator stands; `end` is where the name of a step ends.
fn find_one(v: &Vec<char>, op: Operator, end: usize) -> (r: Option<usize>)
    requires
        end == name_end(v@),
    ensures
        match r {
            Some(i) => find_operator_from(v@, op, 0) == Some(i as int) && i + op.sign().len()
                <= v@.len(),
            None => find_operator_from(v@, op, 0) is None,
        },
{
    let sign = chars_of(op.text());
    let mut mark: Option<char> = None;
    let mut i: usize = 0;
    assert(v@.take(0) =~= Seq::<char>::empty());
    while i < v.len()
        invariant
            i <= v@.len(),
            sign@ == op.sign(),
            end == name_end(v@),
            mark == inside(v@.take(i as int)),
            find_operator_from(v@, op, i as int) == find_operator_from(v@, op, 0),
        decreases v@.len() - i,
    {
        assert(v@.take(i + 1).drop_last() =~= v@.take(i as int));
        if i > 0 && mark.is_none() && v[i] != '"' && v[i] != '\'' && occurs(v, &sign, i) {
            let word = between_words(v, i - 1);
            let behind: usize = i + sign.len();
            let fits = match op {
                Operator::Contains => word && between_words(v, behind),
                Operator::Longer => word && !(behind < v.len() && v[behind] == '='),
                Operator::AtLeast | Operator::Shorter => word,
                Operator::Equal | Operator::Unequal => word || i >= end,
            };
            if fits {
                return Some(i);
            }
        }
        mark = next_mark(mark, v[i]);
        i += 1;
    }
    None
}

/// The operator that counts, and where it stands.
fn find_operator(v: &Vec<char>) -> (r: Option<(usize, Operator)>)
    ensures
        match r {
            Some((i, op)) => operator_in(v@) == Some((i as int, op)) && i + op.sign().len()
                <= v@.len(),
            None => operator_in(v@) is None,
        },
{
    let end: usize = step_name_end(v);
    if let Some(i) = find_one(v, Operator::Contains, end) {
        return Some((i, Operator::Contains));
    }
    if let Some(i) = find_one(v, Operator::Longer, end) {
        return Some((i, Operator::Longer));
    }
    if let Some(i) = find_one(v, Operator::AtLeast, end) {
        return Some((i, Operator::AtLeast));
    }
    if let Some(i) = find_one(v, Operator::Shorter, end) {
        return Some((i, Operator::Shorter));
    }
    if let Some(i) = find_one(v, Operator::Equal, end) {
        return Some((i, Operator::Equal));
    }
    if let Some(i) = find_one(v, Operator::Unequal, end) {
        return Some((i, Operator::Unequal));
    }
    None
}

/// What a condition without `or`, `and` and `not` comes to.
fn evaluate_comparison(cond: &str, results: &TextMap, f: &Filler) -> (r: bool)
    ensures
        r == comparison(cond@, results@, f.fillings()),
{
    let t = trim_text(cond);
    let v = chars_of(t.as_str());
    match find_operator(&v) {
        Some((i, op)) => {
            let (left, right) = around(&v, i, chars_of(op.text()).len());
            let a = resolve_filled(left.as_str(), results, f);
            match op {
                Operator::Contains => {
                    let b = parse_string_literal(right.as_str(), f);
                    contains_text(a.as_str(), b.as_str())
                },
                Operator::Longer => byte_len_of(a.as_str()) > parse_bound(right.as_str(), f),
                Operator::AtLeast => byte_len_of(a.as_str()) >= parse_bound(right.as_str(), f),
                Operator::Shorter => byte_len_of(a.as_str()) < parse_bound(right.as_str(), f),
                Operator::Equal => {
                    let b = parse_string_literal(right.as_str(), f);
                    same(a.as_str(), b.as_str())
                },
                Operator::Unequal => {
                    let b = parse_string_literal(right.as_str(), f);
                    !same(a.as_str(), b.as_str())
                },
            }
        },
        None => {
            let a = resolve_filled(t.as_str(), results, f);
            !a.as_str().is_empty()
        },
    }
}

/// What a condition comes to.
fn evaluate_with(expr: &str, results: &TextMap, f: &Filler) -> (r: bool)
    ensures
        r == condition(expr@, results@, f.fillings()),
    decreases expr@.len(),
{
    let t = trim_text(expr);
    let v = chars_of(t.as_str());
    proof {
        lemma_trim_len(expr@);
        reveal_strlit(" or ");
        reveal_strlit(" and ");
        reveal_strlit("not ");
    }
    if v.len() == 0 {
        return true;
    }
    if let Some(i) = find_keyword(&v, " or ") {
        let (left, right) = around(&v, i, 4);
        return evaluate_with(left.as_str(), results, f) || evaluate_with(
            right.as_str(),
            results,
            f,
        );
    }
    if let Some(i) = find_keyword(&v, " and ") {
        let (left, right) = around(&v, i, 5);
        return evaluate_with(left.as_str(), results, f) && evaluate_with(
            right.as_str(),
            results,
            f,
        );
    }
    match after_prefix(t.as_str(), "not ") {
        Some(rest) => !evaluate_with(rest.as_str(), results, f),
        None => evaluate_comparison(t.as_str(), results, f),
    }
}

/// Whether a step with the condition `expr` is to run, given the results of earlier steps.
pub fn evaluate(expr: &str, step_results: &TextMap) -> (r: bool)
    ensures
        r == condition(expr@, step_results@, no_fillings()),
{
    let none = TextMap::new();
    let f = Filler { steps: &none, variables: &none };
    evaluate_with(expr, step_results, &f)
}

/// Whether a step with the condition `expr` is to run, with the placeholders in the operands of the
/// condition filled. What they are filled with is text: no operator is read in it.
pub fn evaluate_filled(expr: &str, step_results: &TextMap, variables: &TextMap) -> (r: bool)
    ensures
        r == condition(
            expr@,
            step_results@,
            Fillings { steps: step_results@, variables: variables@ },
        ),
{
    let f = Filler { steps: step_results, variables };
    evaluate_with(expr, step_results, &f)
}

/// The placeholder for the result of a step.
pub open spec fn step_placeholder(id: Seq<char>) -> Seq<char> {
    "{{steps."@ + id + ".result}}"@
}

/// The placeholder for a variable.
pub open spec fn variable_placeholder(key: Seq<char>) -> Seq<char> {
    "{{"@ + key + "}}"@
}

/// `text` with the results of steps in the place of their placeholders, one step after the other.
pub open spec fn fill_steps(text: Seq<char>, results: Entries) -> Seq<char>
    decreases results.len(),
{
    if results.len() == 0 {
        text
    } else {
        replace(
            fill_steps(text, results.drop_last()),
            step_placeholder(results.last().0),
            results.last().1,
        )
    }
}

/// `text` with variables in the place of their placeholders, one variable after the other.
pub open spec fn fill_variables(text: Seq<char>, variables: Entries) -> Seq<char>
    decreases variables.len(),
{
    if variables.len() == 0 {
        text
    } else {
        replace(
            fill_variables(text, variables.drop_last()),
            variable_placeholder(variables.last().0),
            variables.last().1,
        )
    }
}

/// `text` with all placeholders filled: those of steps first, then those of variables.
pub open spec fn filled(text: Seq<char>, results: Entries, variables: Entries) -> Seq<char> {
    fill_variables(fill_steps(text, results), variables)
}

/// A JSON value with the placeholders filled in all texts inside it; field names stay.
pub open spec fn filled_json(v: JsonV, results: Entries, variables: Entries) -> JsonV
    decreases v,
{
    match v {
        JsonV::Text(t) => JsonV::Text(filled(t, results, variables)),
        JsonV::Array(items) => JsonV::Array(filled_items(items, results, variables)),
        JsonV::Object(fields) => JsonV::Object(filled_fields(fields, results, variables)),
        other => other,
    }
}

/// The items of an array with the placeholders filled.
pub open spec fn filled_items(s: Seq<JsonV>, results: Entries, variables: Entries) -> Seq<JsonV>
    decreases s,
{
    if s.len() == 0 {
        Seq::empty()
    } else {
        filled_items(s.drop_last(), results, variables).push(
            filled_json(s.last(), results, variables),
        )
    }
}

/// The fields of an object with the placeholders filled.
pub open spec fn filled_fields(
    s: Seq<(Seq<char>, JsonV)>,
    results: Entries,
    variables: Entries,
) -> Seq<(Seq<char>, JsonV)>
    decreases s,
{
    if s.len() == 0 {
        Seq::empty()
    } else {
        filled_fields(s.drop_last(), results, variables).push(
            (s.last().0, filled_json(s.last().1, results, variables)),
        )
    }
}

/// `text` with variables in the place of their placeholders.
pub fn fill_variables_text(text: &str, variables: &TextMap) -> (r: String)
    ensures
        r@ == fill_variables(text@, variables@),
{
    let mut out = text.to_owned();
    let mut i: usize = 0;
    assert(variables@.take(0) =~= Entries::empty());
    while i < variables.len()
        invariant
            i <= variables@.len(),
            out@ == fill_variables(text@, variables@.take(i as int)),
        decreases variables@.len() - i,
    {
        let e = variables.entry(i);
        let mut placeholder = "{{".to_owned();
        placeholder.push_str(e.0.as_str());
        placeholder.push_str("}}");
        proof {
            reveal_strlit("}}");
            assert(variables@.take(i + 1).drop_last() =~= variables@.take(i as int));
        }
        out = replace_text(out.as_str(), placeholder.as_str(), e.1.as_str());
        i += 1;
    }
    assert(variables@.take(i as int) =~= variables@);
    out
}

/// `text` with the placeholders of steps and variables filled. Placeholders of neither are left
/// as they are.
pub fn interpolate_str(text: &str, step_results: &TextMap, variables: &TextMap) -> (r: String)
    ensures
        r@ == filled(text@, step_results@, variables@),
{
    let mut out = text.to_owned();
    let mut i: usize = 0;
    assert(step_results@.take(0) =~= Entries::empty());
    while i < step_results.len()
        invariant
            i <= step_results@.len(),
            out@ == fill_steps(text@, step_results@.take(i as int)),
        decreases step_results@.len() - i,
    {
        let e = step_results.entry(i);
        let mut placeholder = "{{steps.".to_owned();
        placeholder.push_str(e.0.as_str());
        placeholder.push_str(".result}}");
        proof {
            reveal_strlit(".result}}");
            assert(step_results@.take(i + 1).drop_last() =~= step_results@.take(i as int));
        }
        out = replace_text(out.as_str(), placeholder.as_str(), e.1.as_str());
        i += 1;
    }
    assert(step_results@.take(i as int) =~= step_results@);
    fill_variables_text(out.as_str(), variables)
}

/// A JSON value with the placeholders filled in all texts inside it.
pub fn interpolate_json(value: &Json, step_results: &TextMap, variables: &TextMap) -> (r: Json)
    ensures
        r@ == filled_json(value@, step_results@, variables@),
    decreases value,
{
    match value {
        Json::Text(t) => Json::Text(interpolate_str(t.as_str(), step_results, variables)),
        Json::Array(items) => Json::Array(interpolate_items(items, step_results, variables)),
        Json::Object(fields) => Json::Object(interpolate_fields(fields, step_results, variables)),
        other => other.clone(),
    }
}

/// The items of an array with the placeholders filled.
fn interpolate_items(items: &Vec<Json>, step_results: &TextMap, variables: &TextMap) -> (r: Vec<
    Json,
>)
    ensures
        models(r@) == filled_items(models(items@), step_results@, variables@),
    decreases items,
{
    let mut r: Vec<Json> = Vec::new();
    let mut i: usize = 0;
    while i < items.len()
        invariant
            i <= items@.len(),
            models(r@) == filled_items(
                models(items@.take(i as int)),
                step_results@,
                variables@,
            ),
        decreases items@.len() - i,
    {
        let ghost before = r@;
        assert(decreases_to!(items => items@[i as int]));
        let c = interpolate_json(&items[i], step_results, variables);
        r.push(c);
        assert(r@.drop_last() =~= before);
        assert(items@.take(i + 1).drop_last() =~= items@.take(i as int));
        assert(models(items@.take(i + 1)).drop_last() =~= models(items@.take(i as int)));
        i += 1;
    }
    assert(items@.take(i as int) =~= items@);
    r
}

/// The fields of an object with the placeholders filled.
fn interpolate_fields(
    fields: &Vec<(String, Json)>,
    step_results: &TextMap,
    variables: &TextMap,
) -> (r: Vec<(String, Json)>)
    ensures
        field_models(r@) == filled_fields(field_models(fields@), step_results@, variables@),
    decreases fields,
{
    let mut r: Vec<(String, Json)> = Vec::new();
    let mut i: usize = 0;
    while i < fields.len()
        invariant
            i <= fields@.len(),
            field_models(r@) == filled_fields(
                field_models(fields@.take(i as int)),
                step_results@,
                variables@,
            ),
        decreases fields@.len() - i,
    {
        let ghost before = r@;
        assert(decreases_to!(fields => fields@[i as int]));
        assert(decreases_to!(fields@[i as int] => fields@[i as int].1));
        let c = interpolate_json(&fields[i].1, step_results, variables);
        r.push((fields[i].0.clone(), c));
        assert(r@.drop_last() =~= before);
        assert(fields@.take(i + 1).drop_last() =~= fields@.take(i as int));
        assert(field_models(fields@.take(i + 1)).drop_last() =~= field_models(
            fields@.take(i as int),
        ));
        i += 1;
    }
    assert(fields@.take(i as int) =~= fields@);
    r
}

/// A text that holds no placeholder of a known step or variable is left as it is.
pub proof fn law_unknown_placeholders_stay(text: Seq<char>, results: Entries, variables: Entries)
    requires
        forall|i: int|
            0 <= i < results.len() ==> !contains(text, step_placeholder((#[trigger] results[i]).0)),
        forall|i: int|
            0 <= i < variables.len() ==> !contains(
                text,
                variable_placeholder((#[trigger] variables[i]).0),
            ),
    ensures
        filled(text, results, variables) == text,
    decreases results.len() + variables.len(),
{
    if variables.len() > 0 {
        let vs = variables.drop_last();
        assert forall|i: int| 0 <= i < vs.len() implies !contains(
            text,
            variable_placeholder((#[trigger] vs[i]).0),
        ) by {
            assert(vs[i] == variables[i]);
        }
        law_unknown_placeholders_stay(text, results, vs);
        assert(variables.last() == variables[variables.len() - 1]);
        lemma_replace_absent(
            text,
            variable_placeholder(variables.last().0),
            variables.last().1,
        );
    } else if results.len() > 0 {
        let rs = results.drop_last();
        assert forall|i: int| 0 <= i < rs.len() implies !contains(
            text,
            step_placeholder((#[trigger] rs[i]).0),
        ) by {
            assert(rs[i] == results[i]);
        }
        law_unknown_placeholders_stay(text, rs, variables);
        assert(results.last() == results[results.len() - 1]);
        lemma_replace_absent(text, step_placeholder(results.last().0), results.last().1);
    }
}

/// A text that begins and ends with something else than white space is not changed by trimming.
proof fn lemma_trim_none(s: Seq<char>)
    requires
        s.len() > 0,
        !is_space(s[0]),
        !is_space(s.last()),
    ensures
        trim(s) == s,
{
}

/// A text that trimming does not change begins and ends with something else than white space.
proof fn lemma_trim_fixed(s: Seq<char>)
    requires
        s.len() > 0,
        trim(s) == s,
    ensures
        !is_space(s[0]),
        !is_space(s.last()),
{
    lemma_strip_start_len(s, CharClass::Space);
    lemma_strip_end_len(strip_start(s, CharClass::Space), CharClass::Space);
    lemma_strip_end_len(s.drop_last(), CharClass::Space);
    if is_space(s[0]) {
        lemma_strip_start_len(s.drop_first(), CharClass::Space);
    }
}

/// Behind text in which every quotation mark is closed, quotation marks count as at the beginning.
proof fn lemma_inside_add(a: Seq<char>, b: Seq<char>)
    requires
        inside(a) is None,
    ensures
        inside(a + b) == inside(b),
    decreases b.len(),
{
    if b.len() == 0 {
        assert(a + b =~= a);
    } else {
        assert((a + b).drop_last() =~= a + b.drop_last());
        lemma_inside_add(a, b.drop_last());
    }
}

/// Text without quotation marks opens none.
proof fn lemma_inside_none(s: Seq<char>)
    requires
        forall|i: int| 0 <= i < s.len() ==> !is_mark(#[trigger] s[i]),
    ensures
        inside(s) is None,
    decreases s.len(),
{
    if s.len() > 0 {
        assert(!is_mark(s[s.len() - 1]));
        assert forall|i: int| 0 <= i < s.drop_last().len() implies !is_mark(
            #[trigger] s.drop_last()[i],
        ) by {
            assert(s.drop_last()[i] == s[i]);
        }
        lemma_inside_none(s.drop_last());
    }
}

/// A word that joins conditions, with the blanks around it.
spec fn joins(w: Seq<char>) -> bool {
    &&& w.len() >= 3
    &&& w[0] == ' '
    &&& w.last() == ' '
    &&& forall|t: int| 0 < t < w.len() - 1 ==> #[trigger] w[t] != ' ' && !is_mark(w[t])
}

/// `a` with a blank before and behind it.
pub open spec fn spaced(a: Seq<char>) -> Seq<char> {
    seq![' '] + a + seq![' ']
}

/// Whether a joining word stands nowhere in `a` outside quotation marks, not even at its ends.
pub open spec fn free_of(a: Seq<char>, w: Seq<char>) -> bool {
    find_open(spaced(a), w) is None
}

/// A condition that is not joined: it is not blank, has no blanks around it, closes its quotation
/// marks, and holds no `or` and no `and` outside of them.
pub open spec fn clause(a: Seq<char>) -> bool {
    &&& a.len() > 0
    &&& trim(a) == a
    &&& inside(a) is None
    &&& free_of(a, " or "@)
    &&& free_of(a, " and "@)
}

proof fn lemma_joins()
    ensures
        joins(" or "@),
        joins(" and "@),
        " or "@ != " and "@,
        " or "@.len() == 4,
        " and "@.len() == 5,
        inside(" or "@) is None,
        inside(" and "@) is None,
{
    reveal_strlit(" or ");
    reveal_strlit(" and ");
    lemma_inside_none(" or "@);
    lemma_inside_none(" and "@);
}

/// What stands in `s` stands in `s` with blanks around it, one further on.
proof fn lemma_spaced(s: Seq<char>, w: Seq<char>)
    requires
        free_of(s, w),
    ensures
        find_open(s, w) is None,
{
    let p = spaced(s);
    lemma_find_open_from(p, w, 0);
    lemma_find_open_from(s, w, 0);
    assert forall|j: int| 0 <= j implies !open_at(s, w, j) by {
        if open_at(s, w, j) {
            assert(p.subrange(j + 1, j + 1 + w.len()) =~= s.subrange(j, j + w.len()));
            assert(p.take(j + 1) =~= seq![' '] + s.take(j));
            lemma_inside_none(seq![' ']);
            lemma_inside_add(seq![' '], s.take(j));
            assert(open_at(p, w, j + 1));
        }
    }
}

/// Before the place where a joining word joins it stands nowhere, when it stands nowhere in front.
#[verifier::spinoff_prover]
proof fn lemma_not_before(a: Seq<char>, w: Seq<char>, rest: Seq<char>, j: int)
    requires
        joins(w),
        free_of(a, w),
        0 <= j < a.len(),
    ensures
        !open_at(a + w + rest, w, j),
{
    let e = a + w + rest;
    let n = a.len() as int;
    let p = spaced(a);
    if open_at(e, w, j) {
        let t = n - j;
        if t < w.len() - 1 {
            assert(e.subrange(j, j + w.len())[t] == e[n]);
            assert(e[n] == w[0]);
            assert(w[t] != ' ');
        } else {
            assert(p.subrange(j + 1, j + 1 + w.len()) =~= e.subrange(j, j + w.len()));
            assert(p.take(j + 1) =~= seq![' '] + e.take(j));
            lemma_inside_none(seq![' ']);
            lemma_inside_add(seq![' '], e.take(j));
            assert(open_at(p, w, j + 1));
            lemma_find_open_from(p, w, 0);
        }
    }
}

/// The first place of a joining word is where it joins, when it stands nowhere before.
#[verifier::spinoff_prover]
proof fn lemma_first(a: Seq<char>, w: Seq<char>, rest: Seq<char>)
    requires
        joins(w),
        inside(a) is None,
        free_of(a, w),
    ensures
        find_open(a + w + rest, w) == Some(a.len() as int),
{
    let e = a + w + rest;
    let n = a.len() as int;
    assert(e.subrange(n, n + w.len()) =~= w);
    assert(e.take(n) =~= a);
    assert(open_at(e, w, n));
    assert forall|j: int| 0 <= j < n implies !open_at(e, w, j) by {
        lemma_not_before(a, w, rest, j);
    }
    lemma_find_open_from(e, w, 0);
}

/// Joining by one word brings in no other joining word.
#[verifier::rlimit(60)]
#[verifier::spinoff_prover]
proof fn lemma_free_join(a: Seq<char>, sep: Seq<char>, b: Seq<char>, w: Seq<char>)
    requires
        joins(w),
        joins(sep),
        w != sep,
        inside(a) is None,
        free_of(a, w),
        free_of(b, w),
    ensures
        free_of(a + sep + b, w),
{
    let e = spaced(a + sep + b);
    let pa = spaced(a);
    let pb = spaced(b);
    let n = a.len() as int;
    let m = n + sep.len();
    lemma_find_open_from(e, w, 0);
    lemma_find_open_from(pa, w, 0);
    lemma_find_open_from(pb, w, 0);
    let head = seq![' '] + a + sep.drop_last();
    assert(inside(head) is None) by {
        lemma_inside_none(seq![' ']);
        lemma_inside_add(seq![' '], a);
        assert forall|i: int| 0 <= i < sep.drop_last().len() implies !is_mark(
            #[trigger] sep.drop_last()[i],
        ) by {
            assert(sep.drop_last()[i] == sep[i]);
        }
        lemma_inside_none(sep.drop_last());
        lemma_inside_add(seq![' '] + a, sep.drop_last());
    }
    assert forall|j: int| 0 <= j implies !open_at(e, w, j) by {
        if open_at(e, w, j) {
            let found = e.subrange(j, j + w.len());
            assert(found[0] == e[j]);
            if j <= n {
                assert(e[n + 1] == sep[0]);
                let t = n + 1 - j;
                if t < w.len() - 1 {
                    assert(found[t] == e[n + 1]);
                    assert(w[t] != ' ');
                } else {
                    assert(pa.subrange(j, j + w.len()) =~= found);
                    assert(pa.take(j) =~= e.take(j));
                    assert(open_at(pa, w, j));
                }
            } else if j == n + 1 {
                if w.len() < sep.len() {
                    let t = w.len() - 1;
                    assert(found[t] == e[j + t]);
                    assert(e[j + t] == sep[t]);
                    assert(sep[t] != ' ');
                } else if w.len() > sep.len() {
                    let t = sep.len() - 1;
                    assert(found[t] == e[j + t]);
                    assert(e[j + t] == sep[t]);
                    assert(w[t] != ' ');
                } else {
                    assert(found =~= sep);
                }
            } else if j < m {
                assert(e[j] == sep[j - n - 1]);
                assert(sep[j - n - 1] != ' ');
            } else {
                let k = j - m;
                assert(pb.subrange(k, k + w.len()) =~= found);
                assert(e.take(j) =~= head + pb.take(k));
                lemma_inside_add(head, pb.take(k));
                assert(open_at(pb, w, k));
            }
        }
    }
}

/// Two trimmed texts with something between them are trimmed.
proof fn lemma_trim_join(a: Seq<char>, sep: Seq<char>, b: Seq<char>)
    requires
        a.len() > 0,
        b.len() > 0,
        trim(a) == a,
        trim(b) == b,
    ensures
        trim(a + sep + b) == a + sep + b,
{
    lemma_trim_fixed(a);
    lemma_trim_fixed(b);
    let e = a + sep + b;
    assert(e[0] == a[0]);
    assert(e.last() == b.last());
    lemma_trim_none(e);
}

/// `or` joins a condition without `or` and any other: one of them is to be met.
proof fn lemma_or(a: Seq<char>, b: Seq<char>, results: Entries, f: Fillings)
    requires
        a.len() > 0,
        b.len() > 0,
        trim(a) == a,
        trim(b) == b,
        inside(a) is None,
        free_of(a, " or "@),
    ensures
        condition(a + " or "@ + b, results, f) == (condition(a, results, f) || condition(
            b,
            results,
            f,
        )),
{
    lemma_joins();
    let e = a + " or "@ + b;
    lemma_trim_join(a, " or "@, b);
    lemma_first(a, " or "@, b);
    assert(e.take(a.len() as int) =~= a);
    assert(e.skip((a.len() + 4) as int) =~= b);
}

/// `and` joins conditions without `or`: both are to be met.
proof fn lemma_and(a: Seq<char>, b: Seq<char>, results: Entries, f: Fillings)
    requires
        clause(a),
        b.len() > 0,
        trim(b) == b,
        free_of(b, " or "@),
    ensures
        condition(a + " and "@ + b, results, f) == (condition(a, results, f) && condition(
            b,
            results,
            f,
        )),
        free_of(a + " and "@ + b, " or "@),
        trim(a + " and "@ + b) == a + " and "@ + b,
{
    lemma_joins();
    let e = a + " and "@ + b;
    lemma_trim_join(a, " and "@, b);
    lemma_free_join(a, " and "@, b, " or "@);
    lemma_spaced(e, " or "@);
    lemma_first(a, " and "@, b);
    assert(e.take(a.len() as int) =~= a);
    assert(e.skip((a.len() + 5) as int) =~= b);
}

/// A condition with `not` before it is still not joined.
proof fn lemma_not_clause(a: Seq<char>)
    requires
        clause(a),
    ensures
        clause("not "@ + a),
{
    reveal_strlit("not ");
    lemma_joins();
    let e = "not "@ + a;
    lemma_trim_fixed(a);
    assert(e[0] == 'n');
    assert(e.last() == a.last());
    lemma_trim_none(e);
    lemma_inside_none("not "@);
    lemma_inside_add("not "@, a);
    lemma_not_free(a, " or "@);
    lemma_not_free(a, " and "@);
}

proof fn lemma_not_free(a: Seq<char>, w: Seq<char>)
    requires
        joins(w),
        w == " or "@ || w == " and "@,
        free_of(a, w),
    ensures
        free_of("not "@ + a, w),
{
    reveal_strlit("not ");
    reveal_strlit(" or ");
    reveal_strlit(" and ");
    let e = spaced("not "@ + a);
    let p = spaced(a);
    let head = e.take(4);
    assert(head =~= seq![' ', 'n', 'o', 't']);
    lemma_inside_none(head);
    lemma_find_open_from(e, w, 0);
    lemma_find_open_from(p, w, 0);
    assert forall|j: int| 0 <= j implies !open_at(e, w, j) by {
        if open_at(e, w, j) {
            let found = e.subrange(j, j + w.len());
            assert(found[0] == e[j]);
            assert(found[1] == e[j + 1]);
            if j == 0 {
                assert(e[1] == 'n');
            } else if j >= 4 {
                let k = j - 4;
                assert(p.subrange(k, k + w.len()) =~= found);
                assert(e.take(j) =~= head + p.take(k));
                lemma_inside_add(head, p.take(k));
                assert(open_at(p, w, k));
            }
        }
    }
}

/// `not` turns a condition that is not joined round.
proof fn lemma_not(a: Seq<char>, results: Entries, f: Fillings)
    requires
        clause(a),
    ensures
        condition("not "@ + a, results, f) == !condition(a, results, f),
{
    reveal_strlit("not ");
    let e = "not "@ + a;
    lemma_not_clause(a);
    lemma_spaced(e, " or "@);
    lemma_spaced(e, " and "@);
    assert(e.skip(4) =~= a);
    assert(e.take(4) =~= "not "@);
}

/// `or`, `and` and `not` mean what they say, and bind in this rising order: `and` before `or` on
/// either side of it, and `not` before both.
pub proof fn law_or_and_not(
    a: Seq<char>,
    b: Seq<char>,
    c: Seq<char>,
    results: Entries,
    f: Fillings,
)
    requires
        clause(a),
        clause(b),
        clause(c),
    ensures
        ({
            let x = condition(a, results, f);
            let y = condition(b, results, f);
            let z = condition(c, results, f);
            &&& condition(a + " or "@ + b, results, f) == (x || y)
            &&& condition(a + " and "@ + b, results, f) == (x && y)
            &&& condition("not "@ + a, results, f) == !x
            &&& condition(a + " or "@ + (b + " and "@ + c), results, f) == (x || (y && z))
            &&& condition(a + " and "@ + b + " or "@ + c, results, f) == ((x && y) || z)
            &&& condition("not "@ + a + " and "@ + b, results, f) == (!x && y)
            &&& condition("not "@ + a + " or "@ + b, results, f) == (!x || y)
        }),
{
    lemma_joins();
    lemma_or(a, b, results, f);
    lemma_and(a, b, results, f);
    lemma_not(a, results, f);
    lemma_and(b, c, results, f);
    lemma_or(a, b + " and "@ + c, results, f);
    let ab = a + " and "@ + b;
    assert(inside(ab) is None) by {
        lemma_inside_add(a, " and "@);
        lemma_inside_add(a + " and "@, b);
    }
    lemma_or(ab, c, results, f);
    lemma_not_clause(a);
    lemma_and("not "@ + a, b, results, f);
    lemma_or("not "@ + a, b, results, f);
}

/// A blank condition is met.
pub proof fn law_blank_is_met(cond: Seq<char>, results: Entries, f: Fillings)
    requires
        trim(cond).len() == 0,
    ensures
        condition(cond, results, f),
{
}

/// What a documented condition asks of the result of a step.
pub enum TestV {
    /// That it is not empty.
    Present,
    /// That it contains a text.
    Contains(Seq<char>),
    /// That it is a text.
    Is(Seq<char>),
    /// That it is not a text.
    IsNot(Seq<char>),
    /// That it has more bytes.
    Longer(usize),
    /// That it has as many bytes or more.
    AtLeast(usize),
    /// That it has fewer bytes.
    Shorter(usize),
}

/// Whether a text may be the name of a step in a condition: no white space, quotation mark or dot
/// stands in it.
pub open spec fn plain_name(id: Seq<char>) -> bool {
    forall|i: int|
        0 <= i < id.len() ==> !is_space(#[trigger] id[i]) && !is_mark(id[i]) && id[i] != '.'
}

/// A text in quotation marks.
pub open spec fn in_marks(q: char, text: Seq<char>) -> Seq<char> {
    seq![q] + text + seq![q]
}

/// The reference to the result of a step.
pub open spec fn step_reference(id: Seq<char>) -> Seq<char> {
    "steps."@ + id + ".result"@
}

/// A reference, an operator and an operand, with blanks between them.
pub open spec fn operation(id: Seq<char>, op: Operator, operand: Seq<char>) -> Seq<char> {
    step_reference(id) + seq![' '] + op.sign() + seq![' '] + operand
}

/// How a condition is written.
pub open spec fn test_text(id: Seq<char>, test: TestV, q: char) -> Seq<char> {
    match test {
        TestV::Present => step_reference(id),
        TestV::Contains(text) => operation(id, Operator::Contains, in_marks(q, text)),
        TestV::Is(text) => operation(id, Operator::Equal, in_marks(q, text)),
        TestV::IsNot(text) => operation(id, Operator::Unequal, in_marks(q, text)),
        TestV::Longer(n) => operation(id, Operator::Longer, decimal(n as nat)),
        TestV::AtLeast(n) => operation(id, Operator::AtLeast, decimal(n as nat)),
        TestV::Shorter(n) => operation(id, Operator::Shorter, decimal(n as nat)),
    }
}

/// What a condition asks of a result.
pub open spec fn test_met(test: TestV, result: Seq<char>) -> bool {
    match test {
        TestV::Present => result.len() > 0,
        TestV::Contains(text) => contains(result, text),
        TestV::Is(text) => result == text,
        TestV::IsNot(text) => result != text,
        TestV::Longer(n) => byte_len(result) > n,
        TestV::AtLeast(n) => byte_len(result) >= n,
        TestV::Shorter(n) => byte_len(result) < n,
    }
}

/// Whether the text of a condition can stand in quotation marks of a kind.
pub open spec fn fits_marks(test: TestV, q: char) -> bool {
    is_mark(q) && match test {
        TestV::Contains(text) => !text.contains(q),
        TestV::Is(text) => !text.contains(q),
        TestV::IsNot(text) => !text.contains(q),
        _ => true,
    }
}

/// What is inside quotation marks of a kind stays inside as long as they are not closed.
proof fn lemma_inside_marks(head: Seq<char>, q: char, text: Seq<char>)
    requires
        is_mark(q),
        !text.contains(q),
        inside(head) is None,
    ensures
        inside(head + seq![q] + text) == Some(q),
    decreases text.len(),
{
    let s = head + seq![q] + text;
    if text.len() == 0 {
        assert(s.drop_last() =~= head);
    } else {
        assert(s.drop_last() =~= head + seq![q] + text.drop_last());
        assert(!text.drop_last().contains(q)) by {
            if text.drop_last().contains(q) {
                let i = choose|i: int| 0 <= i < text.len() - 1 && text.drop_last()[i] == q;
                assert(text[i] == q);
            }
        }
        assert(text[text.len() - 1] != q);
        lemma_inside_marks(head, q, text.drop_last());
    }
}

/// Text in quotation marks holds no joining word outside of them, and closes them.
proof fn lemma_marks_free(q: char, text: Seq<char>, w: Seq<char>)
    requires
        is_mark(q),
        !text.contains(q),
        joins(w),
    ensures
        free_of(in_marks(q, text), w),
        inside(in_marks(q, text)) is None,
{
    let s = in_marks(q, text);
    let p = spaced(s);
    let none = Seq::<char>::empty();
    let blank = seq![' '];
    lemma_find_open_from(p, w, 0);
    lemma_inside_none(blank);
    lemma_inside_marks(none, q, text);
    assert(s.drop_last() =~= none + seq![q] + text);
    assert forall|j: int| 0 <= j implies !open_at(p, w, j) by {
        if open_at(p, w, j) {
            let found = p.subrange(j, j + w.len());
            assert(found[0] == p[j]);
            assert(found[1] == p[j + 1]);
            if j == 0 {
                assert(p[1] == q);
                assert(!is_mark(w[1]));
            } else if 2 <= j < text.len() + 2 {
                let k = j - 2;
                let part = text.take(k);
                assert(!part.contains(q)) by {
                    if part.contains(q) {
                        let i = choose|i: int| 0 <= i < k && part[i] == q;
                        assert(text[i] == q);
                    }
                }
                lemma_inside_marks(blank, q, part);
                assert(p.take(j) =~= blank + seq![q] + part);
            }
        }
    }
}

/// A number holds no joining word.
proof fn lemma_number_free(n: nat, w: Seq<char>)
    requires
        joins(w),
        w[1] == 'o' || w[1] == 'a',
    ensures
        free_of(decimal(n), w),
        inside(decimal(n)) is None,
{
    let s = decimal(n);
    let p = spaced(s);
    lemma_decimal(n);
    lemma_find_open_from(p, w, 0);
    assert forall|i: int| 0 <= i < s.len() implies !is_mark(#[trigger] s[i]) by {
        assert('0' <= s[i] <= '9');
    }
    lemma_inside_none(s);
    assert forall|j: int| 0 <= j implies !open_at(p, w, j) by {
        if open_at(p, w, j) {
            let found = p.subrange(j, j + w.len());
            assert(found[0] == p[j]);
            assert(found[1] == p[j + 1]);
            if j == 0 {
                assert(p[1] == s[0]);
            } else if j <= s.len() {
                assert(p[j] == s[j - 1]);
            }
        }
    }
}

/// What is known of the reference to the result of a step.
proof fn lemma_step_reference(id: Seq<char>)
    requires
        plain_name(id),
    ensures
        ({
            let r = step_reference(id);
            &&& r.len() == id.len() + 13
            &&& r[0] == 's'
            &&& r.last() == 't'
            &&& forall|i: int|
                0 <= i < r.len() ==> !is_space(#[trigger] r[i]) && !is_mark(r[i])
            &&& forall|i: int|
                id.len() + 7 <= i < r.len() ==> #[trigger] r[i] != '=' && r[i] != '!'
            &&& forall|i: int| 6 <= i < id.len() + 6 ==> #[trigger] r[i] != '.'
            &&& r[id.len() as int + 6] == '.'
            &&& inside(r) is None
            &&& "steps."@.is_prefix_of(r)
        }),
{
    reveal_strlit("steps.");
    reveal_strlit(".result");
    let r = step_reference(id);
    assert forall|i: int| 0 <= i < r.len() implies !is_space(#[trigger] r[i]) && !is_mark(r[i]) by {
        if 6 <= i < id.len() + 6 {
            assert(r[i] == id[i - 6]);
        } else if i >= id.len() + 6 {
            assert(r[i] == ".result"@[i - 6 - id.len()]);
        } else {
            assert(r[i] == "steps."@[i]);
        }
    }
    assert forall|i: int| 6 <= i < id.len() + 6 implies #[trigger] r[i] != '.' by {
        assert(r[i] == id[i - 6]);
    }
    assert forall|i: int| id.len() + 7 <= i < r.len() implies #[trigger] r[i] != '=' && r[i]
        != '!' by {
        assert(r[i] == ".result"@[i - 6 - id.len()]);
    }
    assert(r.take(6) =~= "steps."@);
    lemma_inside_none(r);
}

/// `steps.<id>.result` stands for the result of the step with that id, and for the empty text where
/// there is no such step, whatever the id is, as long as no dot stands in it.
pub proof fn law_reference_gives_result(id: Seq<char>, results: Entries)
    requires
        forall|i: int| 0 <= i < id.len() ==> id[i] != '.',
    ensures
        resolved(step_reference(id), results, no_fillings()) == result_of(results, id),
{
    reveal_strlit("steps.");
    reveal_strlit(".result");
    reveal_strlit(".");
    let r = step_reference(id);
    assert(r[0] == 's');
    assert(r.last() == 't');
    lemma_trim_none(r);
    assert(r.take(6) =~= "steps."@);
    assert("steps."@.is_prefix_of(r));
    let rest = r.skip(6);
    assert(rest =~= id + ".result"@);
    lemma_find_from(rest, "."@, 0);
    assert(occurs_at(rest, "."@, id.len() as int)) by {
        assert(rest.subrange(id.len() as int, id.len() as int + 1) =~= "."@);
    }
    assert forall|j: int| 0 <= j < id.len() implies !occurs_at(rest, "."@, j) by {
        if occurs_at(rest, "."@, j) {
            assert(rest.subrange(j, j + 1)[0] == '.');
            assert(id[j] == '.');
        }
    }
    assert(rest.take(id.len() as int) =~= id);
}

/// A reference to anything but a step stands for the empty text.
pub proof fn law_unknown_references_are_empty(reference: Seq<char>, results: Entries)
    requires
        !quoted(trim(reference)),
        !("steps."@.is_prefix_of(trim(reference))),
    ensures
        resolved(reference, results, no_fillings()).len() == 0,
{
    assert(no_fillings().fill(trim(reference)) == trim(reference));
}

/// Where a reference to a step begins a condition, its name ends behind the dot after it.
proof fn lemma_name_end(id: Seq<char>, e: Seq<char>)
    requires
        plain_name(id),
        step_reference(id).is_prefix_of(e),
    ensures
        name_end(e) == id.len() + 7,
{
    reveal_strlit("steps.");
    reveal_strlit(".");
    lemma_step_reference(id);
    let r = step_reference(id);
    let k = id.len() as int + 6;
    assert(e.take(r.len() as int) =~= r);
    assert forall|i: int| 0 <= i < r.len() implies e[i] == #[trigger] r[i] by {
        assert(e.take(r.len() as int)[i] == e[i]);
    }
    assert(e.take(6) =~= r.take(6));
    assert("steps."@.is_prefix_of(e));
    lemma_find_open_from(e, "."@, 6);
    assert(open_at(e, "."@, k)) by {
        assert(e.subrange(k, k + 1) =~= "."@);
        let part = e.take(k);
        assert forall|i: int| 0 <= i < part.len() implies !is_mark(#[trigger] part[i]) by {
            assert(part[i] == r[i]);
        }
        lemma_inside_none(part);
        assert(!is_mark(r[k]));
    }
    assert forall|j: int| 6 <= j < k implies !open_at(e, "."@, j) by {
        if open_at(e, "."@, j) {
            assert(e.subrange(j, j + 1)[0] == e[j]);
            assert(r[j] != '.');
        }
    }
}

/// No operator stands in a reference to a step, whatever letters its name holds.
#[verifier::spinoff_prover]
proof fn lemma_no_operator_in_reference(id: Seq<char>, e: Seq<char>, op: Operator, j: int)
    requires
        plain_name(id),
        step_reference(id).is_prefix_of(e),
        j < step_reference(id).len(),
    ensures
        !stands(e, op, j),
{
    reveal_strlit("==");
    reveal_strlit("!=");
    lemma_step_reference(id);
    lemma_name_end(id, e);
    let r = step_reference(id);
    if stands(e, op, j) {
        assert(e.take(r.len() as int)[j] == r[j]);
        assert(e.take(r.len() as int)[j - 1] == r[j - 1]);
        assert(!is_space(r[j - 1]) && !is_mark(r[j - 1]));
        if op is Equal || op is Unequal {
            lemma_sign_begins(e, op.sign(), j, 0);
        }
    }
}

/// A sign at a position begins with the character there.
proof fn lemma_sign_begins(e: Seq<char>, p: Seq<char>, i: int, k: int)
    requires
        occurs_at(e, p, i),
        0 <= k < p.len(),
    ensures
        e[i + k] == p[k],
{
    assert(e.subrange(i, i + p.len())[k] == e[i + k]);
}

/// Whether an operand holds nothing outside quotation marks with which an operator begins.
spec fn silent(operand: Seq<char>) -> bool {
    forall|k: int|
        #![trigger operand[k]]
        0 <= k < operand.len() && inside(operand.take(k)) is None ==> operand[k] != 'c'
            && operand[k] != 'l' && operand[k] != '=' && operand[k] != '!'
}

/// With what an operator begins, and how long it is.
proof fn lemma_sign(op: Operator)
    ensures
        op.sign().len() >= 2,
        op is Contains ==> op.sign()[0] == 'c' && op.sign().len() == 8,
        op is Longer || op is AtLeast || op is Shorter ==> op.sign()[0] == 'l' && op.sign().len()
            >= 8,
        op is Longer || op is AtLeast ==> op.sign()[7] == '>',
        op is Longer ==> op.sign().len() == 8,
        op is AtLeast ==> op.sign().len() == 9 && op.sign()[8] == '=',
        op is Shorter ==> op.sign().len() == 8 && op.sign()[7] == '<',
        op is Equal ==> op.sign()[0] == '=' && op.sign()[1] == '=' && op.sign().len() == 2,
        op is Unequal ==> op.sign()[0] == '!' && op.sign()[1] == '=' && op.sign().len() == 2,
        forall|t: int|
            0 < t < op.sign().len() ==> #[trigger] op.sign()[t] != 'c' && op.sign()[t] != 'l'
                && op.sign()[t] != '!' && !is_mark(op.sign()[t]),
        forall|t: int|
            0 < t < op.sign().len() - 1 ==> #[trigger] op.sign()[t] != '=',
{
    reveal_strlit("contains");
    reveal_strlit("length >");
    reveal_strlit("length >=");
    reveal_strlit("length <");
    reveal_strlit("==");
    reveal_strlit("!=");
}

/// The characters of a documented condition, one part after the other.
proof fn lemma_operation_parts(id: Seq<char>, op: Operator, operand: Seq<char>)
    ensures
        ({
            let e = operation(id, op, operand);
            let r = step_reference(id);
            let n = r.len() as int;
            let m = n + 1 + op.sign().len();
            &&& e.len() == m + 1 + operand.len()
            &&& r.is_prefix_of(e)
            &&& e[n] == ' '
            &&& e[m] == ' '
            &&& forall|t: int|
                0 <= t < op.sign().len() ==> e[n + 1 + t] == #[trigger] op.sign()[t]
            &&& e == r + seq![' '] + op.sign() + seq![' '] + operand
        }),
{
    let e = operation(id, op, operand);
    let r = step_reference(id);
    assert(e.take(r.len() as int) =~= r);
}

/// No other operator stands where the one of a documented condition stands.
#[verifier::spinoff_prover]
proof fn lemma_no_other_there(id: Seq<char>, op: Operator, operand: Seq<char>, other: Operator)
    requires
        other != op,
    ensures
        !stands(operation(id, op, operand), other, step_reference(id).len() as int + 1),
{
    lemma_operation_parts(id, op, operand);
    lemma_sign(op);
    lemma_sign(other);
    let e = operation(id, op, operand);
    let i = step_reference(id).len() as int + 1;
    let sign = op.sign();
    if stands(e, other, i) {
        lemma_sign_begins(e, other.sign(), i, 0);
        assert(e[i + 0] == sign[0]);
        if sign[0] == 'l' {
            lemma_sign_begins(e, other.sign(), i, 7);
            assert(e[i + 7] == sign[7]);
            if op is AtLeast {
                assert(e[i + 8] == sign[8]);
            }
            if other is AtLeast {
                lemma_sign_begins(e, other.sign(), i, 8);
            }
        }
    }
}

/// No operator stands inside the one of a documented condition, nor in the blanks around it.
#[verifier::spinoff_prover]
proof fn lemma_no_other_within(
    id: Seq<char>,
    op: Operator,
    operand: Seq<char>,
    other: Operator,
    j: int,
)
    requires
        step_reference(id).len() <= j <= step_reference(id).len() + 1 + op.sign().len(),
        j != step_reference(id).len() + 1,
    ensures
        !stands(operation(id, op, operand), other, j),
{
    lemma_operation_parts(id, op, operand);
    lemma_sign(op);
    lemma_sign(other);
    let e = operation(id, op, operand);
    let i = step_reference(id).len() as int + 1;
    let m = i + op.sign().len();
    if stands(e, other, j) {
        lemma_sign_begins(e, other.sign(), j, 0);
        lemma_sign_begins(e, other.sign(), j, 1);
        if i < j < m {
            let t = j - i;
            assert(e[i + t] == op.sign()[t]);
        }
    }
}

/// What stands before the operand of a documented condition holds no quotation marks.
proof fn lemma_head_closed(id: Seq<char>, op: Operator)
    requires
        plain_name(id),
    ensures
        inside(step_reference(id) + seq![' '] + op.sign() + seq![' ']) is None,
{
    lemma_step_reference(id);
    lemma_sign(op);
    let r = step_reference(id);
    let head = r + seq![' '] + op.sign() + seq![' '];
    assert forall|t: int| 0 <= t < head.len() implies !is_mark(#[trigger] head[t]) by {
        if t < r.len() {
            assert(head[t] == r[t]);
        } else if r.len() < t < head.len() - 1 {
            assert(head[t] == op.sign()[t - r.len() - 1]);
        }
    }
    lemma_inside_none(head);
}

/// With which characters an operator may begin.
proof fn lemma_sign_first(op: Operator)
    ensures
        op.sign().len() > 0,
        op.sign()[0] == 'c' || op.sign()[0] == 'l' || op.sign()[0] == '=' || op.sign()[0] == '!',
{
    lemma_sign(op);
}

/// No operator stands in the operand of a documented condition.
#[verifier::spinoff_prover]
proof fn lemma_no_other_behind(
    id: Seq<char>,
    op: Operator,
    operand: Seq<char>,
    other: Operator,
    j: int,
)
    requires
        plain_name(id),
        silent(operand),
        j > step_reference(id).len() + 1 + op.sign().len(),
    ensures
        !stands(operation(id, op, operand), other, j),
{
    let e = operation(id, op, operand);
    if stands(e, other, j) {
        let head = step_reference(id) + seq![' '] + op.sign() + seq![' '];
        let k = j - head.len();
        lemma_sign_first(other);
        lemma_sign_begins(e, other.sign(), j, 0);
        lemma_head_closed(id, op);
        lemma_inside_add(head, operand.take(k));
        assert(e == head + operand);
        assert(e[j] == operand[k]);
        assert(e.take(j) =~= head + operand.take(k));
    }
}

/// In a documented condition no operator stands but the one, and that only in its place.
proof fn lemma_no_other(id: Seq<char>, op: Operator, operand: Seq<char>, other: Operator, j: int)
    requires
        plain_name(id),
        silent(operand),
        j != step_reference(id).len() + 1 || other != op,
    ensures
        !stands(operation(id, op, operand), other, j),
{
    let n = step_reference(id).len() as int;
    if j < n {
        lemma_operation_parts(id, op, operand);
        lemma_no_operator_in_reference(id, operation(id, op, operand), other, j);
    } else if j == n + 1 {
        lemma_no_other_there(id, op, operand, other);
    } else if j <= n + 1 + op.sign().len() {
        lemma_no_other_within(id, op, operand, other, j);
    } else {
        lemma_no_other_behind(id, op, operand, other, j);
    }
}

/// The operator of a documented condition is found where it stands.
#[verifier::spinoff_prover]
proof fn lemma_operator_found(id: Seq<char>, op: Operator, operand: Seq<char>)
    requires
        plain_name(id),
        operand.len() > 0,
        silent(operand),
    ensures
        ({
            let e = operation(id, op, operand);
            let n = step_reference(id).len() as int;
            &&& operator_in(e) == Some((n + 1, op))
            &&& e.take(n + 1) == step_reference(id) + seq![' ']
            &&& e.skip(n + 1 + op.sign().len()) == seq![' '] + operand
        }),
{
    lemma_step_reference(id);
    lemma_sign(op);
    let r = step_reference(id);
    let e = operation(id, op, operand);
    let n = r.len() as int;
    let i = n + 1;
    assert(e[n] == ' ');
    assert(e[i] == op.sign()[0]);
    assert(e.subrange(i, i + op.sign().len()) =~= op.sign());
    assert(e[i + op.sign().len()] == ' ');
    assert(e.take(i) =~= r + seq![' ']);
    assert(e.skip(i + op.sign().len()) =~= seq![' '] + operand);
    lemma_inside_none(seq![' ']);
    lemma_inside_add(r, seq![' ']);
    assert(stands(e, op, i));
    assert forall|other: Operator|
        #[trigger] find_operator_from(e, other, 0) == if other == op {
            Some(i)
        } else {
            None
        } by {
        lemma_find_operator_from(e, other, 0);
        assert forall|j: int| 0 <= j && (j != i || other != op) implies !stands(e, other, j) by {
            lemma_no_other(id, op, operand, other, j);
        }
    }
}

/// A documented condition with an operator is not joined.
proof fn lemma_operation_clause(id: Seq<char>, op: Operator, operand: Seq<char>)
    requires
        plain_name(id),
        operand.len() > 0,
        !is_space(operand.last()),
        inside(operand) is None,
        free_of(operand, " or "@),
        free_of(operand, " and "@),
    ensures
        clause(operation(id, op, operand)),
{
    lemma_joins();
    reveal_strlit("contains");
    reveal_strlit("length >");
    reveal_strlit("length >=");
    reveal_strlit("length <");
    reveal_strlit("==");
    reveal_strlit("!=");
    reveal_strlit(" or ");
    reveal_strlit(" and ");
    lemma_step_reference(id);
    let r = step_reference(id);
    let e = operation(id, op, operand);
    assert(e[0] == 's');
    assert(e.last() == operand.last());
    lemma_trim_none(e);
    let mid = seq![' '] + op.sign() + seq![' '];
    assert(forall|i: int| 0 <= i < mid.len() ==> !is_mark(#[trigger] mid[i]));
    lemma_inside_none(mid);
    lemma_inside_add(r, mid);
    assert(e =~= r + mid + operand);
    lemma_inside_add(r + mid, operand);
    lemma_operation_free(id, op, operand, " or "@);
    lemma_operation_free(id, op, operand, " and "@);
}

/// Where a blank stands in an operator, no joining word begins, and none begins like an operator.
proof fn lemma_sign_blank(op: Operator)
    ensures
        op.sign()[0] != 'o' && op.sign()[0] != 'a',
        forall|t: int|
            0 <= t < op.sign().len() && #[trigger] op.sign()[t] == ' ' ==> t + 1 < op.sign().len()
                && op.sign()[t + 1] != 'o' && op.sign()[t + 1] != 'a',
{
    reveal_strlit("contains");
    reveal_strlit("length >");
    reveal_strlit("length >=");
    reveal_strlit("length <");
    reveal_strlit("==");
    reveal_strlit("!=");
}

/// No joining word begins before the operand of a documented condition.
#[verifier::spinoff_prover]
proof fn lemma_head_free(id: Seq<char>, op: Operator, p: Seq<char>, w: Seq<char>, j: int)
    requires
        plain_name(id),
        joins(w),
        w[1] == 'o' || w[1] == 'a',
        (seq![' '] + step_reference(id) + seq![' '] + op.sign() + seq![' ']).is_prefix_of(p),
        0 <= j < step_reference(id).len() + 2 + op.sign().len(),
    ensures
        !open_at(p, w, j),
{
    lemma_step_reference(id);
    lemma_sign_blank(op);
    let r = step_reference(id);
    let n = r.len() as int;
    let sign = op.sign();
    let head = seq![' '] + r + seq![' '] + sign + seq![' '];
    if open_at(p, w, j) {
        lemma_sign_begins(p, w, j, 0);
        lemma_sign_begins(p, w, j, 1);
        assert(p.take(head.len() as int)[j] == head[j]);
        assert(p.take(head.len() as int)[j + 1] == head[j + 1]);
        if j == 0 {
            assert(head[1] == r[0]);
        } else if j < n + 1 {
            assert(head[j] == r[j - 1]);
        } else if j == n + 1 {
            assert(head[j + 1] == sign[0]);
        } else {
            let t = j - n - 2;
            assert(head[j] == sign[t]);
            assert(head[j + 1] == sign[t + 1]);
        }
    }
}

#[verifier::spinoff_prover]
proof fn lemma_operation_free(id: Seq<char>, op: Operator, operand: Seq<char>, w: Seq<char>)
    requires
        plain_name(id),
        joins(w),
        w[1] == 'o' || w[1] == 'a',
        free_of(operand, w),
    ensures
        free_of(operation(id, op, operand), w),
{
    let r = step_reference(id);
    let n = r.len() as int;
    let p = spaced(operation(id, op, operand));
    let pb = spaced(operand);
    let head = seq![' '] + r + seq![' '] + op.sign();
    let m = head.len() as int;
    lemma_find_open_from(p, w, 0);
    lemma_find_open_from(pb, w, 0);
    assert(p =~= head + pb);
    assert(p.take(m + 1) =~= head + seq![' ']);
    assert((head + seq![' ']).is_prefix_of(p));
    assert(inside(head) is None) by {
        lemma_step_reference(id);
        lemma_sign(op);
        assert forall|i: int| 0 <= i < head.len() implies !is_mark(#[trigger] head[i]) by {
            if 1 <= i < n + 1 {
                assert(head[i] == r[i - 1]);
            } else if i >= n + 2 {
                assert(head[i] == op.sign()[i - n - 2]);
            }
        }
        lemma_inside_none(head);
    }
    assert forall|j: int| 0 <= j implies !open_at(p, w, j) by {
        if j < m {
            lemma_head_free(id, op, p, w, j);
        } else if open_at(p, w, j) {
            let k = j - m;
            assert(pb.subrange(k, k + w.len()) =~= p.subrange(j, j + w.len()));
            assert(p.take(j) =~= head + pb.take(k));
            lemma_inside_add(head, pb.take(k));
            assert(open_at(pb, w, k));
        }
    }
}

/// A reference with a blank behind it, trimmed, is the reference.
proof fn lemma_trim_blank(s: Seq<char>)
    requires
        s.len() > 0,
        !is_space(s[0]),
        !is_space(s.last()),
    ensures
        trim(s + seq![' ']) == s,
        trim(seq![' '] + s) == s,
{
    let a = s + seq![' '];
    assert(a.drop_last() =~= s);
    assert(a[0] == s[0]);
    assert(is_space(a.last()));
    assert(strip_start(a, CharClass::Space) == a);
    assert(strip_end(a, CharClass::Space) == strip_end(s, CharClass::Space));
    let b = seq![' '] + s;
    assert(b.drop_first() =~= s);
    assert(strip_start(b, CharClass::Space) == strip_start(s, CharClass::Space));
}

/// A number reads as itself.
proof fn lemma_bound(n: usize)
    ensures
        bound(seq![' '] + decimal(n as nat), no_fillings()) == n,
{
    lemma_decimal(n as nat);
    let d = decimal(n as nat);
    assert('0' <= d[0] <= '9');
    assert('0' <= d[d.len() - 1] <= '9');
    lemma_trim_blank(d);
    assert(without_plus(d) == d);
    assert(all_digits(d)) by {
        assert forall|i: int| 0 <= i < d.len() implies is_digit(#[trigger] d[i]) by {
            assert('0' <= d[i] <= '9');
        }
    }
}

/// A text in quotation marks reads as itself.
proof fn lemma_literal(q: char, text: Seq<char>)
    requires
        is_mark(q),
    ensures
        literal(seq![' '] + in_marks(q, text), no_fillings()) == text,
{
    let s = in_marks(q, text);
    assert(s[0] == q);
    assert(s.last() == q);
    lemma_trim_blank(s);
    assert(inner(s) =~= text);
}

/// The documented conditions mean what they say, whatever letters the name of the step holds, and
/// whatever stands in the quotation marks: each asks its question of the result of the step.
pub proof fn law_conditions_mean_what_they_say(
    id: Seq<char>,
    test: TestV,
    q: char,
    results: Entries,
)
    requires
        plain_name(id),
        fits_marks(test, q),
    ensures
        clause(test_text(id, test, q)),
        condition(test_text(id, test, q), results, no_fillings()) == test_met(
            test,
            result_of(results, id),
        ),
{
    lemma_joins();
    reveal_strlit(" or ");
    reveal_strlit(" and ");
    reveal_strlit("not ");
    let r = step_reference(id);
    let e = test_text(id, test, q);
    let f = no_fillings();
    lemma_step_reference(id);
    law_reference_gives_result(id, results);
    lemma_trim_blank(r);
    lemma_trim_none(r);
    assert(resolved(r + seq![' '], results, f) == resolved(r, results, f));
    match test {
        TestV::Present => {
            lemma_reference_clause(id);
            assert(r.take(r.len() as int) =~= r);
            assert forall|op: Operator| #[trigger] find_operator_from(r, op, 0) is None by {
                lemma_find_operator_from(r, op, 0);
                assert forall|j: int| 0 <= j < r.len() implies !stands(r, op, j) by {
                    lemma_no_operator_in_reference(id, r, op, j);
                }
            }
        },
        TestV::Contains(text) => {
            lemma_marks_test(id, Operator::Contains, q, text);
        },
        TestV::Is(text) => {
            lemma_marks_test(id, Operator::Equal, q, text);
        },
        TestV::IsNot(text) => {
            lemma_marks_test(id, Operator::Unequal, q, text);
        },
        TestV::Longer(n) => {
            lemma_number_test(id, Operator::Longer, n);
        },
        TestV::AtLeast(n) => {
            lemma_number_test(id, Operator::AtLeast, n);
        },
        TestV::Shorter(n) => {
            lemma_number_test(id, Operator::Shorter, n);
        },
    }
    lemma_spaced(e, " or "@);
    lemma_spaced(e, " and "@);
    assert(e[0] == 's');
    assert(!("not "@.is_prefix_of(e))) by {
        if "not "@.is_prefix_of(e) {
            assert(e.take(4)[0] == e[0]);
        }
    }
}

/// Text in quotation marks holds nothing outside of them.
proof fn lemma_marks_silent(q: char, text: Seq<char>)
    requires
        is_mark(q),
        !text.contains(q),
    ensures
        silent(in_marks(q, text)),
{
    let s = in_marks(q, text);
    let none = Seq::<char>::empty();
    assert forall|k: int| #![trigger s[k]]
        0 <= k < s.len() && inside(s.take(k)) is None implies s[k] != 'c' && s[k] != 'l' && s[k]
        != '=' && s[k] != '!' by {
        if k > 0 {
            let part = text.take(k - 1);
            assert(!part.contains(q)) by {
                if part.contains(q) {
                    let i = choose|i: int| 0 <= i < k - 1 && part[i] == q;
                    assert(text[i] == q);
                }
            }
            lemma_inside_marks(none, q, part);
            assert(s.take(k) =~= none + seq![q] + part);
        }
    }
}

proof fn lemma_marks_test(id: Seq<char>, op: Operator, q: char, text: Seq<char>)
    requires
        plain_name(id),
        is_mark(q),
        !text.contains(q),
    ensures
        ({
            let e = operation(id, op, in_marks(q, text));
            let n = step_reference(id).len() as int;
            &&& clause(e)
            &&& operator_in(e) == Some((n + 1, op))
            &&& e.take(n + 1) == step_reference(id) + seq![' ']
            &&& literal(e.skip(n + 1 + op.sign().len()), no_fillings()) == text
        }),
{
    lemma_joins();
    let s = in_marks(q, text);
    assert(s.last() == q);
    lemma_marks_free(q, text, " or "@);
    lemma_marks_free(q, text, " and "@);
    lemma_operation_clause(id, op, s);
    lemma_marks_silent(q, text);
    lemma_operator_found(id, op, s);
    lemma_literal(q, text);
}

proof fn lemma_number_test(id: Seq<char>, op: Operator, n: usize)
    requires
        plain_name(id),
    ensures
        ({
            let e = operation(id, op, decimal(n as nat));
            let k = step_reference(id).len() as int;
            &&& clause(e)
            &&& operator_in(e) == Some((k + 1, op))
            &&& e.take(k + 1) == step_reference(id) + seq![' ']
            &&& bound(e.skip(k + 1 + op.sign().len()), no_fillings()) == n
        }),
{
    lemma_joins();
    reveal_strlit(" or ");
    reveal_strlit(" and ");
    let d = decimal(n as nat);
    lemma_decimal(n as nat);
    assert('0' <= d[d.len() - 1] <= '9');
    lemma_number_free(n as nat, " or "@);
    lemma_number_free(n as nat, " and "@);
    lemma_operation_clause(id, op, d);
    assert(silent(d)) by {
        assert(forall|k: int| 0 <= k < d.len() ==> '0' <= #[trigger] d[k] <= '9');
    }
    lemma_operator_found(id, op, d);
    lemma_bound(n);
}

/// A reference alone is not joined.
proof fn lemma_reference_clause(id: Seq<char>)
    requires
        plain_name(id),
    ensures
        clause(step_reference(id)),
{
    lemma_joins();
    reveal_strlit(" or ");
    reveal_strlit(" and ");
    lemma_step_reference(id);
    let r = step_reference(id);
    let p = spaced(r);
    lemma_trim_none(r);
    lemma_find_open_from(p, " or "@, 0);
    lemma_find_open_from(p, " and "@, 0);
    assert forall|j: int| 0 <= j implies !open_at(p, " or "@, j) && !open_at(p, " and "@, j) by {
        if 0 < j <= r.len() {
            assert(p[j] == r[j - 1]);
        }
        assert(p[1] == r[0]);
        if open_at(p, " or "@, j) {
            lemma_sign_begins(p, " or "@, j, 0);
            lemma_sign_begins(p, " or "@, j, 1);
        }
        if open_at(p, " and "@, j) {
            lemma_sign_begins(p, " and "@, j, 0);
            lemma_sign_begins(p, " and "@, j, 1);
        }
    }
}

/// The signs of the operators.
pub proof fn law_operators_have_their_signs()
    ensures
        Operator::Contains.sign() == "contains"@,
        Operator::Longer.sign() == "length >"@,
        Operator::AtLeast.sign() == "length >="@,
        Operator::Shorter.sign() == "length <"@,
        Operator::Equal.sign() == "=="@,
        Operator::Unequal.sign() == "!="@,
{
}

/// A step that has a result is referred to by it, and one that has none by nothing.
pub proof fn law_results_are_referred_to(results: Entries, id: Seq<char>, value: Seq<char>)
    ensures
        result_of(assign(results, id, value), id) == value,
        lookup(results, id) is None ==> result_of(results, id).len() == 0,
        lookup(results, id) is Some ==> result_of(results, id) == lookup(results, id)->0,
{
    law_assign_then_lookup(results, id, value, id);
}

proof fn lemma_fill_steps_in_turn(text: Seq<char>, a: Entries, b: Entries)
    ensures
        fill_steps(text, a + b) == fill_steps(fill_steps(text, a), b),
    decreases b.len(),
{
    if b.len() == 0 {
        assert(a + b =~= a);
    } else {
        assert((a + b).drop_last() =~= a + b.drop_last());
        lemma_fill_steps_in_turn(text, a, b.drop_last());
    }
}

proof fn lemma_fill_variables_in_turn(text: Seq<char>, a: Entries, b: Entries)
    ensures
        fill_variables(text, a + b) == fill_variables(fill_variables(text, a), b),
    decreases b.len(),
{
    if b.len() == 0 {
        assert(a + b =~= a);
    } else {
        assert((a + b).drop_last() =~= a + b.drop_last());
        lemma_fill_variables_in_turn(text, a, b.drop_last());
    }
}

proof fn lemma_steps_absent(text: Seq<char>, results: Entries)
    requires
        forall|i: int|
            0 <= i < results.len() ==> !contains(
                text,
                "{{steps."@ + (#[trigger] results[i]).0 + ".result}}"@,
            ),
    ensures
        fill_steps(text, results) == text,
    decreases results.len(),
{
    if results.len() > 0 {
        lemma_steps_absent(text, results.drop_last());
        assert(results.last() == results[results.len() - 1]);
        lemma_replace_absent(text, step_placeholder(results.last().0), results.last().1);
    }
}

proof fn lemma_variables_absent(text: Seq<char>, variables: Entries)
    requires
        forall|i: int|
            0 <= i < variables.len() ==> !contains(
                text,
                "{{"@ + (#[trigger] variables[i]).0 + "}}"@,
            ),
    ensures
        fill_variables(text, variables) == text,
    decreases variables.len(),
{
    if variables.len() > 0 {
        lemma_variables_absent(text, variables.drop_last());
        assert(variables.last() == variables[variables.len() - 1]);
        lemma_replace_absent(
            text,
            variable_placeholder(variables.last().0),
            variables.last().1,
        );
    }
}

/// The result of a step stands in the place of its placeholder, wherever the step is among the
/// results, and the text around it stays.
pub proof fn law_step_placeholders_are_filled(
    before: Entries,
    id: Seq<char>,
    value: Seq<char>,
    after: Entries,
    a: Seq<char>,
    b: Seq<char>,
)
    requires
        ({
            let p = "{{steps."@ + id + ".result}}"@;
            &&& !contains(b, p)
            &&& forall|j: int| 0 <= j < a.len() ==> !#[trigger] occurs_at(a + p, p, j)
            &&& forall|i: int|
                0 <= i < before.len() ==> !contains(
                    a + p + b,
                    "{{steps."@ + (#[trigger] before[i]).0 + ".result}}"@,
                )
            &&& forall|i: int|
                0 <= i < after.len() ==> !contains(
                    a + value + b,
                    "{{steps."@ + (#[trigger] after[i]).0 + ".result}}"@,
                )
        }),
    ensures
        fill_steps(
            a + ("{{steps."@ + id + ".result}}"@) + b,
            before + seq![(id, value)] + after,
        ) == a + value + b,
        filled(
            a + ("{{steps."@ + id + ".result}}"@) + b,
            before + seq![(id, value)] + after,
            Seq::empty(),
        ) == a + value + b,
{
    reveal_strlit("{{steps.");
    let p = "{{steps."@ + id + ".result}}"@;
    let text = a + p + b;
    let one = seq![(id, value)];
    lemma_fill_steps_in_turn(text, before + one, after);
    lemma_fill_steps_in_turn(text, before, one);
    lemma_steps_absent(text, before);
    assert(one.drop_last() =~= Seq::empty());
    assert(fill_steps(text, one.drop_last()) == text);
    assert(step_placeholder(id) == p);
    law_replace(a, p, b, value);
    assert(fill_steps(text, one) == a + value + b);
    lemma_steps_absent(a + value + b, after);
}

/// The value of a variable stands in the place of its placeholder, wherever the variable is among
/// the others, and the text around it stays.
pub proof fn law_variable_placeholders_are_filled(
    before: Entries,
    key: Seq<char>,
    value: Seq<char>,
    after: Entries,
    a: Seq<char>,
    b: Seq<char>,
)
    requires
        ({
            let p = "{{"@ + key + "}}"@;
            &&& !contains(b, p)
            &&& forall|j: int| 0 <= j < a.len() ==> !#[trigger] occurs_at(a + p, p, j)
            &&& forall|i: int|
                0 <= i < before.len() ==> !contains(
                    a + p + b,
                    "{{"@ + (#[trigger] before[i]).0 + "}}"@,
                )
            &&& forall|i: int|
                0 <= i < after.len() ==> !contains(
                    a + value + b,
                    "{{"@ + (#[trigger] after[i]).0 + "}}"@,
                )
        }),
    ensures
        fill_variables(a + ("{{"@ + key + "}}"@) + b, before + seq![(key, value)] + after) == a
            + value + b,
        filled(
            a + ("{{"@ + key + "}}"@) + b,
            Seq::empty(),
            before + seq![(key, value)] + after,
        ) == a + value + b,
{
    reveal_strlit("{{");
    let p = "{{"@ + key + "}}"@;
    let text = a + p + b;
    let one = seq![(key, value)];
    lemma_fill_variables_in_turn(text, before + one, after);
    lemma_fill_variables_in_turn(text, before, one);
    lemma_variables_absent(text, before);
    assert(one.drop_last() =~= Seq::empty());
    assert(fill_variables(text, one.drop_last()) == text);
    assert(variable_placeholder(key) == p);
    law_replace(a, p, b, value);
    assert(fill_variables(text, one) == a + value + b);
    lemma_variables_absent(a + value + b, after);
}

/// Filling reaches every text of a value and nothing else: the names of fields, numbers and truth
/// values stay, and arrays and objects keep their items and fields, in order.
pub proof fn law_filling_reaches_every_text(v: JsonV, results: Entries, variables: Entries)
    ensures
        v is Text ==> filled_json(v, results, variables) == JsonV::Text(
            filled(v->Text_0, results, variables),
        ),
        v is Array ==> {
            let r = filled_json(v, results, variables);
            &&& r is Array
            &&& r->Array_0.len() == v->Array_0.len()
            &&& forall|i: int|
                0 <= i < v->Array_0.len() ==> #[trigger] r->Array_0[i] == filled_json(
                    v->Array_0[i],
                    results,
                    variables,
                )
        },
        v is Object ==> {
            let r = filled_json(v, results, variables);
            &&& r is Object
            &&& r->Object_0.len() == v->Object_0.len()
            &&& forall|i: int|
                0 <= i < v->Object_0.len() ==> #[trigger] r->Object_0[i] == (
                    v->Object_0[i].0,
                    filled_json(v->Object_0[i].1, results, variables),
                )
        },
        !(v is Text) && !(v is Array) && !(v is Object) ==> filled_json(v, results, variables) == v,
{
    if v is Array {
        lemma_filled_items(v->Array_0, results, variables);
    }
    if v is Object {
        lemma_filled_fields(v->Object_0, results, variables);
    }
}

proof fn lemma_filled_items(s: Seq<JsonV>, results: Entries, variables: Entries)
    ensures
        filled_items(s, results, variables).len() == s.len(),
        forall|i: int|
            0 <= i < s.len() ==> #[trigger] filled_items(s, results, variables)[i] == filled_json(
                s[i],
                results,
                variables,
            ),
    decreases s.len(),
{
    if s.len() > 0 {
        lemma_filled_items(s.drop_last(), results, variables);
    }
}

proof fn lemma_filled_fields(s: Seq<(Seq<char>, JsonV)>, results: Entries, variables: Entries)
    ensures
        filled_fields(s, results, variables).len() == s.len(),
        forall|i: int|
            0 <= i < s.len() ==> #[trigger] filled_fields(s, results, variables)[i] == (
                s[i].0,
                filled_json(s[i].1, results, variables),
            ),
    decreases s.len(),
{
    if s.len() > 0 {
        lemma_filled_fields(s.drop_last(), results, variables);
    }
}

/// A text in quotation marks stands for itself, with its placeholders filled, on either side of an
/// operator.
pub proof fn law_quoted_texts_stand_for_themselves(
    q: char,
    text: Seq<char>,
    results: Entries,
    f: Fillings,
)
    requires
        q == '"' || q == '\'',
    ensures
        resolved(seq![q] + text + seq![q], results, f) == filled(text, f.steps, f.variables),
        literal(seq![q] + text + seq![q], f) == filled(text, f.steps, f.variables),
{
    let s = seq![q] + text + seq![q];
    lemma_trim_none(s);
    assert(inner(s) =~= text);
}

/// A placeholder that is filled stands for its value, and a text that is neither quoted nor a
/// reference, and holds no placeholder, for nothing.
pub proof fn law_filled_placeholders_stand_for_their_value(
    text: Seq<char>,
    results: Entries,
    f: Fillings,
)
    requires
        !quoted(trim(text)),
        !("steps."@.is_prefix_of(trim(text))),
    ensures
        filled(trim(text), f.steps, f.variables) != trim(text) ==> resolved(text, results, f)
            == filled(trim(text), f.steps, f.variables),
        filled(trim(text), f.steps, f.variables) == trim(text) ==> resolved(text, results, f).len()
            == 0,
        literal(text, f) == filled(trim(text), f.steps, f.variables),
{
}

/// A number to compare with is read with its placeholders filled, and is zero where it is none.
pub proof fn law_bounds_are_read_as_numbers(text: Seq<char>, n: usize, f: Fillings)
    ensures
        filled(trim(text), f.steps, f.variables) == decimal(n as nat) ==> bound(text, f) == n,
        parsed_usize(filled(trim(text), f.steps, f.variables)) is None ==> bound(text, f) == 0,
{
    law_numbers_are_read_as_written(n);
}

/// What the operators compare: what is on the left with the text, or the number, on the right.
pub proof fn law_operators_compare(left: Seq<char>, right: Seq<char>, f: Fillings)
    ensures
        compared(Operator::Contains, left, right, f) <==> contains(left, literal(right, f)),
        compared(Operator::Equal, left, right, f) <==> left == literal(right, f),
        compared(Operator::Unequal, left, right, f) <==> left != literal(right, f),
        compared(Operator::Longer, left, right, f) <==> byte_len(left) > bound(right, f),
        compared(Operator::AtLeast, left, right, f) <==> byte_len(left) >= bound(right, f),
        compared(Operator::Shorter, left, right, f) <==> byte_len(left) < bound(right, f),
{
}

} // verus!
