//! Reading access policies from JSON text.
//!
//! A policy is written `{"ATT": "name"}`, `{"AND": [..]}` or `{"OR": [..]}`, or
//! as `rabe` writes it: `{"name": "name"}`, or `{"name": "and", "children": [..]}`
//! and the same with `or`. Attribute names are taken as they stand between their
//! quotation marks: like `rabe`, the reader passes over escape sequences and does
//! not resolve them.
use crate::policy::{Policy, Visit};
use crate::text::{characters, stands_at};
use vstd::prelude::*;

verus! {

/// How deep policies may be nested in one another.
pub const MAX_HEIGHT: usize = 64;

/// How deep policies may be nested for `rabe` to parse them for sure. It parses by
/// recursion and gives up where the stack runs short, by its own notes somewhere
/// between 50 and 60; its own tests nest policies this deep.
pub const SURE_HEIGHT: usize = 29;

pub open spec fn blank(c: char) -> bool {
    c == ' ' || c == '\t' || c == '\n' || c == '\r'
}

/// The first position from `i` on that holds no blank.
pub open spec fn past_blanks(s: Seq<char>, i: int) -> int
    decreases s.len() - i,
{
    if 0 <= i < s.len() && blank(s[i]) {
        past_blanks(s, i + 1)
    } else {
        i
    }
}

/// The position after the character `c`, which stands at `i` or after blanks there.
pub open spec fn after(s: Seq<char>, i: int, c: char) -> Option<int> {
    let j = past_blanks(s, i);
    if 0 <= j < s.len() && s[j] == c {
        Some(j + 1)
    } else {
        None
    }
}

/// A character that can follow a backslash by itself.
pub open spec fn short_escape(c: char) -> bool {
    c == '"' || c == '\\' || c == '/' || c == 'b' || c == 'f' || c == 'n' || c == 'r' || c == 't'
}

/// A hexadecimal digit.
pub open spec fn hex(c: char) -> bool {
    '0' <= c <= '9' || 'a' <= c <= 'f' || 'A' <= c <= 'F'
}

/// The length of the escape sequence at `i`, or zero where there is none.
pub open spec fn escape_length(s: Seq<char>, i: int) -> int {
    if !(0 <= i && i + 1 < s.len() && s[i] == '\\') {
        0
    } else if short_escape(s[i + 1]) {
        2
    } else if s[i + 1] == 'u' && i + 5 < s.len() && hex(s[i + 2]) && hex(s[i + 3]) && hex(s[i + 4])
        && hex(s[i + 5]) {
        6
    } else {
        0
    }
}

/// The position of the first quotation mark from `i` on that is not part of an
/// escape sequence, if every backslash before it begins such a sequence.
pub open spec fn closing_quote(s: Seq<char>, i: int) -> Option<int>
    decreases s.len() - i,
{
    if !(0 <= i < s.len()) {
        None
    } else if s[i] == '"' {
        Some(i)
    } else if s[i] != '\\' {
        closing_quote(s, i + 1)
    } else if escape_length(s, i) > 0 {
        closing_quote(s, i + escape_length(s, i))
    } else {
        None
    }
}

/// The text between quotation marks at `i`, and the position after it.
pub open spec fn literal(s: Seq<char>, i: int) -> Option<(Seq<char>, int)> {
    match after(s, i, '"') {
        None => None,
        Some(from) => match closing_quote(s, from) {
            None => None,
            Some(to) => Some((s.subrange(from, to), to + 1)),
        },
    }
}

/// The text between quotation marks and the colon at `i`, and the position after.
pub open spec fn key(s: Seq<char>, i: int) -> Option<(Seq<char>, int)> {
    match literal(s, i) {
        None => None,
        Some((word, j)) => match after(s, j, ':') {
            None => None,
            Some(k) => Some((word, k)),
        },
    }
}

pub open spec fn name_key(word: Seq<char>) -> bool {
    word == "name"@ || word == "NAME"@
}

pub open spec fn children_key(word: Seq<char>) -> bool {
    word == "children"@ || word == "CHILDREN"@
}

pub open spec fn and_word(word: Seq<char>) -> bool {
    word == "and"@ || word == "AND"@ || word == "&&"@
}

pub open spec fn or_word(word: Seq<char>) -> bool {
    word == "or"@ || word == "OR"@ || word == "||"@
}

/// The attribute name at `i`, up to the closing brace.
pub open spec fn leaf(s: Seq<char>, i: int) -> Option<(Policy, int)> {
    match literal(s, i) {
        None => None,
        Some((word, j)) => match after(s, j, '}') {
            None => None,
            Some(end) => Some((Policy::Attribute(word), end)),
        },
    }
}

/// The policy at `i`, nested at most `depth` deep, and the position after it.
pub open spec fn node(s: Seq<char>, i: int, depth: nat) -> Option<(Policy, int)>
    decreases depth, 0int, s.len() - i,
{
    if depth == 0 {
        None
    } else {
        match after(s, i, '{') {
            None => None,
            Some(i1) => match key(s, i1) {
                None => None,
                Some((word, j)) => if word == "ATT"@ {
                    leaf(s, j)
                } else if word == "AND"@ {
                    group(s, j, (depth - 1) as nat, true)
                } else if word == "OR"@ {
                    group(s, j, (depth - 1) as nat, false)
                } else if name_key(word) {
                    match literal(s, j) {
                        None => None,
                        Some((name, k)) => if after(s, k, '}') is Some {
                            leaf(s, j)
                        } else {
                            match children(s, k) {
                                None => None,
                                Some(m) => if and_word(name) {
                                    group(s, m, (depth - 1) as nat, true)
                                } else if or_word(name) {
                                    group(s, m, (depth - 1) as nat, false)
                                } else {
                                    None
                                },
                            }
                        },
                    }
                } else {
                    None
                },
            },
        }
    }
}

/// The position after a comma and the key of the parts at `i`.
pub open spec fn children(s: Seq<char>, i: int) -> Option<int> {
    match after(s, i, ',') {
        None => None,
        Some(j) => match key(s, j) {
            None => None,
            Some((word, k)) => if children_key(word) {
                Some(k)
            } else {
                None
            },
        },
    }
}

/// The bracketed parts at `i` and the closing brace after them.
pub open spec fn group(s: Seq<char>, i: int, depth: nat, all: bool) -> Option<(Policy, int)>
    decreases depth, 2int, s.len() - i,
{
    match after(s, i, '[') {
        None => None,
        Some(j) => {
            let listed = match after(s, j, ']') {
                Some(k) => Some((Seq::empty(), k)),
                None => items(s, j, depth, Seq::empty()),
            };
            match listed {
                None => None,
                Some((parts, k)) => match after(s, k, '}') {
                    None => None,
                    Some(end) => Some(
                        (
                            if all {
                                Policy::All(parts)
                            } else {
                                Policy::Any(parts)
                            },
                            end,
                        ),
                    ),
                },
            }
        },
    }
}

/// `parts` and the policies that follow at `i`, up to the closing bracket.
pub open spec fn items(s: Seq<char>, i: int, depth: nat, parts: Seq<Policy>) -> Option<
    (Seq<Policy>, int),
>
    decreases depth, 1int, s.len() - i,
{
    match node(s, i, depth) {
        None => None,
        Some((part, j)) => match after(s, j, ']') {
            Some(k) => Some((parts.push(part), k)),
            None => match after(s, j, ',') {
                None => None,
                Some(k) => if i < k <= s.len() {
                    items(s, k, depth, parts.push(part))
                } else {
                    None
                },
            },
        },
    }
}

/// The policy that the whole text writes down.
pub open spec fn policy_of(text: Seq<char>) -> Option<Policy> {
    match node(text, 0, MAX_HEIGHT as nat) {
        None => None,
        Some((policy, end)) => if past_blanks(text, end) == text.len() {
            Some(policy)
        } else {
            None
        },
    }
}

/// What looking for attributes in a policy came to.
#[derive(Debug, PartialEq)]
pub enum Visited {
    Stuck,
    Missing,
    Found(Vec<String>),
}

impl View for Visited {
    type V = Visit;

    open spec fn view(&self) -> Visit {
        match self {
            Visited::Stuck => Visit::Stuck,
            Visited::Missing => Visit::Missing,
            Visited::Found(names) => Visit::Found(names.deep_view()),
        }
    }
}

/// What was read at some position: where it ends, the policy as `rabe` writes it,
/// whether the attributes that are held meet it, and what looking for them in it
/// comes to.
pub struct Reading {
    pub end: usize,
    pub text: String,
    pub met: bool,
    pub visited: Visited,
}

impl Reading {
    /// The reading of `policy` for a holder of `held`, which ends at `end`.
    pub open spec fn reads(self, policy: Policy, held: Seq<Seq<char>>, end: int) -> bool {
        &&& self.end == end
        &&& self.text@ == policy.rendered()
        &&& self.met == policy.met_by(held)
        &&& self.visited@ == policy.visit(held)
    }
}

/// `found` is the reading of what stands there, if anything does.
pub open spec fn agrees(
    found: Option<Reading>,
    stands: Option<(Policy, int)>,
    held: Seq<Seq<char>>,
) -> bool {
    match stands {
        None => found is None,
        Some((policy, end)) => found is Some && found->0.reads(policy, held, end),
    }
}

/// Whether the attribute is held.
fn is_held(held: &Vec<String>, name: &String) -> (found: bool)
    ensures
        found == held.deep_view().contains(name@),
{
    let mut i: usize = 0;
    while i < held.len()
        invariant
            i <= held@.len(),
            forall|j: int| 0 <= j < i ==> #[trigger] held.deep_view()[j] != name@,
        decreases held@.len() - i,
    {
        assert(held.deep_view()[i as int] == held[i as int]@);
        if held[i] == *name {
            return true;
        }
        i = i + 1;
    }
    false
}

/// What two visits come to, where both parts must be met or one.
fn join(all: bool, a: Visited, b: Visited) -> (joined: Visited)
    ensures
        joined@ == if all {
            crate::policy::both(a@, b@)
        } else {
            crate::policy::either(a@, b@)
        },
{
    if !all {
        return match a {
            Visited::Missing => b,
            _ => a,
        };
    }
    match (a, b) {
        (Visited::Stuck, _) => Visited::Stuck,
        (_, Visited::Stuck) => Visited::Stuck,
        (Visited::Found(x), Visited::Found(y)) => {
            let ghost joint = x.deep_view() + y.deep_view();
            let mut names = x;
            let mut more = y;
            names.append(&mut more);
            assert(names.deep_view() =~= joint);
            Visited::Found(names)
        },
        _ => Visited::Missing,
    }
}

fn skip_blanks(s: &Vec<char>, i: usize) -> (j: usize)
    requires
        i <= s@.len(),
    ensures
        j == past_blanks(s@, i as int),
        i <= j <= s@.len(),
{
    let mut j: usize = i;
    while j < s.len() && (s[j] == ' ' || s[j] == '\t' || s[j] == '\n' || s[j] == '\r')
        invariant
            i <= j <= s@.len(),
            past_blanks(s@, j as int) == past_blanks(s@, i as int),
        decreases s@.len() - j,
    {
        j = j + 1;
    }
    j
}

fn read_char(s: &Vec<char>, i: usize, c: char) -> (end: Option<usize>)
    requires
        i <= s@.len(),
    ensures
        end is Some <==> after(s@, i as int, c) is Some,
        end matches Some(e) ==> Some(e as int) == after(s@, i as int, c) && i < e <= s@.len(),
{
    let j = skip_blanks(s, i);
    if j < s.len() && s[j] == c {
        Some(j + 1)
    } else {
        None
    }
}

fn is_hex(c: char) -> (digit: bool)
    ensures
        digit == hex(c),
{
    ('0' <= c && c <= '9') || ('a' <= c && c <= 'f') || ('A' <= c && c <= 'F')
}

fn read_escape(s: &Vec<char>, i: usize) -> (length: usize)
    requires
        i < s@.len(),
    ensures
        length == escape_length(s@, i as int),
{
    let left = s.len() - i;
    if left < 2 || s[i] != '\\' {
        return 0;
    }
    let c = s[i + 1];
    if c == '"' || c == '\\' || c == '/' || c == 'b' || c == 'f' || c == 'n' || c == 'r'
        || c == 't' {
        return 2;
    }
    if c == 'u' && left >= 6 && is_hex(s[i + 2]) && is_hex(s[i + 3]) && is_hex(s[i + 4]) && is_hex(
        s[i + 5],
    ) {
        return 6;
    }
    0
}

/// The first and the last position of the text between quotation marks.
fn read_literal(s: &Vec<char>, i: usize) -> (span: Option<(usize, usize)>)
    requires
        i <= s@.len(),
    ensures
        span is Some <==> literal(s@, i as int) is Some,
        span matches Some((from, to)) ==> {
            &&& i < from <= to < s.len()
            &&& literal(s@, i as int) == Some((s@.subrange(from as int, to as int), to + 1))
        },
{
    match read_char(s, i, '"') {
        None => None,
        Some(from) => {
            let mut to: usize = from;
            while to < s.len() && s[to] != '"'
                invariant
                    i < from <= to <= s@.len(),
                    literal(s@, i as int) is Some <==> closing_quote(s@, from as int) is Some,
                    closing_quote(s@, to as int) == closing_quote(s@, from as int),
                decreases s@.len() - to,
            {
                if s[to] == '\\' {
                    let length = read_escape(s, to);
                    if length == 0 {
                        return None;
                    }
                    to = to + length;
                } else {
                    to = to + 1;
                }
            }
            if to < s.len() {
                Some((from, to))
            } else {
                None
            }
        },
    }
}

/// Whether the text from `from` to `to` is `word`.
fn is_word(s: &Vec<char>, from: usize, to: usize, word: &str) -> (same: bool)
    requires
        from <= to <= s@.len(),
    ensures
        same == (s@.subrange(from as int, to as int) == word@),
{
    let letters = characters(word);
    if letters.len() != to - from {
        return false;
    }
    let same = stands_at(s, from, &letters);
    assert(s@.skip(from as int).take(letters@.len() as int) =~= s@.subrange(
        from as int,
        to as int,
    ));
    same
}

fn read_key(s: &Vec<char>, i: usize) -> (found: Option<(usize, usize, usize)>)
    requires
        i <= s@.len(),
    ensures
        found is Some <==> key(s@, i as int) is Some,
        found matches Some((from, to, end)) ==> {
            &&& i < from <= to < end <= s@.len()
            &&& key(s@, i as int) == Some((s@.subrange(from as int, to as int), end as int))
        },
{
    match read_literal(s, i) {
        None => None,
        Some((from, to)) => match read_char(s, to + 1, ':') {
            None => None,
            Some(end) => Some((from, to, end)),
        },
    }
}

/// The text from `from` to `to`, appended to `text`.
fn copy_span(s: &Vec<char>, from: usize, to: usize, text: &mut String)
    requires
        from <= to <= s@.len(),
    ensures
        final(text)@ == old(text)@ + s@.subrange(from as int, to as int),
{
    let mut i: usize = from;
    assert(s@.subrange(from as int, from as int) =~= Seq::<char>::empty());
    assert(text@ =~= text@ + s@.subrange(from as int, from as int));
    while i < to
        invariant
            from <= i <= to <= s@.len(),
            text@ == old(text)@ + s@.subrange(from as int, i as int),
        decreases to - i,
    {
        text.push(s[i]);
        i = i + 1;
        assert(s@.subrange(from as int, i as int) =~= s@.subrange(from as int, i - 1).push(
            s@[i - 1],
        ));
        assert(text@ =~= old(text)@ + s@.subrange(from as int, i as int));
    }
}

fn read_leaf(s: &Vec<char>, i: usize, held: &Vec<String>) -> (found: Option<Reading>)
    requires
        i <= s@.len(),
    ensures
        agrees(found, leaf(s@, i as int), held.deep_view()),
        found matches Some(r) ==> i < r.end <= s@.len(),
{
    match read_literal(s, i) {
        None => None,
        Some((from, to)) => match read_char(s, to + 1, '}') {
            None => None,
            Some(end) => {
                let mut name = String::new();
                copy_span(s, from, to, &mut name);
                assert(name@ =~= s@.subrange(from as int, to as int));
                let mut text = "{\"name\": \"".to_owned();
                text.append(name.as_str());
                text.append("\"}");
                let met = is_held(held, &name);
                let visited = if met {
                    let names = vec![name];
                    assert(names.deep_view() =~= seq![name@]);
                    Visited::Found(names)
                } else {
                    Visited::Missing
                };
                Some(Reading { end, text, met, visited })
            },
        },
    }
}

fn read_children(s: &Vec<char>, i: usize) -> (end: Option<usize>)
    requires
        i <= s@.len(),
    ensures
        end is Some <==> children(s@, i as int) is Some,
        end matches Some(e) ==> Some(e as int) == children(s@, i as int) && i < e <= s@.len(),
{
    match read_char(s, i, ',') {
        None => None,
        Some(j) => match read_key(s, j) {
            None => None,
            Some((from, to, end)) => if is_word(s, from, to, "children") || is_word(
                s,
                from,
                to,
                "CHILDREN",
            ) {
                Some(end)
            } else {
                None
            },
        },
    }
}

fn read_node(s: &Vec<char>, i: usize, depth: usize, held: &Vec<String>) -> (found: Option<Reading>)
    requires
        i <= s@.len(),
    ensures
        agrees(found, node(s@, i as int, depth as nat), held.deep_view()),
        found matches Some(r) ==> i < r.end <= s@.len(),
    decreases depth, 0int,
{
    if depth == 0 {
        return None;
    }
    let i1 = match read_char(s, i, '{') {
        None => {
            return None;
        },
        Some(i1) => i1,
    };
    let (from, to, j) = match read_key(s, i1) {
        None => {
            return None;
        },
        Some(found) => found,
    };
    if is_word(s, from, to, "ATT") {
        return read_leaf(s, j, held);
    }
    if is_word(s, from, to, "AND") {
        return read_group(s, j, depth - 1, true, held);
    }
    if is_word(s, from, to, "OR") {
        return read_group(s, j, depth - 1, false, held);
    }
    if !is_word(s, from, to, "name") && !is_word(s, from, to, "NAME") {
        return None;
    }
    let (first, last) = match read_literal(s, j) {
        None => {
            return None;
        },
        Some(span) => span,
    };
    if read_char(s, last + 1, '}').is_some() {
        return read_leaf(s, j, held);
    }
    match read_children(s, last + 1) {
        None => None,
        Some(m) => if is_word(s, first, last, "and") || is_word(s, first, last, "AND")
            || is_word(s, first, last, "&&") {
            read_group(s, m, depth - 1, true, held)
        } else if is_word(s, first, last, "or") || is_word(s, first, last, "OR") || is_word(
            s,
            first,
            last,
            "||",
        ) {
            read_group(s, m, depth - 1, false, held)
        } else {
            None
        },
    }
}

/// What was read of a list of parts: where it ends, the parts as `rabe` writes
/// them, whether the attributes that are held meet all of them, or one, what
/// looking for them comes to, and whether there are at least two.
pub struct Listing {
    pub end: usize,
    pub text: String,
    pub met: bool,
    pub visited: Visited,
    pub several: bool,
}

/// All the parts are met, or one of them.
pub open spec fn parts_met(parts: Seq<Policy>, held: Seq<Seq<char>>, all: bool) -> bool {
    if all {
        crate::policy::all_met(parts, held)
    } else {
        crate::policy::some_met(parts, held)
    }
}

/// What looking for attributes in the parts comes to.
pub open spec fn parts_visited(parts: Seq<Policy>, held: Seq<Seq<char>>, all: bool) -> Visit {
    if all {
        crate::policy::all_visited(parts, held)
    } else {
        crate::policy::any_visited(parts, held)
    }
}

impl Listing {
    /// The listing of `parts` for a holder of `held`, which ends at `end`.
    pub open spec fn lists(
        self,
        parts: Seq<Policy>,
        held: Seq<Seq<char>>,
        all: bool,
        end: int,
    ) -> bool {
        &&& self.end == end
        &&& self.text@ == crate::policy::all_rendered(parts)
        &&& self.met == parts_met(parts, held, all)
        &&& self.visited@ == parts_visited(parts, held, all)
        &&& self.several == (parts.len() >= 2)
    }
}

/// The listing of no parts, which ends at `end`.
fn empty_listing(end: usize, all: bool, held: &Vec<String>) -> (listing: Listing)
    ensures
        listing.lists(Seq::empty(), held.deep_view(), all, end as int),
{
    assert(crate::policy::all_rendered(Seq::<Policy>::empty()) =~= Seq::<char>::empty());
    let visited = if all {
        let names: Vec<String> = Vec::new();
        assert(names.deep_view() =~= Seq::<Seq<char>>::empty());
        Visited::Found(names)
    } else {
        Visited::Missing
    };
    Listing { end, text: String::new(), met: all, visited, several: false }
}

fn read_items(s: &Vec<char>, i: usize, depth: usize, held: &Vec<String>, all: bool) -> (found:
    Option<Listing>)
    requires
        i <= s@.len(),
    ensures
        match items(s@, i as int, depth as nat, Seq::empty()) {
            None => found is None,
            Some((parts, end)) => found is Some && found->0.lists(
                parts,
                held.deep_view(),
                all,
                end,
            ),
        },
        found matches Some(l) ==> i < l.end <= s@.len(),
    decreases depth, 1int,
{
    let mut listing = empty_listing(i, all, held);
    let mut at: usize = i;
    let ghost mut parts: Seq<Policy> = Seq::empty();
    loop
        invariant
            i <= at <= s@.len(),
            items(s@, at as int, depth as nat, parts) == items(
                s@,
                i as int,
                depth as nat,
                Seq::empty(),
            ),
            listing.lists(parts, held.deep_view(), all, listing.end as int),
            at == i <==> parts.len() == 0,
        decreases s@.len() - at,
    {
        let ghost before = parts;
        let part = match read_node(s, at, depth, held) {
            None => {
                return None;
            },
            Some(part) => part,
        };
        proof {
            let (policy, _) = node(s@, at as int, depth as nat)->0;
            parts = parts.push(policy);
            assert(parts.drop_last() =~= before);
        }
        let Listing { end: _, text: so_far, met, visited, several: _ } = listing;
        let mut text = so_far;
        if at != i {
            text.append(", ");
        }
        text.append(part.text.as_str());
        assert(before.len() == 0 ==> text@ =~= parts.last().rendered());
        listing = Listing {
            end: part.end,
            text,
            met: if all {
                met && part.met
            } else {
                met || part.met
            },
            visited: join(all, visited, part.visited),
            several: at != i,
        };
        if let Some(end) = read_char(s, part.end, ']') {
            listing.end = end;
            return Some(listing);
        }
        match read_char(s, part.end, ',') {
            None => {
                return None;
            },
            Some(next) => {
                at = next;
            },
        }
    }
}

fn read_group(s: &Vec<char>, i: usize, depth: usize, all: bool, held: &Vec<String>) -> (found:
    Option<Reading>)
    requires
        i <= s@.len(),
    ensures
        agrees(found, group(s@, i as int, depth as nat, all), held.deep_view()),
        found matches Some(r) ==> i < r.end <= s@.len(),
    decreases depth, 2int,
{
    let j = match read_char(s, i, '[') {
        None => {
            return None;
        },
        Some(j) => j,
    };
    let listed = match read_char(s, j, ']') {
        Some(end) => Some(empty_listing(end, all, held)),
        None => read_items(s, j, depth, held, all),
    };
    match listed {
        None => None,
        Some(parts) => match read_char(s, parts.end, '}') {
            None => None,
            Some(end) => {
                let mut text = if all {
                    "{\"name\": \"and\", \"children\": [".to_owned()
                } else {
                    "{\"name\": \"or\", \"children\": [".to_owned()
                };
                text.append(parts.text.as_str());
                text.append("]}");
                let visited = if parts.several {
                    parts.visited
                } else {
                    Visited::Stuck
                };
                Some(Reading { end, text, met: held.len() > 0 && parts.met, visited })
            },
        },
    }
}

/// The policy that `text` writes down: as `rabe` writes it, whether the attributes
/// that are held meet it, and what looking for them in it comes to.
pub fn read_policy(text: &str, held: &Vec<String>) -> (found: Option<Reading>)
    ensures
        found is Some <==> policy_of(text@) is Some,
        found matches Some(r) ==> {
            &&& r.text@ == policy_of(text@)->0.rendered()
            &&& r.met == policy_of(text@)->0.met_by(held.deep_view())
            &&& r.visited@ == policy_of(text@)->0.visit(held.deep_view())
        },
{
    let s = characters(text);
    match read_node(&s, 0, MAX_HEIGHT, held) {
        None => None,
        Some(r) => if skip_blanks(&s, r.end) == s.len() {
            Some(r)
        } else {
            None
        },
    }
}

} // verus!
