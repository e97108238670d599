//! The language of policies, and that the reader reads it.
//!
//! The language is given by where its texts begin and end, without a word on how
//! they are found: `writes(s, i, j, policy, depth, native)` says that the text from
//! `i` to `j` in `s` writes the policy down, nested at most `depth` deep, and, where
//! `native` holds, in the forms that `rabe` knows itself.
use crate::policy::Policy;
use vstd::prelude::*;

verus! {

/// From `i` to `j` there are blanks only.
pub open spec fn gap(s: Seq<char>, i: int, j: int) -> bool {
    &&& 0 <= i <= j <= s.len()
    &&& forall|k: int|
        i <= k < j ==> (#[trigger] s[k] == ' ' || s[k] == '\t' || s[k] == '\n' || s[k] == '\r')
}

/// From `i` to `j` stands the character, after any blanks.
pub open spec fn token(s: Seq<char>, i: int, j: int, c: char) -> bool {
    &&& 0 <= i < j <= s.len()
    &&& gap(s, i, j - 1)
    &&& s[j - 1] == c
}

/// From `i` to `j` stands the word between quotation marks, after any blanks.
pub open spec fn word(s: Seq<char>, i: int, j: int, w: Seq<char>) -> bool {
    let from = j - 1 - w.len();
    &&& token(s, i, from, '"')
    &&& from < j <= s.len()
    &&& s.subrange(from, j - 1) == w
    &&& s[j - 1] == '"'
    &&& crate::policy::plain_name(w)
}

/// From `i` to `j` stand the word between quotation marks and a colon.
pub open spec fn label(s: Seq<char>, i: int, j: int, w: Seq<char>) -> bool {
    exists|k: int| #[trigger] word(s, i, k, w) && token(s, k, j, ':')
}

/// The label before an attribute.
pub open spec fn attribute_label(w: Seq<char>, native: bool) -> bool {
    w == "name"@ || w == "NAME"@ || (!native && w == "ATT"@)
}

/// The word for all of several parts, or for any of them, in the forms of `rabe`.
pub open spec fn group_word(w: Seq<char>, all: bool) -> bool {
    if all {
        w == "and"@ || w == "AND"@ || w == "&&"@
    } else {
        w == "or"@ || w == "OR"@ || w == "||"@
    }
}

/// From `i` to `j` stands `{"ATT": "name"}`, or the same with another label.
pub open spec fn writes_attribute(
    s: Seq<char>,
    i: int,
    j: int,
    name: Seq<char>,
    native: bool,
) -> bool {
    exists|a: int, b: int, c: int, w: Seq<char>|
        {
            &&& #[trigger] token(s, i, a, '{')
            &&& #[trigger] label(s, a, b, w)
            &&& attribute_label(w, native)
            &&& #[trigger] word(s, b, c, name)
            &&& token(s, c, j, '}')
        }
}

/// From `i` to `j` stands `{"AND": [` or `{"OR": [`.
pub open spec fn opens_short(s: Seq<char>, i: int, j: int, all: bool) -> bool {
    exists|a: int, b: int, w: Seq<char>|
        {
            &&& #[trigger] token(s, i, a, '{')
            &&& #[trigger] label(s, a, b, w)
            &&& w == if all {
                "AND"@
            } else {
                "OR"@
            }
            &&& token(s, b, j, '[')
        }
}

/// From `i` to `j` stands `{"name": "and", "children": [`, or the same with `or`
/// and with other forms of the words.
pub open spec fn opens_long(s: Seq<char>, i: int, j: int, all: bool) -> bool {
    exists|a: int, b: int, c: int, d: int, e: int, w: Seq<char>, op: Seq<char>, v: Seq<char>|
        {
            &&& #[trigger] token(s, i, a, '{')
            &&& #[trigger] label(s, a, b, w)
            &&& w == "name"@ || w == "NAME"@
            &&& #[trigger] word(s, b, c, op)
            &&& group_word(op, all)
            &&& #[trigger] token(s, c, d, ',')
            &&& #[trigger] label(s, d, e, v)
            &&& v == "children"@ || v == "CHILDREN"@
            &&& token(s, e, j, '[')
        }
}

/// From `i` to `j` stands what opens a group.
pub open spec fn opens(s: Seq<char>, i: int, j: int, all: bool, native: bool) -> bool {
    (!native && opens_short(s, i, j, all)) || opens_long(s, i, j, all)
}

/// Between any two parts that stand between the positions there is a comma.
pub open spec fn commas(s: Seq<char>, from: Seq<int>, to: Seq<int>) -> bool {
    &&& from.len() == to.len()
    &&& forall|k: int| 0 < k < from.len() ==> token(s, to[k - 1], #[trigger] from[k], ',')
}

/// From `i` to `j` the text writes the policy down.
pub open spec fn writes(
    s: Seq<char>,
    i: int,
    j: int,
    policy: Policy,
    depth: nat,
    native: bool,
) -> bool
    decreases depth, 0int, 0int,
{
    &&& depth > 0
    &&& match policy {
        Policy::Attribute(name) => writes_attribute(s, i, j, name, native),
        Policy::All(parts) => writes_group(s, i, j, parts, true, (depth - 1) as nat, native),
        Policy::Any(parts) => writes_group(s, i, j, parts, false, (depth - 1) as nat, native),
    }
}

/// From `i` to `j` the text writes down that all the parts are asked for, or any.
pub open spec fn writes_group(
    s: Seq<char>,
    i: int,
    j: int,
    parts: Seq<Policy>,
    all: bool,
    depth: nat,
    native: bool,
) -> bool
    decreases depth, 2int, 0int,
{
    exists|a: int, b: int|
        {
            &&& #[trigger] opens(s, i, a, all, native)
            &&& writes_list(s, a, b, parts, depth, native)
            &&& #[trigger] token(s, b, j, '}')
        }
}

/// From `i` to `j` the text writes the parts down, with a comma between any two and
/// a bracket behind them.
pub open spec fn writes_list(
    s: Seq<char>,
    i: int,
    j: int,
    parts: Seq<Policy>,
    depth: nat,
    native: bool,
) -> bool
    decreases depth, 1int, 0int,
{
    if parts.len() == 0 {
        token(s, i, j, ']')
    } else {
        exists|from: Seq<int>, to: Seq<int>|
            {
                &&& #[trigger] commas(s, from, to)
                &&& stand_at(s, parts, from, to, depth, native)
                &&& from[0] == i
                &&& token(s, to.last(), j, ']')
            }
    }
}

/// The parts stand each between its two positions.
pub open spec fn stand_at(
    s: Seq<char>,
    parts: Seq<Policy>,
    from: Seq<int>,
    to: Seq<int>,
    depth: nat,
    native: bool,
) -> bool
    decreases depth, 0int, 1int,
{
    &&& from.len() == parts.len()
    &&& to.len() == parts.len()
    &&& forall|k: int|
        0 <= k < parts.len() ==> writes(s, from[k], to[k], #[trigger] parts[k], depth, native)
}

/// The whole text writes the policy down, with any blanks after it.
pub open spec fn written_in(text: Seq<char>, policy: Policy, native: bool) -> bool {
    exists|j: int| #[trigger]
        writes(text, 0, j, policy, 64, native) && gap(text, j, text.len() as int)
}

proof fn lemma_past_blanks(s: Seq<char>, i: int)
    requires
        0 <= i <= s.len(),
    ensures
        gap(s, i, crate::policy_text::past_blanks(s, i)),
        crate::policy_text::past_blanks(s, i) < s.len() ==> !crate::policy_text::blank(
            s[crate::policy_text::past_blanks(s, i)],
        ),
    decreases s.len() - i,
{
    if i < s.len() && crate::policy_text::blank(s[i]) {
        lemma_past_blanks(s, i + 1);
    }
}

proof fn lemma_gap_passed(s: Seq<char>, i: int, j: int)
    requires
        gap(s, i, j),
        j < s.len() ==> !crate::policy_text::blank(s[j]),
    ensures
        crate::policy_text::past_blanks(s, i) == j,
    decreases j - i,
{
    if i < j {
        assert(crate::policy_text::blank(s[i]));
        lemma_gap_passed(s, i + 1, j);
    }
}

proof fn lemma_token(s: Seq<char>, i: int, c: char)
    requires
        0 <= i <= s.len(),
        !crate::policy_text::blank(c),
    ensures
        forall|j: int| #[trigger]
            token(s, i, j, c) <==> crate::policy_text::after(s, i, c) == Some(j),
{
    lemma_past_blanks(s, i);
    assert forall|j: int| token(s, i, j, c) implies crate::policy_text::after(s, i, c) == Some(
        j,
    ) by {
        lemma_gap_passed(s, i, j - 1);
    }
}

proof fn lemma_word(s: Seq<char>, i: int)
    requires
        0 <= i <= s.len(),
    ensures
        forall|w: Seq<char>, j: int| #[trigger]
            word(s, i, j, w) <==> crate::policy_text::literal(s, i) == Some((w, j)),
{
    lemma_token(s, i, '"');
    assert forall|w: Seq<char>, j: int| word(s, i, j, w) implies crate::policy_text::literal(s, i)
        == Some((w, j)) by {
        let from = j - 1 - w.len();
        crate::policy_laws::lemma_closing_quote(s, from, w);
    }
    assert forall|w: Seq<char>, j: int|
        crate::policy_text::literal(s, i) == Some((w, j)) implies #[trigger] word(s, i, j, w) by {
        let from = crate::policy_text::after(s, i, '"')->0;
        assert(token(s, i, from, '"'));
        crate::policy_laws::lemma_literal_plain(s, from);
        crate::policy_laws::lemma_closing_quote_up(s, from);
    }
}

proof fn lemma_label(s: Seq<char>, i: int)
    requires
        0 <= i <= s.len(),
    ensures
        forall|w: Seq<char>, j: int| #[trigger]
            label(s, i, j, w) <==> crate::policy_text::key(s, i) == Some((w, j)),
{
    lemma_word(s, i);
    if let Some((v, k)) = crate::policy_text::literal(s, i) {
        assert(word(s, i, k, v));
        lemma_token(s, k, ':');
    }
    assert forall|w: Seq<char>, j: int|
        crate::policy_text::key(s, i) == Some((w, j)) implies #[trigger] label(s, i, j, w) by {
        let (v, k) = crate::policy_text::literal(s, i)->0;
        assert(word(s, i, k, v));
        assert(token(s, k, j, ':'));
    }
    assert forall|w: Seq<char>, j: int| #[trigger]
        label(s, i, j, w) implies crate::policy_text::key(
        s,
        i,
    ) == Some((w, j)) by {
        let k = choose|k: int| #[trigger] word(s, i, k, w) && token(s, k, j, ':');
        assert(crate::policy_text::literal(s, i) == Some((w, k)));
    }
}

/// The reader reads at `i` what the text from there on writes down, and nothing
/// else.
proof fn lemma_node(s: Seq<char>, i: int, depth: nat)
    requires
        0 <= i <= s.len(),
    ensures
        forall|policy: Policy, j: int|
            crate::policy_text::node(s, i, depth) == Some((policy, j)) <==> #[trigger] writes(
                s,
                i,
                j,
                policy,
                depth,
                false,
            ),
    decreases depth, 0int, s.len() - i,
{
    lemma_token(s, i, '{');
    assert forall|policy: Policy, j: int|
        crate::policy_text::node(s, i, depth) == Some((policy, j)) implies #[trigger] writes(
        s,
        i,
        j,
        policy,
        depth,
        false,
    ) by {
        lemma_node_writes(s, i, depth);
    }
    assert forall|policy: Policy, j: int| #[trigger]
        writes(s, i, j, policy, depth, false) implies crate::policy_text::node(s, i, depth) == Some(
        (policy, j),
    ) by {
        lemma_written_is_read(s, i, j, policy, depth);
    }
}

proof fn lemma_words_differ()
    ensures
        "name"@ != "ATT"@,
        "name"@ != "AND"@,
        "name"@ != "OR"@,
        "NAME"@ != "ATT"@,
        "NAME"@ != "AND"@,
        "NAME"@ != "OR"@,
        "ATT"@ != "AND"@,
        "ATT"@ != "OR"@,
        "AND"@ != "OR"@,
        forall|w: Seq<char>| !(#[trigger] group_word(w, true) && group_word(w, false)),
{
    reveal_strlit("name");
    reveal_strlit("NAME");
    reveal_strlit("ATT");
    reveal_strlit("AND");
    reveal_strlit("OR");
    reveal_strlit("and");
    reveal_strlit("or");
    reveal_strlit("&&");
    reveal_strlit("||");
    assert("name"@.len() == 4 && "NAME"@.len() == 4 && "ATT"@.len() == 3 && "AND"@.len() == 3);
    assert("OR"@.len() == 2 && "or"@.len() == 2 && "||"@.len() == 2 && "and"@.len() == 3);
    assert("ATT"@[1] == 'T' && "AND"@[1] == 'N');
    assert("&&"@[0] == '&' && "||"@[0] == '|' && "OR"@[0] == 'O' && "or"@[0] == 'o');
}

/// What is read is written there.
proof fn lemma_node_writes(s: Seq<char>, i: int, depth: nat)
    requires
        0 <= i <= s.len(),
    ensures
        crate::policy_text::node(s, i, depth) matches Some((policy, j)) ==> writes(
            s,
            i,
            j,
            policy,
            depth,
            false,
        ),
    decreases depth, 0int, s.len() - i,
{
    if let Some((policy, j)) = crate::policy_text::node(s, i, depth) {
        lemma_token(s, i, '{');
        let a = crate::policy_text::after(s, i, '{')->0;
        assert(token(s, i, a, '{'));
        lemma_label(s, a);
        let (w, b) = crate::policy_text::key(s, a)->0;
        assert(label(s, a, b, w));
        let lower = (depth - 1) as nat;
        lemma_word(s, b);
        if w == "ATT"@ {
            lemma_leaf(s, i, a, b, w);
        } else if w == "AND"@ {
            lemma_token(s, b, '[');
            let e = crate::policy_text::after(s, b, '[')->0;
            assert(token(s, b, e, '['));
            assert(opens_short(s, i, e, true));
            lemma_group_writes(s, i, b, lower, true);
        } else if w == "OR"@ {
            lemma_token(s, b, '[');
            let e = crate::policy_text::after(s, b, '[')->0;
            assert(token(s, b, e, '['));
            assert(opens_short(s, i, e, false));
            lemma_group_writes(s, i, b, lower, false);
        } else {
            let (op, c) = crate::policy_text::literal(s, b)->0;
            assert(word(s, b, c, op));
            if crate::policy_text::after(s, c, '}') is Some {
                lemma_leaf(s, i, a, b, w);
            } else {
                lemma_token(s, c, ',');
                let d = crate::policy_text::after(s, c, ',')->0;
                assert(token(s, c, d, ','));
                lemma_label(s, d);
                let (v, e) = crate::policy_text::key(s, d)->0;
                assert(label(s, d, e, v));
                lemma_token(s, e, '[');
                let f = crate::policy_text::after(s, e, '[')->0;
                assert(token(s, e, f, '['));
                let all = crate::policy_text::and_word(op);
                assert(opens_long(s, i, f, all));
                lemma_group_writes(s, i, e, lower, all);
            }
        }
    }
}

proof fn lemma_leaf(s: Seq<char>, i: int, a: int, b: int, w: Seq<char>)
    requires
        token(s, i, a, '{'),
        label(s, a, b, w),
        attribute_label(w, false),
    ensures
        crate::policy_text::leaf(s, b) matches Some((policy, end)) ==> {
            policy matches Policy::Attribute(name) && writes_attribute(s, i, end, name, false)
        },
{
    if crate::policy_text::leaf(s, b) is Some {
        lemma_label(s, a);
        lemma_word(s, b);
        let (name, c) = crate::policy_text::literal(s, b)->0;
        assert(word(s, b, c, name));
        lemma_token(s, c, '}');
        let end = crate::policy_text::after(s, c, '}')->0;
        assert(token(s, c, end, '}'));
    }
}

/// What is read of a group behind its opening is written there.
proof fn lemma_group_writes(s: Seq<char>, i: int, m: int, depth: nat, all: bool)
    requires
        0 <= m <= s.len(),
        crate::policy_text::after(s, m, '[') matches Some(a) && (opens_short(s, i, a, all)
            || opens_long(s, i, a, all)),
    ensures
        crate::policy_text::group(s, m, depth, all) matches Some((policy, j)) ==> {
            &&& (policy matches Policy::All(parts) && all && writes_group(
                s,
                i,
                j,
                parts,
                true,
                depth,
                false,
            )) || (policy matches Policy::Any(parts) && !all && writes_group(
                s,
                i,
                j,
                parts,
                false,
                depth,
                false,
            ))
        },
    decreases depth, 2int, s.len() - m,
{
    if let Some((policy, j)) = crate::policy_text::group(s, m, depth, all) {
        lemma_token(s, m, '[');
        let a = crate::policy_text::after(s, m, '[')->0;
        assert(token(s, m, a, '['));
        lemma_token(s, a, ']');
        let empty = Seq::<Policy>::empty();
        let (parts, b) = match crate::policy_text::after(s, a, ']') {
            Some(k) => (empty, k),
            None => crate::policy_text::items(s, a, depth, empty)->0,
        };
        if crate::policy_text::after(s, a, ']') is Some {
            assert(token(s, a, b, ']'));
        } else {
            lemma_items_write(s, a, a, depth, empty, Seq::empty(), Seq::empty());
        }
        assert(opens(s, i, a, all, false));
        lemma_token(s, b, '}');
        assert(token(s, b, j, '}'));
    }
}

/// What is read of a list, after parts that stand before it, is written there.
proof fn lemma_items_write(
    s: Seq<char>,
    start: int,
    i: int,
    depth: nat,
    parts: Seq<Policy>,
    from: Seq<int>,
    to: Seq<int>,
)
    requires
        0 <= i <= s.len(),
        commas(s, from, to),
        stand_at(s, parts, from, to, depth, false),
        parts.len() == 0 ==> i == start,
        parts.len() > 0 ==> from[0] == start && token(s, to.last(), i, ','),
    ensures
        crate::policy_text::items(s, i, depth, parts) matches Some((found, j)) ==> writes_list(
            s,
            start,
            j,
            found,
            depth,
            false,
        ) && 0 <= j <= s.len() && found.len() > 0,
    decreases depth, 1int, s.len() - i,
{
    if let Some((part, e)) = crate::policy_text::node(s, i, depth) {
        lemma_node_writes(s, i, depth);
        lemma_writes_end(s, i, e, part, depth);
        crate::policy_laws::lemma_node_shape(s, i, depth);
        let more = parts.push(part);
        let from2 = from.push(i);
        let to2 = to.push(e);
        assert forall|k: int| 0 <= k < more.len() implies writes(
            s,
            from2[k],
            to2[k],
            #[trigger] more[k],
            depth,
            false,
        ) by {
            if k < parts.len() {
                assert(more[k] == parts[k]);
            }
        }
        assert forall|k: int| 0 < k < from2.len() implies token(
            s,
            to2[k - 1],
            #[trigger] from2[k],
            ',',
        ) by {
            if k < parts.len() {
                assert(from2[k] == from[k]);
            }
        }
        assert(commas(s, from2, to2));
        assert(stand_at(s, more, from2, to2, depth, false));
        lemma_token(s, e, ']');
        lemma_token(s, e, ',');
        if let Some(k) = crate::policy_text::after(s, e, ']') {
            assert(token(s, e, k, ']'));
        } else if let Some(k) = crate::policy_text::after(s, e, ',') {
            assert(token(s, e, k, ','));
            if i < k <= s.len() {
                lemma_items_write(s, start, k, depth, more, from2, to2);
            }
        }
    }
}

/// A text that writes a policy down begins with a brace and ends within the whole
/// text.
proof fn lemma_writes_end(s: Seq<char>, i: int, j: int, policy: Policy, depth: nat)
    requires
        writes(s, i, j, policy, depth, false),
    ensures
        0 <= i <= s.len(),
        0 <= j <= s.len(),
        exists|a: int| #[trigger] token(s, i, a, '{'),
{
    match policy {
        Policy::Attribute(name) => {},
        Policy::All(parts) => {
            assert(writes_group(s, i, j, parts, true, (depth - 1) as nat, false));
        },
        Policy::Any(parts) => {
            assert(writes_group(s, i, j, parts, false, (depth - 1) as nat, false));
        },
    }
}

/// What is written there is read.
proof fn lemma_written_is_read(s: Seq<char>, i: int, j: int, policy: Policy, depth: nat)
    requires
        writes(s, i, j, policy, depth, false),
    ensures
        crate::policy_text::node(s, i, depth) == Some((policy, j)),
    decreases depth, 0int, 0int,
{
    lemma_words_differ();
    lemma_writes_end(s, i, j, policy, depth);
    lemma_token(s, i, '{');
    match policy {
        Policy::Attribute(name) => {
            let (a, b, c, w) = choose|a: int, b: int, c: int, w: Seq<char>|
                {
                    &&& #[trigger] token(s, i, a, '{')
                    &&& #[trigger] label(s, a, b, w)
                    &&& attribute_label(w, false)
                    &&& #[trigger] word(s, b, c, name)
                    &&& token(s, c, j, '}')
                };
            lemma_label(s, a);
            lemma_word(s, b);
            lemma_token(s, c, '}');
        },
        Policy::All(parts) => {
            lemma_group_is_read(s, i, j, parts, true, (depth - 1) as nat);
        },
        Policy::Any(parts) => {
            lemma_group_is_read(s, i, j, parts, false, (depth - 1) as nat);
        },
    }
}

proof fn lemma_group_is_read(
    s: Seq<char>,
    i: int,
    j: int,
    parts: Seq<Policy>,
    all: bool,
    depth: nat,
)
    requires
        writes_group(s, i, j, parts, all, depth, false),
    ensures
        crate::policy_text::node(s, i, depth + 1) == Some(
            (
                if all {
                    Policy::All(parts)
                } else {
                    Policy::Any(parts)
                },
                j,
            ),
        ),
    decreases depth, 2int, 0int,
{
    let (e, f) = choose|e: int, f: int|
        {
            &&& #[trigger] opens(s, i, e, all, false)
            &&& writes_list(s, e, f, parts, depth, false)
            &&& #[trigger] token(s, f, j, '}')
        };
    lemma_list_is_read(s, e, f, parts, depth);
    lemma_token(s, f, '}');
    let m = if opens_short(s, i, e, all) {
        lemma_short_opening(s, i, e, all, depth)
    } else {
        lemma_long_opening(s, i, e, all, depth)
    };
    assert(crate::policy_text::group(s, m, depth, all) is Some);
}

/// Behind `{"AND": ` or `{"OR": ` a group is read.
proof fn lemma_short_opening(s: Seq<char>, i: int, e: int, all: bool, depth: nat) -> (m: int)
    requires
        opens_short(s, i, e, all),
    ensures
        crate::policy_text::after(s, m, '[') == Some(e),
        crate::policy_text::node(s, i, depth + 1) == crate::policy_text::group(s, m, depth, all),
{
    lemma_words_differ();
    let (a, b, w) = choose|a: int, b: int, w: Seq<char>|
        {
            &&& #[trigger] token(s, i, a, '{')
            &&& #[trigger] label(s, a, b, w)
            &&& w == if all {
                "AND"@
            } else {
                "OR"@
            }
            &&& token(s, b, e, '[')
        };
    lemma_token(s, i, '{');
    lemma_label(s, a);
    lemma_token(s, b, '[');
    b
}

/// Behind the opening of a group in the form of `rabe` a group is read.
proof fn lemma_long_opening(s: Seq<char>, i: int, e: int, all: bool, depth: nat) -> (m: int)
    requires
        opens_long(s, i, e, all),
    ensures
        crate::policy_text::after(s, m, '[') == Some(e),
        crate::policy_text::node(s, i, depth + 1) == crate::policy_text::group(s, m, depth, all),
{
    lemma_words_differ();
    let (a, b, c, d, g, w, op, v) = choose|
        a: int,
        b: int,
        c: int,
        d: int,
        g: int,
        w: Seq<char>,
        op: Seq<char>,
        v: Seq<char>,
    |
        {
            &&& #[trigger] token(s, i, a, '{')
            &&& #[trigger] label(s, a, b, w)
            &&& w == "name"@ || w == "NAME"@
            &&& #[trigger] word(s, b, c, op)
            &&& group_word(op, all)
            &&& #[trigger] token(s, c, d, ',')
            &&& #[trigger] label(s, d, g, v)
            &&& v == "children"@ || v == "CHILDREN"@
            &&& token(s, g, e, '[')
        };
    lemma_token(s, i, '{');
    lemma_label(s, a);
    lemma_word(s, b);
    lemma_token(s, c, ',');
    lemma_label(s, d);
    lemma_token(s, g, '[');
    assert(crate::policy_text::after(s, c, ',') == Some(d));
    assert(crate::policy_text::after(s, c, '}') is None);
    assert(crate::policy_text::children(s, c) == Some(g));
    assert(group_word(op, true) == crate::policy_text::and_word(op));
    assert(group_word(op, false) == crate::policy_text::or_word(op));
    g
}

proof fn lemma_list_is_read(s: Seq<char>, i: int, j: int, parts: Seq<Policy>, depth: nat)
    requires
        writes_list(s, i, j, parts, depth, false),
    ensures
        0 <= i <= s.len(),
        match crate::policy_text::after(s, i, ']') {
            Some(k) => parts == Seq::<Policy>::empty() && k == j,
            None => crate::policy_text::items(s, i, depth, Seq::empty()) == Some((parts, j)),
        },
    decreases depth, 1int, parts.len() + 1,
{
    if parts.len() == 0 {
        lemma_token(s, i, ']');
        assert(parts =~= Seq::<Policy>::empty());
    } else {
        let (from, to) = choose|from: Seq<int>, to: Seq<int>|
            {
                &&& #[trigger] commas(s, from, to)
                &&& stand_at(s, parts, from, to, depth, false)
                &&& from[0] == i
                &&& token(s, to.last(), j, ']')
            };
        assert(writes(s, from[0], to[0], parts[0], depth, false));
        lemma_writes_end(s, i, to[0], parts[0], depth);
        lemma_token(s, i, '{');
        lemma_token(s, i, ']');
        lemma_items_are_read(s, j, parts, from, to, 0, depth);
        assert(parts.take(0) =~= Seq::<Policy>::empty());
    }
}

proof fn lemma_items_are_read(
    s: Seq<char>,
    j: int,
    parts: Seq<Policy>,
    from: Seq<int>,
    to: Seq<int>,
    k: int,
    depth: nat,
)
    requires
        commas(s, from, to),
        stand_at(s, parts, from, to, depth, false),
        0 <= k < parts.len(),
        token(s, to.last(), j, ']'),
    ensures
        crate::policy_text::items(s, from[k], depth, parts.take(k)) == Some((parts, j)),
    decreases depth, 1int, parts.len() - k,
{
    assert(writes(s, from[k], to[k], parts[k], depth, false));
    lemma_written_is_read(s, from[k], to[k], parts[k], depth);
    lemma_writes_end(s, from[k], to[k], parts[k], depth);
    crate::policy_laws::lemma_node_shape(s, from[k], depth);
    assert(parts.take(k).push(parts[k]) =~= parts.take(k + 1));
    lemma_token(s, to[k], ']');
    lemma_token(s, to[k], ',');
    if k == parts.len() - 1 {
        assert(parts.take(k + 1) =~= parts);
    } else {
        assert(token(s, to[(k + 1) - 1], from[k + 1], ','));
        lemma_items_are_read(s, j, parts, from, to, k + 1, depth);
    }
}

/// The reader takes a text for the policy that it writes down, and refuses a text
/// that writes none down: what stands behind `AND`, or behind `and` in the form of
/// `rabe`, are the parts of a conjunction, what stands behind `OR` those of a
/// disjunction, whatever the parts are and wherever there are blanks.
pub proof fn law_policies_are_read_as_written(text: Seq<char>)
    ensures
        forall|policy: Policy|
            crate::policy_text::policy_of(text) == Some(policy) <==> #[trigger] written_in(
                text,
                policy,
                false,
            ),
{
    let n = text.len() as int;
    lemma_node(text, 0, 64);
    assert forall|policy: Policy| #[trigger]
        written_in(text, policy, false) implies crate::policy_text::policy_of(text) == Some(
        policy,
    ) by {
        let j = choose|j: int| #[trigger]
            writes(text, 0, j, policy, 64, false) && gap(text, j, n);
        lemma_gap_passed(text, j, n);
    }
    assert forall|policy: Policy|
        crate::policy_text::policy_of(text) == Some(policy) implies #[trigger] written_in(
        text,
        policy,
        false,
    ) by {
        let (p, j) = crate::policy_text::node(text, 0, 64)->0;
        assert(writes(text, 0, j, p, 64, false));
        lemma_writes_end(text, 0, j, p, 64);
        lemma_past_blanks(text, j);
    }
}

} // verus!
