//! Policies written down, by clients and by `rabe`, and that both are read back.
use crate::policy::Policy;
use crate::policy_grammar::{gap, label, token, word};
use vstd::prelude::*;

verus! {

/// What stands before the name of an attribute.
pub open spec fn attribute_head(native: bool) -> Seq<char> {
    if native {
        "{\"name\": \""@
    } else {
        "{\"ATT\": \""@
    }
}

/// What stands before the parts of a group.
pub open spec fn group_head(all: bool, native: bool) -> Seq<char> {
    if native {
        if all {
            "{\"name\": \"and\", \"children\": ["@
        } else {
            "{\"name\": \"or\", \"children\": ["@
        }
    } else {
        if all {
            "{\"AND\": ["@
        } else {
            "{\"OR\": ["@
        }
    }
}

/// The policy as `rabe` writes it, or as clients do: `{"ATT": "name"}`,
/// `{"AND": [.., ..]}` and `{"OR": [.., ..]}`.
pub open spec fn printed(policy: Policy, native: bool) -> Seq<char>
    decreases policy,
{
    match policy {
        Policy::Attribute(name) => attribute_head(native) + name + "\"}"@,
        Policy::All(parts) => group_head(true, native) + all_printed(parts, native) + "]}"@,
        Policy::Any(parts) => group_head(false, native) + all_printed(parts, native) + "]}"@,
    }
}

/// The parts one after the other, with a comma and a space between.
pub open spec fn all_printed(parts: Seq<Policy>, native: bool) -> Seq<char>
    decreases parts,
{
    if parts.len() == 0 {
        Seq::empty()
    } else if parts.len() == 1 {
        printed(parts.last(), native)
    } else {
        all_printed(parts.drop_last(), native) + ", "@ + printed(parts.last(), native)
    }
}

/// A blank before a policy belongs to it as well.
proof fn lemma_blank_before(
    s: Seq<char>,
    i: int,
    j: int,
    policy: Policy,
    depth: nat,
    native: bool,
)
    requires
        0 <= i,
        crate::policy_grammar::writes(s, i + 1, j, policy, depth, native),
        s[i] == ' ',
    ensures
        crate::policy_grammar::writes(s, i, j, policy, depth, native),
{
    assert forall|a: int| token(s, i + 1, a, '{') implies #[trigger] token(s, i, a, '{') by {
        assert forall|k: int| i <= k < a - 1 implies (#[trigger] s[k] == ' ' || s[k] == '\t'
            || s[k] == '\n' || s[k] == '\r') by {
            if k > i {
                assert(gap(s, i + 1, a - 1));
            }
        }
    }
    match policy {
        Policy::Attribute(name) => {
            let (a, b, c, w) = choose|a: int, b: int, c: int, w: Seq<char>|
                {
                    &&& #[trigger] token(s, i + 1, a, '{')
                    &&& #[trigger] label(s, a, b, w)
                    &&& crate::policy_grammar::attribute_label(w, native)
                    &&& #[trigger] word(s, b, c, name)
                    &&& token(s, c, j, '}')
                };
            assert(token(s, i, a, '{'));
        },
        Policy::All(parts) => {
            lemma_blank_before_group(s, i, j, parts, true, (depth - 1) as nat, native);
        },
        Policy::Any(parts) => {
            lemma_blank_before_group(s, i, j, parts, false, (depth - 1) as nat, native);
        },
    }
}

proof fn lemma_blank_before_group(
    s: Seq<char>,
    i: int,
    j: int,
    parts: Seq<Policy>,
    all: bool,
    depth: nat,
    native: bool,
)
    requires
        0 <= i,
        crate::policy_grammar::writes_group(s, i + 1, j, parts, all, depth, native),
        forall|a: int| token(s, i + 1, a, '{') ==> #[trigger] token(s, i, a, '{'),
    ensures
        crate::policy_grammar::writes_group(s, i, j, parts, all, depth, native),
{
    let (e, f) = choose|e: int, f: int|
        {
            &&& #[trigger] crate::policy_grammar::opens(s, i + 1, e, all, native)
            &&& crate::policy_grammar::writes_list(s, e, f, parts, depth, native)
            &&& #[trigger] token(s, f, j, '}')
        };
    if crate::policy_grammar::opens_short(s, i + 1, e, all) && !native {
        lemma_blank_before_short(s, i, e, all);
    } else {
        lemma_blank_before_long(s, i, e, all);
    }
    assert(crate::policy_grammar::opens(s, i, e, all, native));
}

proof fn lemma_blank_before_short(s: Seq<char>, i: int, e: int, all: bool)
    requires
        crate::policy_grammar::opens_short(s, i + 1, e, all),
        forall|a: int| token(s, i + 1, a, '{') ==> #[trigger] token(s, i, a, '{'),
    ensures
        crate::policy_grammar::opens_short(s, i, e, all),
{
    let (a, b, w) = choose|a: int, b: int, w: Seq<char>|
        {
            &&& #[trigger] token(s, i + 1, a, '{')
            &&& #[trigger] label(s, a, b, w)
            &&& w == if all {
                "AND"@
            } else {
                "OR"@
            }
            &&& token(s, b, e, '[')
        };
    assert(token(s, i, a, '{'));
}

proof fn lemma_blank_before_long(s: Seq<char>, i: int, e: int, all: bool)
    requires
        crate::policy_grammar::opens_long(s, i + 1, e, all),
        forall|a: int| token(s, i + 1, a, '{') ==> #[trigger] token(s, i, a, '{'),
    ensures
        crate::policy_grammar::opens_long(s, i, e, all),
{
    let (a, b, c, d, g, w, op, v) = choose|
        a: int,
        b: int,
        c: int,
        d: int,
        g: int,
        w: Seq<char>,
        op: Seq<char>,
        v: Seq<char>,
    |
        {
            &&& #[trigger] token(s, i + 1, a, '{')
            &&& #[trigger] label(s, a, b, w)
            &&& w == "name"@ || w == "NAME"@
            &&& #[trigger] word(s, b, c, op)
            &&& crate::policy_grammar::group_word(op, all)
            &&& #[trigger] token(s, c, d, ',')
            &&& #[trigger] label(s, d, g, v)
            &&& v == "children"@ || v == "CHILDREN"@
            &&& token(s, g, e, '[')
        };
    assert(token(s, i, a, '{'));
}

/// The characters of a word that stands in a text.
proof fn lemma_chars(s: Seq<char>, i: int, t: Seq<char>)
    requires
        crate::policy_laws::stands(s, i, t),
    ensures
        forall|k: int| 0 <= k < t.len() ==> s[i + k] == #[trigger] t[k],
{
    assert forall|k: int| 0 <= k < t.len() implies s[i + k] == #[trigger] t[k] by {
        crate::policy_laws::lemma_stands_index(s, i, t, k);
    }
}

/// A simple word between quotation marks that stand there.
proof fn lemma_simple_word(s: Seq<char>, i: int, q: int, w: Seq<char>)
    requires
        token(s, i, q, '"'),
        crate::policy_laws::stands(s, q, w),
        forall|k: int| 0 <= k < w.len() ==> #[trigger] w[k] != '"' && w[k] != '\\',
        q + w.len() < s.len(),
        s[q + w.len()] == '"',
    ensures
        word(s, i, q + w.len() + 1, w),
{
    crate::policy_laws::lemma_simple_is_plain(w, 0);
}

proof fn lemma_attribute_head(s: Seq<char>, i: int, native: bool)
    requires
        crate::policy_laws::stands(s, i, attribute_head(native)),
    ensures
        ({
            let n = attribute_head(native).len();
            exists|a: int, b: int, w: Seq<char>|
                {
                    &&& #[trigger] token(s, i, a, '{')
                    &&& #[trigger] label(s, a, b, w)
                    &&& crate::policy_grammar::attribute_label(w, native)
                    &&& token(s, b, i + n, '"')
                }
        }),
{
    reveal_strlit("{\"name\": \"");
    reveal_strlit("{\"ATT\": \"");
    reveal_strlit("name");
    reveal_strlit("ATT");
    let t = attribute_head(native);
    let w = if native {
        "name"@
    } else {
        "ATT"@
    };
    lemma_chars(s, i, t);
    assert(s[i] == t[0] && s[i + 1] == t[1]);
    assert(token(s, i, i + 1, '{'));
    assert(token(s, i + 1, i + 2, '"'));
    assert forall|k: int| 0 <= k < w.len() implies s[i + 2 + k] == w[k] by {
        assert(s[i + (2 + k)] == t[2 + k]);
    }
    let n = w.len() as int;
    assert(s.subrange(i + 2, i + 2 + n) =~= w);
    assert(s[i + (2 + n)] == t[2 + n]);
    assert(s[i + (3 + n)] == t[3 + n]);
    assert(s[i + (4 + n)] == t[4 + n]);
    assert(s[i + (5 + n)] == t[5 + n]);
    lemma_simple_word(s, i + 1, i + 2, w);
    assert(word(s, i + 1, i + 3 + n, w));
    assert(token(s, i + 3 + n, i + 4 + n, ':'));
    assert(label(s, i + 1, i + 4 + n, w));
    assert(token(s, i + 4 + n, i + 6 + n, '"'));
}

proof fn lemma_group_head(s: Seq<char>, i: int, all: bool, native: bool)
    requires
        crate::policy_laws::stands(s, i, group_head(all, native)),
    ensures
        crate::policy_grammar::opens(
            s,
            i,
            i + group_head(all, native).len(),
            all,
            native,
        ),
{
    if native {
        lemma_long_head(s, i, all);
    } else {
        lemma_short_head(s, i, all);
    }
}

proof fn lemma_short_head(s: Seq<char>, i: int, all: bool)
    requires
        crate::policy_laws::stands(s, i, group_head(all, false)),
    ensures
        crate::policy_grammar::opens_short(s, i, i + group_head(all, false).len(), all),
{
    reveal_strlit("{\"AND\": [");
    reveal_strlit("{\"OR\": [");
    reveal_strlit("AND");
    reveal_strlit("OR");
    let t = group_head(all, false);
    let w = if all {
        "AND"@
    } else {
        "OR"@
    };
    lemma_chars(s, i, t);
    assert(s[i] == t[0] && s[i + 1] == t[1]);
    assert(token(s, i, i + 1, '{'));
    assert(token(s, i + 1, i + 2, '"'));
    assert forall|k: int| 0 <= k < w.len() implies s[i + 2 + k] == w[k] by {
        assert(s[i + (2 + k)] == t[2 + k]);
    }
    let n = w.len() as int;
    assert(s.subrange(i + 2, i + 2 + n) =~= w);
    assert(s[i + (2 + n)] == t[2 + n]);
    assert(s[i + (3 + n)] == t[3 + n]);
    assert(s[i + (4 + n)] == t[4 + n]);
    assert(s[i + (5 + n)] == t[5 + n]);
    lemma_simple_word(s, i + 1, i + 2, w);
    assert(word(s, i + 1, i + 3 + n, w));
    assert(token(s, i + 3 + n, i + 4 + n, ':'));
    assert(label(s, i + 1, i + 4 + n, w));
    assert(token(s, i + 4 + n, i + 6 + n, '['));
}

proof fn lemma_long_head(s: Seq<char>, i: int, all: bool)
    requires
        crate::policy_laws::stands(s, i, group_head(all, true)),
    ensures
        crate::policy_grammar::opens_long(s, i, i + group_head(all, true).len(), all),
{
    reveal_strlit("{\"name\": \"and\", \"children\": [");
    reveal_strlit("{\"name\": \"or\", \"children\": [");
    reveal_strlit("name");
    reveal_strlit("and");
    reveal_strlit("or");
    reveal_strlit("children");
    let t = group_head(all, true);
    let op = if all {
        "and"@
    } else {
        "or"@
    };
    lemma_chars(s, i, t);
    assert(s[i] == t[0] && s[i + 1] == t[1] && s[i + 2] == t[2] && s[i + 3] == t[3]);
    assert(s[i + 4] == t[4] && s[i + 5] == t[5] && s[i + 6] == t[6] && s[i + 7] == t[7]);
    assert(s[i + 8] == t[8] && s[i + 9] == t[9]);
    assert(token(s, i, i + 1, '{'));
    assert(token(s, i + 1, i + 2, '"'));
    assert(s.subrange(i + 2, i + 6) =~= "name"@);
    lemma_simple_word(s, i + 1, i + 2, "name"@);
    assert(token(s, i + 7, i + 8, ':'));
    assert(label(s, i + 1, i + 8, "name"@));
    assert(token(s, i + 8, i + 10, '"'));
    let n = op.len() as int;
    assert forall|k: int| 0 <= k < n implies s[i + 10 + k] == op[k] by {
        assert(s[i + (10 + k)] == t[10 + k]);
    }
    assert(s.subrange(i + 10, i + 10 + n) =~= op);
    assert(s[i + (10 + n)] == t[10 + n]);
    lemma_simple_word(s, i + 8, i + 10, op);
    let c = i + 11 + n;
    assert(word(s, i + 8, c, op));
    assert(s[i + (11 + n)] == t[11 + n]);
    assert(s[i + (12 + n)] == t[12 + n]);
    assert(s[i + (13 + n)] == t[13 + n]);
    assert(token(s, c, c + 1, ','));
    assert(token(s, c + 1, c + 3, '"'));
    assert forall|k: int| 0 <= k < 8 implies s[c + 3 + k] == "children"@[k] by {
        assert(s[i + (14 + n + k)] == t[14 + n + k]);
    }
    assert(s.subrange(c + 3, c + 11) =~= "children"@);
    assert(s[i + (22 + n)] == t[22 + n]);
    assert(s[i + (23 + n)] == t[23 + n]);
    assert(s[i + (24 + n)] == t[24 + n]);
    assert(s[i + (25 + n)] == t[25 + n]);
    lemma_simple_word(s, c + 1, c + 3, "children"@);
    assert(word(s, c + 1, c + 12, "children"@));
    assert(token(s, c + 12, c + 13, ':'));
    assert(label(s, c + 1, c + 13, "children"@));
    assert(token(s, c + 13, c + 15, '['));
}

/// Where a policy stands as it is printed, the text writes it down.
proof fn lemma_printed_writes(s: Seq<char>, i: int, policy: Policy, depth: nat, native: bool)
    requires
        crate::policy_laws::stands(s, i, printed(policy, native)),
        policy.plain(),
        policy.height() <= depth,
    ensures
        crate::policy_grammar::writes(
            s,
            i,
            i + printed(policy, native).len(),
            policy,
            depth,
            native,
        ),
    decreases policy, 0int,
{
    let j = i + printed(policy, native).len();
    match policy {
        Policy::Attribute(name) => {
            let head = attribute_head(native);
            crate::policy_laws::lemma_stands_split(s, i, head + name, "\"}"@);
            crate::policy_laws::lemma_stands_split(s, i, head, name);
            lemma_attribute_head(s, i, native);
            let (a, b, w) = choose|a: int, b: int, w: Seq<char>|
                {
                    &&& #[trigger] token(s, i, a, '{')
                    &&& #[trigger] label(s, a, b, w)
                    &&& crate::policy_grammar::attribute_label(w, native)
                    &&& token(s, b, i + head.len(), '"')
                };
            reveal_strlit("\"}");
            lemma_chars(s, i + head.len() + name.len(), "\"}"@);
            assert(s[j - 2 + 0] == "\"}"@[0]);
            assert(s[j - 2 + 1] == "\"}"@[1]);
            assert(word(s, b, j - 1, name));
            assert(token(s, j - 1, j, '}'));
        },
        Policy::All(parts) => {
            lemma_group_printed(s, i, policy, parts, true, (depth - 1) as nat, native);
        },
        Policy::Any(parts) => {
            lemma_group_printed(s, i, policy, parts, false, (depth - 1) as nat, native);
        },
    }
}

proof fn lemma_group_printed(
    s: Seq<char>,
    i: int,
    policy: Policy,
    parts: Seq<Policy>,
    all: bool,
    depth: nat,
    native: bool,
)
    requires
        all ==> policy == Policy::All(parts),
        !all ==> policy == Policy::Any(parts),
        crate::policy_laws::stands(s, i, printed(policy, native)),
        crate::policy::all_plain(parts),
        crate::policy::max_height(parts) <= depth,
    ensures
        crate::policy_grammar::writes_group(
            s,
            i,
            i + printed(policy, native).len(),
            parts,
            all,
            depth,
            native,
        ),
    decreases parts, 2int,
{
    let j = i + printed(policy, native).len();
    let head = group_head(all, native);
    let list = all_printed(parts, native);
    crate::policy_laws::lemma_stands_split(s, i, head + list, "]}"@);
    crate::policy_laws::lemma_stands_split(s, i, head, list);
    lemma_group_head(s, i, all, native);
    reveal_strlit("]}");
    lemma_chars(s, i + head.len() + list.len(), "]}"@);
    assert(s[j - 2 + 0] == "]}"@[0]);
    assert(s[j - 2 + 1] == "]}"@[1]);
    let a = i + head.len();
    let end = a + list.len();
    assert(token(s, end, j - 1, ']'));
    assert(token(s, j - 1, j, '}'));
    lemma_list_printed(s, a, parts, depth, native);
    assert(crate::policy_grammar::writes_list(s, a, j - 1, parts, depth, native));
}

/// Where the parts stand as they are printed, with a bracket behind them, the text
/// writes them down.
proof fn lemma_list_printed(s: Seq<char>, a: int, parts: Seq<Policy>, depth: nat, native: bool)
    requires
        crate::policy_laws::stands(s, a, all_printed(parts, native)),
        crate::policy::all_plain(parts),
        crate::policy::max_height(parts) <= depth,
        token(
            s,
            a + all_printed(parts, native).len(),
            a + all_printed(parts, native).len() + 1,
            ']',
        ),
    ensures
        crate::policy_grammar::writes_list(
            s,
            a,
            a + all_printed(parts, native).len() + 1,
            parts,
            depth,
            native,
        ),
    decreases parts, 1int,
{
    if parts.len() > 0 {
        let from = Seq::new(parts.len(), |k: int| part_from(parts, native, a, k));
        let to = Seq::new(parts.len(), |k: int| part_to(parts, native, a, k));
        assert forall|k: int| 0 <= k < parts.len() implies crate::policy_grammar::writes(
            s,
            from[k],
            to[k],
            #[trigger] parts[k],
            depth,
            native,
        ) by {
            lemma_part_stands(s, a, parts, k, native);
            crate::policy_laws::lemma_part_plain(parts, k);
            assert(parts.take(0) =~= Seq::<Policy>::empty());
            let at = if k == 0 {
                a
            } else {
                from[k] + 1
            };
            lemma_printed_writes(s, at, parts[k], depth, native);
            if k > 0 {
                lemma_blank_before(s, from[k], to[k], parts[k], depth, native);
            }
        }
        assert forall|k: int| 0 < k < from.len() implies token(
            s,
            to[k - 1],
            #[trigger] from[k],
            ',',
        ) by {
            lemma_part_stands(s, a, parts, k, native);
        }
        assert(crate::policy_grammar::commas(s, from, to));
        assert(crate::policy_grammar::stand_at(s, parts, from, to, depth, native));
        assert(parts.take(parts.len() as int) =~= parts);
        assert(parts.take(0) =~= Seq::<Policy>::empty());
    }
}

/// Where the `k`-th part begins, with the space before it.
spec fn part_from(parts: Seq<Policy>, native: bool, i: int, k: int) -> int {
    i + all_printed(parts.take(k), native).len() + if k == 0 {
        0int
    } else {
        1int
    }
}

/// Where the `k`-th part ends.
spec fn part_to(parts: Seq<Policy>, native: bool, i: int, k: int) -> int {
    i + all_printed(parts.take(k + 1), native).len()
}

proof fn lemma_part_stands(s: Seq<char>, i: int, parts: Seq<Policy>, k: int, native: bool)
    requires
        0 <= i,
        crate::policy_laws::stands(s, i, all_printed(parts, native)),
        0 <= k < parts.len(),
    ensures
        ({
            let from = part_from(parts, native, i, k);
            let at = if k == 0 {
                i
            } else {
                from + 1
            };
            &&& crate::policy_laws::stands(s, at, printed(parts[k], native))
            &&& at + printed(parts[k], native).len() == part_to(parts, native, i, k)
            &&& k > 0 ==> s[from] == ' ' && 0 < from && token(
                s,
                part_to(parts, native, i, k - 1),
                from,
                ',',
            )
            &&& part_to(parts, native, i, k) <= i + all_printed(parts, native).len()
        }),
    decreases parts.len(),
{
    reveal_strlit(", ");
    let last = parts.len() - 1;
    let head = all_printed(parts.drop_last(), native);
    assert(parts.take(0) =~= Seq::<Policy>::empty());
    if last > 0 {
        crate::policy_laws::lemma_stands_split(
            s,
            i,
            head + ", "@,
            printed(parts.last(), native),
        );
        crate::policy_laws::lemma_stands_split(s, i, head, ", "@);
    }
    if k == last {
        assert(parts.take(k + 1) =~= parts);
        assert(parts.take(k) =~= parts.drop_last());
        if k > 0 {
            lemma_chars(s, i + head.len(), ", "@);
            assert(s[i + head.len() + 0] == ", "@[0]);
            assert(s[i + head.len() + 1] == ", "@[1]);
        }
    } else {
        lemma_part_stands(s, i, parts.drop_last(), k, native);
        assert(parts.drop_last().take(k) =~= parts.take(k));
        assert(parts.drop_last().take(k + 1) =~= parts.take(k + 1));
        assert(parts.drop_last()[k] == parts[k]);
        if k > 0 {
            assert(parts.drop_last().take(k - 1 + 1) =~= parts.take(k - 1 + 1));
        }
    }
}

/// What is printed of a policy writes it down.
proof fn lemma_printed_is_written(policy: Policy, native: bool)
    requires
        policy.plain(),
        policy.height() <= 64,
    ensures
        crate::policy_grammar::written_in(printed(policy, native), policy, native),
{
    let s = printed(policy, native);
    assert(s.subrange(0, s.len() as int) =~= s);
    lemma_printed_writes(s, 0, policy, 64, native);
    assert(gap(s, s.len() as int, s.len() as int));
}

/// A policy that a client writes down is read as that policy: the text that writes
/// `{"AND": [.., ..]}` of the texts of some policies is read as their conjunction,
/// and the one that writes `{"OR": [.., ..]}` of them as their disjunction, whatever
/// these policies are.
pub proof fn law_client_policies_are_read_back(policy: Policy)
    requires
        policy.plain(),
        policy.height() <= 64,
    ensures
        crate::policy_text::policy_of(printed(policy, false)) == Some(policy),
{
    lemma_printed_is_written(policy, false);
    crate::policy_grammar::law_policies_are_read_as_written(printed(policy, false));
}

proof fn lemma_rendered_is_printed(policy: Policy)
    ensures
        policy.rendered() == printed(policy, true),
    decreases policy, 0int,
{
    match policy {
        Policy::Attribute(name) => {},
        Policy::All(parts) => {
            lemma_all_rendered_is_printed(parts);
        },
        Policy::Any(parts) => {
            lemma_all_rendered_is_printed(parts);
        },
    }
}

proof fn lemma_all_rendered_is_printed(parts: Seq<Policy>)
    ensures
        crate::policy::all_rendered(parts) == all_printed(parts, true),
    decreases parts, 1int,
{
    if parts.len() > 0 {
        lemma_rendered_is_printed(parts.last());
        lemma_all_rendered_is_printed(parts.drop_last());
    }
}

/// What `rabe` is given for a policy writes that policy down in the forms that it
/// knows itself.
pub proof fn law_rendered_policies_are_native(policy: Policy)
    requires
        policy.plain(),
        policy.height() <= 64,
    ensures
        crate::policy_grammar::written_in(policy.rendered(), policy, true),
{
    lemma_rendered_is_printed(policy);
    lemma_printed_is_written(policy, true);
}

} // verus!
