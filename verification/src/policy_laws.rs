//! Laws on the reading and the writing of policies.
use crate::policy::Policy;
use vstd::prelude::*;

verus! {

/// `word` stands in `s` at position `i`.
pub open spec fn stands(s: Seq<char>, i: int, word: Seq<char>) -> bool {
    0 <= i && i + word.len() <= s.len() && s.subrange(i, i + word.len()) == word
}

pub proof fn lemma_stands_index(s: Seq<char>, i: int, word: Seq<char>, k: int)
    requires
        stands(s, i, word),
        0 <= k < word.len(),
    ensures
        s[i + k] == word[k],
{
    assert(s.subrange(i, i + word.len())[k] == word[k]);
}

pub proof fn lemma_stands_split(s: Seq<char>, i: int, a: Seq<char>, b: Seq<char>)
    requires
        stands(s, i, a + b),
    ensures
        stands(s, i, a),
        stands(s, i + a.len(), b),
{
    assert((a + b).subrange(0, a.len() as int) =~= a);
    assert((a + b).subrange(a.len() as int, (a + b).len() as int) =~= b);
    assert(s.subrange(i, i + a.len()) =~= s.subrange(i, i + (a + b).len()).subrange(
        0,
        a.len() as int,
    ));
    assert(s.subrange(i + a.len(), i + a.len() + b.len()) =~= s.subrange(
        i,
        i + (a + b).len(),
    ).subrange(a.len() as int, (a + b).len() as int));
}

/// A closing quotation mark is found at the same place in a part of the text that
/// reaches to it, and the other way round.
pub proof fn lemma_closing_quote_within(s: Seq<char>, from: int, t: Seq<char>, k: int)
    requires
        stands(s, from, t),
        t.len() > 0,
        t.last() == '"',
        0 <= k < t.len(),
    ensures
        crate::policy_text::closing_quote(t, k) == Some(t.len() - 1)
            <==> crate::policy_text::closing_quote(s, from + k) == Some(from + t.len() - 1),
    decreases t.len() - k,
{
    lemma_stands_index(s, from, t, k);
    let escape = crate::policy_text::escape_length(s, from + k);
    let inner = crate::policy_text::escape_length(t, k);
    if k + 1 < t.len() {
        lemma_stands_index(s, from, t, k + 1);
        if t[k] != '"' && t[k] != '\\' {
            lemma_closing_quote_within(s, from, t, k + 1);
        }
        if t[k] == '\\' {
            if k + 5 < t.len() {
                lemma_stands_index(s, from, t, k + 2);
                lemma_stands_index(s, from, t, k + 3);
                lemma_stands_index(s, from, t, k + 4);
                lemma_stands_index(s, from, t, k + 5);
                assert(escape == inner);
            }
            if escape > 0 {
                lemma_closing_quote_up(s, from + k + escape);
            }
            if escape > 0 && k + escape < t.len() {
                assert(escape == inner);
                lemma_closing_quote_within(s, from, t, k + escape);
            }
        }
    }
}

/// A closing quotation mark stands where it was looked for or after it.
pub proof fn lemma_closing_quote_up(s: Seq<char>, i: int)
    ensures
        crate::policy_text::closing_quote(s, i) matches Some(to) ==> i <= to < s.len() && s[to]
            == '"',
    decreases s.len() - i,
{
    if 0 <= i < s.len() && s[i] != '"' {
        if s[i] != '\\' {
            lemma_closing_quote_up(s, i + 1);
        } else if crate::policy_text::escape_length(s, i) > 0 {
            lemma_closing_quote_up(s, i + crate::policy_text::escape_length(s, i));
        }
    }
}

pub proof fn lemma_closing_quote(s: Seq<char>, from: int, word: Seq<char>)
    requires
        stands(s, from, word),
        crate::policy::plain_name(word),
        from + word.len() < s.len(),
        s[from + word.len()] == '"',
    ensures
        crate::policy_text::closing_quote(s, from) == Some(from + word.len()),
{
    let t = word.push('"');
    assert(s.subrange(from, from + t.len()) =~= s.subrange(from, from + word.len()).push('"'));
    lemma_closing_quote_within(s, from, t, 0);
}

/// A word without quotation marks and backslashes is plain.
pub proof fn lemma_simple_is_plain(word: Seq<char>, k: int)
    requires
        0 <= k <= word.len(),
        forall|i: int| 0 <= i < word.len() ==> #[trigger] word[i] != '"' && word[i] != '\\',
    ensures
        crate::policy_text::closing_quote(word.push('"'), k) == Some(word.len() as int),
    decreases word.len() - k,
{
    let t = word.push('"');
    if k < word.len() {
        assert(t[k] == word[k]);
        lemma_simple_is_plain(word, k + 1);
    }
}

/// What stands before a closing quotation mark is plain.
pub proof fn lemma_literal_plain(s: Seq<char>, from: int)
    requires
        0 <= from,
        crate::policy_text::closing_quote(s, from) is Some,
    ensures
        from <= crate::policy_text::closing_quote(s, from)->0 < s.len(),
        crate::policy::plain_name(
            s.subrange(from, crate::policy_text::closing_quote(s, from)->0),
        ),
{
    lemma_closing_quote_up(s, from);
    let to = crate::policy_text::closing_quote(s, from)->0;
    let t = s.subrange(from, to).push('"');
    assert(s.subrange(from, from + t.len()) =~= t);
    lemma_closing_quote_within(s, from, t, 0);
}

proof fn lemma_past_blanks_up(s: Seq<char>, i: int)
    ensures
        i <= crate::policy_text::past_blanks(s, i),
    decreases s.len() - i,
{
    if 0 <= i < s.len() && crate::policy_text::blank(s[i]) {
        lemma_past_blanks_up(s, i + 1);
    }
}

/// A policy that is read at `i` is plain and nested no deeper than allowed.
pub proof fn lemma_node_shape(s: Seq<char>, i: int, depth: nat)
    requires
        0 <= i,
    ensures
        crate::policy_text::node(s, i, depth) matches Some((policy, end)) ==> {
            &&& policy.plain()
            &&& policy.height() <= depth
            &&& i <= end
        },
    decreases depth, 0int, s.len() - i,
{
    if depth > 0 {
        lemma_past_blanks_up(s, i);
        if let Some(i1) = crate::policy_text::after(s, i, '{') {
            lemma_key_plain(s, i1);
            if let Some((word, j)) = crate::policy_text::key(s, i1) {
                lemma_leaf_shape(s, j);
                lemma_group_shape(s, j, (depth - 1) as nat, true);
                lemma_group_shape(s, j, (depth - 1) as nat, false);
                lemma_literal_up(s, j);
                if let Some((name, k)) = crate::policy_text::literal(s, j) {
                    lemma_past_blanks_up(s, k);
                    if let Some(k1) = crate::policy_text::after(s, k, ',') {
                        lemma_key_plain(s, k1);
                    }
                    if let Some(m) = crate::policy_text::children(s, k) {
                        lemma_group_shape(s, m, (depth - 1) as nat, true);
                        lemma_group_shape(s, m, (depth - 1) as nat, false);
                    }
                }
            }
        }
    }
}

pub proof fn lemma_literal_up(s: Seq<char>, i: int)
    requires
        0 <= i,
    ensures
        crate::policy_text::literal(s, i) matches Some((word, end)) ==> {
            &&& i < end <= s.len()
            &&& crate::policy::plain_name(word)
        },
{
    lemma_past_blanks_up(s, i);
    if let Some(from) = crate::policy_text::after(s, i, '"') {
        if crate::policy_text::closing_quote(s, from) is Some {
            lemma_literal_plain(s, from);
        }
    }
}

proof fn lemma_key_plain(s: Seq<char>, i: int)
    requires
        0 <= i,
    ensures
        crate::policy_text::key(s, i) matches Some((word, end)) ==> i < end <= s.len(),
{
    lemma_literal_up(s, i);
    if let Some((word, j)) = crate::policy_text::literal(s, i) {
        lemma_past_blanks_up(s, j);
    }
}

proof fn lemma_leaf_shape(s: Seq<char>, i: int)
    requires
        0 <= i,
    ensures
        crate::policy_text::leaf(s, i) matches Some((policy, end)) ==> {
            &&& policy.plain()
            &&& policy.height() == 1
            &&& i <= end
        },
{
    lemma_literal_up(s, i);
    if let Some((word, j)) = crate::policy_text::literal(s, i) {
        lemma_past_blanks_up(s, j);
    }
}

proof fn lemma_group_shape(s: Seq<char>, i: int, depth: nat, all: bool)
    requires
        0 <= i,
    ensures
        crate::policy_text::group(s, i, depth, all) matches Some((policy, end)) ==> {
            &&& policy.plain()
            &&& policy.height() <= depth + 1
            &&& i <= end
        },
    decreases depth, 2int, s.len() - i,
{
    lemma_past_blanks_up(s, i);
    if let Some(j) = crate::policy_text::after(s, i, '[') {
        lemma_past_blanks_up(s, j);
        lemma_items_shape(s, j, depth, Seq::empty());
        if let Some(k) = crate::policy_text::after(s, j, ']') {
            lemma_past_blanks_up(s, k);
        }
        if let Some((parts, k)) = crate::policy_text::items(s, j, depth, Seq::empty()) {
            lemma_past_blanks_up(s, k);
        }
    }
}

proof fn lemma_items_shape(s: Seq<char>, i: int, depth: nat, parts: Seq<Policy>)
    requires
        0 <= i,
        crate::policy::all_plain(parts),
        crate::policy::max_height(parts) <= depth,
    ensures
        crate::policy_text::items(s, i, depth, parts) matches Some((found, end)) ==> {
            &&& crate::policy::all_plain(found)
            &&& crate::policy::max_height(found) <= depth
            &&& i <= end
        },
    decreases depth, 1int, s.len() - i,
{
    lemma_node_shape(s, i, depth);
    if let Some((part, j)) = crate::policy_text::node(s, i, depth) {
        lemma_past_blanks_up(s, j);
        assert(parts.push(part).drop_last() =~= parts);
        if let Some(k) = crate::policy_text::after(s, j, ',') {
            if i < k <= s.len() {
                lemma_items_shape(s, k, depth, parts.push(part));
            }
        }
    }
}

/// Blanks before a policy do not matter.
proof fn lemma_node_after_blank(s: Seq<char>, i: int, depth: nat)
    requires
        0 <= i < s.len(),
        crate::policy_text::blank(s[i]),
    ensures
        crate::policy_text::node(s, i, depth) == crate::policy_text::node(s, i + 1, depth),
{
    assert(crate::policy_text::past_blanks(s, i) == crate::policy_text::past_blanks(s, i + 1));
}

/// A rendered policy begins with a brace.
proof fn lemma_rendered_head(policy: Policy)
    ensures
        policy.rendered().len() > 0,
        policy.rendered()[0] == '{',
{
    reveal_strlit("{\"name\": \"");
    reveal_strlit("{\"name\": \"and\", \"children\": [");
    reveal_strlit("{\"name\": \"or\", \"children\": [");
}

proof fn lemma_all_rendered_head(parts: Seq<Policy>)
    requires
        parts.len() > 0,
    ensures
        crate::policy::all_rendered(parts).len() > 0,
        crate::policy::all_rendered(parts)[0] == '{',
    decreases parts.len(),
{
    lemma_rendered_head(parts.last());
    if parts.len() > 1 {
        lemma_all_rendered_head(parts.drop_last());
    }
}

/// The text of the first `k` parts is where the text of all of them begins, and
/// the text of the next part follows it.
proof fn lemma_part_stands(s: Seq<char>, i: int, parts: Seq<Policy>, k: int)
    requires
        stands(s, i, crate::policy::all_rendered(parts)),
        0 <= k < parts.len(),
    ensures
        ({
            let before = crate::policy::all_rendered(parts.take(k)).len();
            let at = if k == 0 {
                i
            } else {
                i + before + 2
            };
            &&& stands(s, at, parts[k].rendered())
            &&& k > 0 ==> stands(s, i + before, ", "@)
            &&& at + parts[k].rendered().len() == i + crate::policy::all_rendered(
                parts.take(k + 1),
            ).len()
            &&& at + parts[k].rendered().len() <= i + crate::policy::all_rendered(parts).len()
        }),
    decreases parts.len(),
{
    reveal_strlit(", ");
    let last = parts.len() - 1;
    if k == last {
        assert(parts.take(k + 1) =~= parts);
        assert(parts.take(k) =~= parts.drop_last());
        if k > 0 {
            let head = crate::policy::all_rendered(parts.drop_last());
            lemma_stands_split(s, i, head + ", "@, parts.last().rendered());
            lemma_stands_split(s, i, head, ", "@);
        }
    } else {
        let head = crate::policy::all_rendered(parts.drop_last());
        lemma_stands_split(s, i, head + ", "@, parts.last().rendered());
        lemma_stands_split(s, i, head, ", "@);
        lemma_part_stands(s, i, parts.drop_last(), k);
        assert(parts.drop_last().take(k) =~= parts.take(k));
        assert(parts.drop_last().take(k + 1) =~= parts.take(k + 1));
        assert(parts.drop_last()[k] == parts[k]);
    }
}

pub proof fn lemma_part_plain(parts: Seq<Policy>, k: int)
    requires
        0 <= k < parts.len(),
        crate::policy::all_plain(parts),
    ensures
        parts[k].plain(),
        parts[k].height() <= crate::policy::max_height(parts),
    decreases parts.len(),
{
    if k < parts.len() - 1 {
        lemma_part_plain(parts.drop_last(), k);
        assert(parts.drop_last()[k] == parts[k]);
    }
}

/// Where a policy stands as `rabe` writes it, that policy is read.
pub proof fn lemma_rendered_is_read(s: Seq<char>, i: int, policy: Policy, depth: nat)
    requires
        stands(s, i, policy.rendered()),
        policy.plain(),
        policy.height() <= depth,
    ensures
        crate::policy_text::node(s, i, depth) == Some((policy, i + policy.rendered().len())),
    decreases depth, 0int, 2int,
{
    match policy {
        Policy::Attribute(name) => {
            lemma_attribute_is_read(s, i, name, depth);
        },
        Policy::All(parts) => {
            lemma_group_is_read(s, i, parts, true, depth);
        },
        Policy::Any(parts) => {
            lemma_group_is_read(s, i, parts, false, depth);
        },
    }
}

/// The key `"name": ` at `i`.
proof fn lemma_name_key(s: Seq<char>, i: int)
    requires
        stands(s, i, "{\"name\": \""@),
    ensures
        crate::policy_text::after(s, i, '{') == Some(i + 1),
        crate::policy_text::key(s, i + 1) == Some(("name"@, i + 8)),
        crate::policy_text::after(s, i + 8, '"') == Some(i + 10),
{
    reveal_strlit("{\"name\": \"");
    reveal_strlit("name");
    let t = "{\"name\": \""@;
    assert forall|k: int| 0 <= k < t.len() implies s[i + k] == #[trigger] t[k] by {
        lemma_stands_index(s, i, t, k);
    }
    assert(s[i] == t[0]);
    assert(s[i + 1] == t[1]);
    assert(s[i + 2] == t[2] && s[i + 3] == t[3] && s[i + 4] == t[4] && s[i + 5] == t[5]);
    assert(s[i + 6] == t[6] && s[i + 7] == t[7] && s[i + 8] == t[8] && s[i + 9] == t[9]);
    assert(s.subrange(i + 2, i + 6) =~= "name"@);
    lemma_simple_is_plain("name"@, 0);
    lemma_closing_quote(s, i + 2, "name"@);
    reveal_with_fuel(crate::policy_text::past_blanks, 3);
}

proof fn lemma_keys_differ()
    ensures
        "name"@ != "ATT"@,
        "name"@ != "AND"@,
        "name"@ != "OR"@,
        "and"@ != "or"@,
        !crate::policy_text::and_word("or"@),
{
    reveal_strlit("name");
    reveal_strlit("ATT");
    reveal_strlit("AND");
    reveal_strlit("OR");
    reveal_strlit("and");
    reveal_strlit("or");
    reveal_strlit("&&");
    assert("name"@.len() == 4 && "ATT"@.len() == 3 && "AND"@.len() == 3 && "OR"@.len() == 2);
    assert("and"@[0] == 'a');
    assert("or"@[0] == 'o');
    assert("&&"@[0] == '&');
}

proof fn lemma_attribute_is_read(s: Seq<char>, i: int, name: Seq<char>, depth: nat)
    requires
        stands(s, i, Policy::Attribute(name).rendered()),
        crate::policy::plain_name(name),
        depth > 0,
    ensures
        crate::policy_text::node(s, i, depth) == Some(
            (Policy::Attribute(name), i + Policy::Attribute(name).rendered().len()),
        ),
{
    let head = "{\"name\": \""@;
    lemma_stands_split(s, i, head + name, "\"}"@);
    lemma_stands_split(s, i, head, name);
    lemma_name_key(s, i);
    lemma_keys_differ();
    reveal_strlit("{\"name\": \"");
    reveal_strlit("\"}");
    let from = i + 10;
    let to = from + name.len();
    lemma_stands_index(s, to, "\"}"@, 0);
    lemma_stands_index(s, to, "\"}"@, 1);
    assert(s[to] == '"' && s[to + 1] == '}');
    lemma_closing_quote(s, from, name);
    assert(crate::policy_text::literal(s, i + 8) == Some((name, to + 1)));
    assert(crate::policy_text::after(s, to + 1, '}') == Some(to + 2));
}

/// The opening of a group, up to its bracket.
proof fn lemma_group_opening(s: Seq<char>, i: int, all: bool)
    requires
        stands(
            s,
            i,
            if all {
                "{\"name\": \"and\", \"children\": ["@
            } else {
                "{\"name\": \"or\", \"children\": ["@
            },
        ),
    ensures
        ({
            let k = if all {
                i + 14
            } else {
                i + 13
            };
            &&& crate::policy_text::after(s, i, '{') == Some(i + 1)
            &&& crate::policy_text::key(s, i + 1) == Some(("name"@, i + 8))
            &&& crate::policy_text::literal(s, i + 8) == Some(
                (
                    if all {
                        "and"@
                    } else {
                        "or"@
                    },
                    k,
                ),
            )
            &&& crate::policy_text::after(s, k, '}') is None
            &&& crate::policy_text::children(s, k) == Some(k + 13)
            &&& crate::policy_text::after(s, k + 13, '[') == Some(k + 15)
        }),
{
    reveal_strlit("{\"name\": \"and\", \"children\": [");
    reveal_strlit("{\"name\": \"or\", \"children\": [");
    reveal_strlit("{\"name\": \"");
    reveal_strlit("and");
    reveal_strlit("or");
    reveal_strlit("children");
    reveal_with_fuel(crate::policy_text::past_blanks, 3);
    let word = if all {
        "and"@
    } else {
        "or"@
    };
    let t = if all {
        "{\"name\": \"and\", \"children\": ["@
    } else {
        "{\"name\": \"or\", \"children\": ["@
    };
    let k = i + 11 + word.len();
    let head = "{\"name\": \""@;
    assert(t =~= head + t.skip(10));
    lemma_stands_split(s, i, head, t.skip(10));
    lemma_name_key(s, i);
    assert forall|n: int| 0 <= n < t.len() implies s[i + n] == #[trigger] t[n] by {
        lemma_stands_index(s, i, t, n);
    }
    let w = word.len() as int;
    assert forall|n: int| 0 <= n < w implies s[i + 10 + n] == word[n] by {
        assert(s[i + (10 + n)] == t[10 + n]);
    }
    assert(s.subrange(i + 10, i + 10 + w) =~= word);
    assert(s[i + (10 + w)] == t[10 + w]);
    lemma_simple_is_plain(word, 0);
    lemma_closing_quote(s, i + 10, word);
    assert(s[i + (11 + w)] == t[11 + w]);
    assert(s[i + (12 + w)] == t[12 + w]);
    assert(s[i + (13 + w)] == t[13 + w]);
    let from = k + 3;
    assert forall|n: int| 0 <= n < 8 implies s[from + n] == "children"@[n] by {
        assert(s[i + (14 + w + n)] == t[14 + w + n]);
    }
    assert(s.subrange(from, from + 8) =~= "children"@);
    assert(s[i + (22 + w)] == t[22 + w]);
    assert(s[i + (23 + w)] == t[23 + w]);
    assert(s[i + (24 + w)] == t[24 + w]);
    assert(s[i + (25 + w)] == t[25 + w]);
    lemma_simple_is_plain("children"@, 0);
    lemma_closing_quote(s, from, "children"@);
    assert(crate::policy_text::after(s, k, ',') == Some(k + 1));
    assert(crate::policy_text::key(s, k + 1) == Some(("children"@, k + 13)));
}

/// The parts from the `k`-th on are read one after the other.
proof fn lemma_items_are_read(s: Seq<char>, i: int, parts: Seq<Policy>, k: int, depth: nat)
    requires
        stands(s, i, crate::policy::all_rendered(parts)),
        crate::policy::all_plain(parts),
        crate::policy::max_height(parts) <= depth,
        0 <= k < parts.len(),
        i + crate::policy::all_rendered(parts).len() < s.len(),
        s[i + crate::policy::all_rendered(parts).len()] == ']',
    ensures
        ({
            let at = if k == 0 {
                i
            } else {
                i + crate::policy::all_rendered(parts.take(k)).len() + 1
            };
            crate::policy_text::items(s, at, depth, parts.take(k)) == Some(
                (parts, i + crate::policy::all_rendered(parts).len() + 1),
            )
        }),
    decreases depth, 1int, parts.len() - k,
{
    reveal_strlit(", ");
    let before = crate::policy::all_rendered(parts.take(k)).len();
    let at = if k == 0 {
        i
    } else {
        i + before + 1
    };
    let start = if k == 0 {
        i
    } else {
        i + before + 2
    };
    let part = parts[k];
    lemma_part_stands(s, i, parts, k);
    lemma_part_plain(parts, k);
    lemma_rendered_is_read(s, start, part, depth);
    if k > 0 {
        lemma_stands_index(s, i + before, ", "@, 1);
        lemma_node_after_blank(s, at, depth);
    }
    let j = start + part.rendered().len();
    assert(parts.take(k).push(part) =~= parts.take(k + 1));
    if k == parts.len() - 1 {
        assert(parts.take(k + 1) =~= parts);
        assert(crate::policy_text::after(s, j, ']') == Some(j + 1));
    } else {
        lemma_part_stands(s, i, parts, k + 1);
        lemma_stands_index(s, j, ", "@, 0);
        assert(s[j] == ',');
        assert(crate::policy_text::after(s, j, ']') is None);
        assert(crate::policy_text::after(s, j, ',') == Some(j + 1));
        lemma_items_are_read(s, i, parts, k + 1, depth);
    }
}

proof fn lemma_group_is_read(s: Seq<char>, i: int, parts: Seq<Policy>, all: bool, depth: nat)
    requires
        stands(
            s,
            i,
            if all {
                Policy::All(parts).rendered()
            } else {
                Policy::Any(parts).rendered()
            },
        ),
        crate::policy::all_plain(parts),
        1 + crate::policy::max_height(parts) <= depth,
    ensures
        crate::policy_text::node(s, i, depth) == Some(
            if all {
                (Policy::All(parts), i + Policy::All(parts).rendered().len())
            } else {
                (Policy::Any(parts), i + Policy::Any(parts).rendered().len())
            },
        ),
    decreases depth, 0int, 1int,
{
    let head = if all {
        "{\"name\": \"and\", \"children\": ["@
    } else {
        "{\"name\": \"or\", \"children\": ["@
    };
    let list = crate::policy::all_rendered(parts);
    lemma_stands_split(s, i, head + list, "]}"@);
    lemma_stands_split(s, i, head, list);
    lemma_group_opening(s, i, all);
    lemma_keys_differ();
    reveal_strlit("{\"name\": \"and\", \"children\": [");
    reveal_strlit("{\"name\": \"or\", \"children\": [");
    reveal_strlit("]}");
    let from = i + head.len();
    let end = from + list.len();
    lemma_stands_index(s, end, "]}"@, 0);
    lemma_stands_index(s, end, "]}"@, 1);
    assert(s[end] == ']' && s[end + 1] == '}');
    let lower = (depth - 1) as nat;
    let m = from - 2;
    if parts.len() == 0 {
        assert(crate::policy_text::after(s, from, ']') == Some(end + 1));
        assert(parts =~= Seq::empty());
    } else {
        lemma_all_rendered_head(parts);
        lemma_stands_index(s, from, list, 0);
        assert(crate::policy_text::after(s, from, ']') is None);
        lemma_items_are_read(s, from, parts, 0, lower);
        assert(parts.take(0) =~= Seq::empty());
    }
    assert(crate::policy_text::after(s, end + 1, '}') == Some(end + 2));
    assert(crate::policy_text::group(s, m, lower, all) == Some(
        if all {
            (Policy::All(parts), end + 2)
        } else {
            (Policy::Any(parts), end + 2)
        },
    ));
}

/// What the reader makes of a text it also makes of the same policy as `rabe`
/// writes it.
pub proof fn law_rendering_keeps_the_policy(text: Seq<char>)
    ensures
        crate::policy_text::policy_of(text) matches Some(policy)
            ==> crate::policy_text::policy_of(policy.rendered()) == Some(policy),
{
    if let Some(policy) = crate::policy_text::policy_of(text) {
        let s = policy.rendered();
        let depth = crate::policy_text::MAX_HEIGHT as nat;
        lemma_node_shape(text, 0, depth);
        assert(s.subrange(0, s.len() as int) =~= s);
        lemma_rendered_is_read(s, 0, policy, depth);
    }
}

/// Where looking for attributes does not get stuck, attributes are found exactly
/// where those that are held meet the policy.
pub proof fn law_attributes_are_found_where_the_policy_is_met(
    policy: Policy,
    held: Seq<Seq<char>>,
)
    ensures
        policy.visit(held) is Found ==> policy.met_by(held),
        policy.visit(held) is Missing ==> !policy.met_by(held),
    decreases policy,
{
    match policy {
        Policy::Attribute(name) => {},
        Policy::All(parts) => {
            lemma_all_visited(parts, held);
        },
        Policy::Any(parts) => {
            lemma_any_visited(parts, held);
        },
    }
}

proof fn lemma_all_visited(parts: Seq<Policy>, held: Seq<Seq<char>>)
    ensures
        crate::policy::all_visited(parts, held) is Found ==> crate::policy::all_met(parts, held),
        crate::policy::all_visited(parts, held) is Missing ==> !crate::policy::all_met(parts, held),
        crate::policy::all_visited(parts, held) is Found && parts.len() > 0
            ==> held.len() > 0,
    decreases parts,
{
    if parts.len() > 0 {
        lemma_all_visited(parts.drop_last(), held);
        law_attributes_are_found_where_the_policy_is_met(parts.last(), held);
    }
}

proof fn lemma_any_visited(parts: Seq<Policy>, held: Seq<Seq<char>>)
    ensures
        crate::policy::any_visited(parts, held) is Found ==> crate::policy::some_met(parts, held)
            && held.len() > 0,
        crate::policy::any_visited(parts, held) is Missing ==> !crate::policy::some_met(
            parts,
            held,
        ),
    decreases parts,
{
    if parts.len() > 0 {
        lemma_any_visited(parts.drop_last(), held);
        law_attributes_are_found_where_the_policy_is_met(parts.last(), held);
    }
}

/// Looking for attributes never gets stuck in a policy whose conjunctions and
/// disjunctions all have at least two parts.
pub proof fn law_branching_policies_do_not_get_stuck(policy: Policy, held: Seq<Seq<char>>)
    requires
        policy.branching(),
    ensures
        !(policy.visit(held) is Stuck),
    decreases policy,
{
    match policy {
        Policy::Attribute(name) => {},
        Policy::All(parts) => {
            lemma_branching_parts(parts, held);
        },
        Policy::Any(parts) => {
            lemma_branching_parts(parts, held);
        },
    }
}

proof fn lemma_branching_parts(parts: Seq<Policy>, held: Seq<Seq<char>>)
    requires
        crate::policy::all_branching(parts),
    ensures
        !(crate::policy::all_visited(parts, held) is Stuck),
        !(crate::policy::any_visited(parts, held) is Stuck),
    decreases parts,
{
    if parts.len() > 0 {
        lemma_branching_parts(parts.drop_last(), held);
        law_branching_policies_do_not_get_stuck(parts.last(), held);
    }
}

} // verus!
