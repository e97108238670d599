//! What policies mean: who meets them, what is looked for in them, and how they
//! come out of the reader.
use crate::policy::{Policy, Visit};
use crate::policy_text::{read_policy, Reading, Visited};
use vstd::prelude::*;

verus! {

proof fn lemma_all_met(parts: Seq<Policy>, held: Seq<Seq<char>>)
    ensures
        crate::policy::all_met(parts, held) <==> forall|i: int|
            0 <= i < parts.len() ==> (#[trigger] parts[i]).met_by(held),
    decreases parts.len(),
{
    if parts.len() > 0 {
        let rest = parts.drop_last();
        lemma_all_met(rest, held);
        if crate::policy::all_met(parts, held) {
            assert forall|i: int| 0 <= i < parts.len() implies (#[trigger] parts[i]).met_by(
                held,
            ) by {
                if i < rest.len() {
                    assert(rest[i] == parts[i]);
                }
            }
        } else if forall|i: int| 0 <= i < parts.len() ==> (#[trigger] parts[i]).met_by(held) {
            assert forall|i: int| 0 <= i < rest.len() implies (#[trigger] rest[i]).met_by(
                held,
            ) by {
                assert(rest[i] == parts[i]);
            }
        }
    }
}

proof fn lemma_some_met(parts: Seq<Policy>, held: Seq<Seq<char>>)
    ensures
        crate::policy::some_met(parts, held) <==> exists|i: int|
            0 <= i < parts.len() && (#[trigger] parts[i]).met_by(held),
    decreases parts.len(),
{
    if parts.len() > 0 {
        let rest = parts.drop_last();
        lemma_some_met(rest, held);
        if crate::policy::some_met(rest, held) {
            let i = choose|i: int| 0 <= i < rest.len() && (#[trigger] rest[i]).met_by(held);
            assert(parts[i].met_by(held));
        }
        if exists|i: int| 0 <= i < parts.len() && (#[trigger] parts[i]).met_by(held) {
            let i = choose|i: int| 0 <= i < parts.len() && (#[trigger] parts[i]).met_by(held);
            if i < rest.len() {
                assert(rest[i].met_by(held));
            }
        }
    }
}

/// An attribute is met by who holds it, a conjunction by who holds anything and
/// meets every part, a disjunction by who meets some part.
pub proof fn law_who_meets_a_policy(held: Seq<Seq<char>>, name: Seq<char>, parts: Seq<Policy>)
    ensures
        Policy::Attribute(name).met_by(held) <==> held.contains(name),
        Policy::All(parts).met_by(held) <==> held.len() > 0 && forall|i: int|
            0 <= i < parts.len() ==> (#[trigger] parts[i]).met_by(held),
        Policy::Any(parts).met_by(held) <==> exists|i: int|
            0 <= i < parts.len() && (#[trigger] parts[i]).met_by(held),
{
    lemma_all_met(parts, held);
    lemma_some_met(parts, held);
    if parts.len() > 0 && held.len() == 0 {
        assert forall|i: int| 0 <= i < parts.len() implies !(#[trigger] parts[i]).met_by(held) by {
        }
    }
}

/// Who holds more attributes meets every policy that who holds fewer meets.
pub proof fn law_more_attributes_meet_more(
    policy: Policy,
    held: Seq<Seq<char>>,
    more: Seq<Seq<char>>,
)
    requires
        forall|name: Seq<char>| #[trigger] held.contains(name) ==> more.contains(name),
        policy.met_by(held),
    ensures
        policy.met_by(more),
    decreases policy,
{
    assert(held.contains(held[0]));
    match policy {
        Policy::Attribute(name) => {},
        Policy::All(parts) => {
            lemma_all_met(parts, held);
            lemma_all_met(parts, more);
            assert forall|i: int| 0 <= i < parts.len() implies (#[trigger] parts[i]).met_by(
                more,
            ) by {
                law_more_attributes_meet_more(parts[i], held, more);
            }
        },
        Policy::Any(parts) => {
            lemma_some_met(parts, held);
            lemma_some_met(parts, more);
            let i = choose|i: int| 0 <= i < parts.len() && (#[trigger] parts[i]).met_by(held);
            law_more_attributes_meet_more(parts[i], held, more);
            assert(parts[i].met_by(more));
        },
    }
}

/// The names that were found in each of the parts, one after the other.
pub open spec fn found_in(parts: Seq<Policy>, held: Seq<Seq<char>>) -> Seq<Seq<char>>
    decreases parts.len(),
{
    if parts.len() == 0 {
        Seq::empty()
    } else {
        found_in(parts.drop_last(), held) + match parts.last().visit(held) {
            Visit::Found(names) => names,
            _ => Seq::empty(),
        }
    }
}

proof fn lemma_all_visited(parts: Seq<Policy>, held: Seq<Seq<char>>)
    ensures
        crate::policy::all_visited(parts, held) is Stuck <==> exists|i: int|
            0 <= i < parts.len() && (#[trigger] parts[i]).visit(held) is Stuck,
        crate::policy::all_visited(parts, held) is Found <==> forall|i: int|
            0 <= i < parts.len() ==> (#[trigger] parts[i]).visit(held) is Found,
        crate::policy::all_visited(parts, held) matches Visit::Found(names) ==> names == found_in(
            parts,
            held,
        ),
    decreases parts.len(),
{
    if parts.len() > 0 {
        let rest = parts.drop_last();
        lemma_all_visited(rest, held);
        assert forall|i: int| 0 <= i < rest.len() implies rest[i] == #[trigger] parts[i] by {}
        if crate::policy::all_visited(rest, held) is Stuck {
            let i = choose|i: int| 0 <= i < rest.len() && (#[trigger] rest[i]).visit(held) is Stuck;
            assert(parts[i].visit(held) is Stuck);
        }
        if crate::policy::all_visited(parts, held) is Found {
            assert forall|i: int| 0 <= i < parts.len() implies (#[trigger] parts[i]).visit(
                held,
            ) is Found by {
                if i < rest.len() {
                    assert(rest[i] == parts[i]);
                }
            }
        }
        if forall|i: int| 0 <= i < parts.len() ==> (#[trigger] parts[i]).visit(held) is Found {
            assert forall|i: int| 0 <= i < rest.len() implies (#[trigger] rest[i]).visit(
                held,
            ) is Found by {
                assert(rest[i] == parts[i]);
            }
        }
        if exists|i: int| 0 <= i < parts.len() && (#[trigger] parts[i]).visit(held) is Stuck {
            let i = choose|i: int|
                0 <= i < parts.len() && (#[trigger] parts[i]).visit(held) is Stuck;
            if i < rest.len() {
                assert(rest[i].visit(held) is Stuck);
            }
        }
    }
}

proof fn lemma_any_visited(parts: Seq<Policy>, held: Seq<Seq<char>>, k: int)
    requires
        0 <= k <= parts.len(),
        forall|i: int| 0 <= i < k ==> (#[trigger] parts[i]).visit(held) is Missing,
        k < parts.len() ==> !(parts[k].visit(held) is Missing),
    ensures
        crate::policy::any_visited(parts, held) == if k < parts.len() {
            parts[k].visit(held)
        } else {
            Visit::Missing
        },
    decreases parts.len(),
{
    if parts.len() > 0 {
        let rest = parts.drop_last();
        assert forall|i: int| 0 <= i < rest.len() implies rest[i] == #[trigger] parts[i] by {}
        if k < rest.len() {
            assert(rest[k] == parts[k]);
            lemma_any_visited(rest, held, k);
        } else {
            lemma_any_visited(rest, held, rest.len() as int);
            assert(k == rest.len() ==> parts.last() == parts[k]);
            if k == parts.len() {
                assert(parts[parts.len() - 1].visit(held) is Missing);
            }
        }
    }
}

/// Looking for attributes: an attribute is found where it is held. In a group of
/// fewer than two parts the search gets stuck. In a conjunction all parts are
/// searched, and what is found in all of them is used. In a disjunction the first
/// part that is not missing decides.
pub proof fn law_what_is_looked_for(
    held: Seq<Seq<char>>,
    name: Seq<char>,
    parts: Seq<Policy>,
    k: int,
)
    ensures
        Policy::Attribute(name).visit(held) == if held.contains(name) {
            Visit::Found(seq![name])
        } else {
            Visit::Missing
        },
        parts.len() < 2 ==> Policy::All(parts).visit(held) is Stuck,
        parts.len() < 2 ==> Policy::Any(parts).visit(held) is Stuck,
        parts.len() >= 2 ==> {
            &&& Policy::All(parts).visit(held) is Stuck <==> exists|i: int|
                0 <= i < parts.len() && (#[trigger] parts[i]).visit(held) is Stuck
            &&& Policy::All(parts).visit(held) is Found <==> forall|i: int|
                0 <= i < parts.len() ==> (#[trigger] parts[i]).visit(held) is Found
            &&& Policy::All(parts).visit(held) matches Visit::Found(names) ==> names == found_in(
                parts,
                held,
            )
        },
        parts.len() >= 2 && 0 <= k < parts.len() && !(parts[k].visit(held) is Missing) && (forall|
            i: int,
        |
            0 <= i < k ==> (#[trigger] parts[i]).visit(held) is Missing) ==> Policy::Any(
            parts,
        ).visit(held) == parts[k].visit(held),
        parts.len() >= 2 && (forall|i: int|
            0 <= i < parts.len() ==> (#[trigger] parts[i]).visit(held) is Missing) ==> Policy::Any(
            parts,
        ).visit(held) is Missing,
{
    lemma_all_visited(parts, held);
    if parts.len() >= 2 && 0 <= k < parts.len() && !(parts[k].visit(held) is Missing) && (forall|
        i: int,
    |
        0 <= i < k ==> (#[trigger] parts[i]).visit(held) is Missing) {
        lemma_any_visited(parts, held, k);
    }
    if forall|i: int| 0 <= i < parts.len() ==> (#[trigger] parts[i]).visit(held) is Missing {
        lemma_any_visited(parts, held, parts.len() as int);
    }
}

proof fn lemma_found_is_held(policy: Policy, held: Seq<Seq<char>>, name: Seq<char>)
    requires
        policy.visit(held) matches Visit::Found(names) && names.contains(name),
    ensures
        held.contains(name),
    decreases policy, 0int,
{
    match policy {
        Policy::Attribute(_) => {},
        Policy::All(parts) => {
            lemma_all_found_is_held(parts, held, name);
        },
        Policy::Any(parts) => {
            lemma_any_found_is_held(parts, held, name);
        },
    }
}

proof fn lemma_all_found_is_held(parts: Seq<Policy>, held: Seq<Seq<char>>, name: Seq<char>)
    requires
        crate::policy::all_visited(parts, held) matches Visit::Found(names) && names.contains(name),
    ensures
        held.contains(name),
    decreases parts, 1int,
{
    if parts.len() > 0 {
        let first = crate::policy::all_visited(parts.drop_last(), held)->Found_0;
        let last = parts.last().visit(held)->Found_0;
        let i = (first + last).index_of(name);
        if i < first.len() {
            assert(first[i] == name);
            lemma_all_found_is_held(parts.drop_last(), held, name);
        } else {
            assert(last[i - first.len()] == name);
            lemma_found_is_held(parts.last(), held, name);
        }
    }
}

proof fn lemma_any_found_is_held(parts: Seq<Policy>, held: Seq<Seq<char>>, name: Seq<char>)
    requires
        crate::policy::any_visited(parts, held) matches Visit::Found(names) && names.contains(name),
    ensures
        held.contains(name),
    decreases parts, 1int,
{
    if parts.len() > 0 {
        if crate::policy::any_visited(parts.drop_last(), held) is Missing {
            lemma_found_is_held(parts.last(), held, name);
        } else {
            lemma_any_found_is_held(parts.drop_last(), held, name);
        }
    }
}

/// Only attributes that are held are found.
pub proof fn law_found_attributes_are_held(policy: Policy, held: Seq<Seq<char>>)
    ensures
        policy.visit(held) matches Visit::Found(names) ==> forall|i: int|
            0 <= i < names.len() ==> held.contains(#[trigger] names[i]),
{
    if let Visit::Found(names) = policy.visit(held) {
        assert forall|i: int| 0 <= i < names.len() implies held.contains(#[trigger] names[i]) by {
            lemma_found_is_held(policy, held, names[i]);
        }
    }
}

proof fn lemma_parts(parts: Seq<Policy>)
    ensures
        crate::policy::all_branching(parts) <==> forall|i: int|
            0 <= i < parts.len() ==> (#[trigger] parts[i]).branching(),
        crate::policy::all_plain(parts) <==> forall|i: int|
            0 <= i < parts.len() ==> (#[trigger] parts[i]).plain(),
        forall|i: int|
            0 <= i < parts.len() ==> (#[trigger] parts[i]).height() <= crate::policy::max_height(
                parts,
            ),
        parts.len() > 0 ==> exists|i: int|
            0 <= i < parts.len() && (#[trigger] parts[i]).height() == crate::policy::max_height(
                parts,
            ),
        parts.len() == 0 ==> crate::policy::max_height(parts) == 0,
    decreases parts.len(),
{
    if parts.len() > 0 {
        let rest = parts.drop_last();
        lemma_parts(rest);
        let n = parts.len() - 1;
        assert(parts[n] == parts.last());
        assert forall|i: int| 0 <= i < rest.len() implies rest[i] == #[trigger] parts[i] by {}
        if forall|i: int| 0 <= i < parts.len() ==> (#[trigger] parts[i]).branching() {
            assert forall|i: int| 0 <= i < rest.len() implies (#[trigger] rest[i]).branching() by {
                assert(parts[i].branching());
            }
        }
        if forall|i: int| 0 <= i < parts.len() ==> (#[trigger] parts[i]).plain() {
            assert forall|i: int| 0 <= i < rest.len() implies (#[trigger] rest[i]).plain() by {
                assert(parts[i].plain());
            }
        }
        assert forall|i: int| 0 <= i < parts.len() implies (#[trigger] parts[i]).height()
            <= crate::policy::max_height(parts) by {
            if i < n {
                assert(rest[i].height() <= crate::policy::max_height(rest));
            }
        }
        if rest.len() > 0 {
            let i = choose|i: int|
                0 <= i < rest.len() && (#[trigger] rest[i]).height() == crate::policy::max_height(
                    rest,
                );
            assert(parts[i].height() == crate::policy::max_height(rest));
        }
    }
}

/// The policy is a conjunction or a disjunction of these parts.
pub open spec fn groups(policy: Policy, parts: Seq<Policy>) -> bool {
    policy == Policy::All(parts) || policy == Policy::Any(parts)
}

/// What holds of a group by its parts: it branches where it has at least two parts
/// and all of them branch; its names can be written as they stand where those of
/// all its parts can; it names what its parts name; and it is nested one deeper
/// than the deepest of them.
pub proof fn law_groups_and_their_parts(policy: Policy, parts: Seq<Policy>)
    requires
        groups(policy, parts),
    ensures
        policy.branching() <==> parts.len() >= 2 && forall|i: int|
            0 <= i < parts.len() ==> (#[trigger] parts[i]).branching(),
        policy.plain() <==> forall|i: int|
            0 <= i < parts.len() ==> (#[trigger] parts[i]).plain(),
        forall|i: int|
            0 <= i < parts.len() ==> (#[trigger] parts[i]).height() + 1 <= policy.height(),
        parts.len() > 0 ==> exists|i: int|
            0 <= i < parts.len() && (#[trigger] parts[i]).height() + 1 == policy.height(),
        parts.len() == 0 ==> policy.height() == 1,
{
    lemma_parts(parts);
    if parts.len() > 0 {
        let i = choose|i: int|
            0 <= i < parts.len() && (#[trigger] parts[i]).height() == crate::policy::max_height(
                parts,
            );
        assert(parts[i].height() + 1 == policy.height());
    }
}

/// A group names what its parts name, in their order: one more part adds its names,
/// and a group of no parts names nothing.
pub proof fn law_names_of_groups(parts: Seq<Policy>, part: Policy)
    ensures
        Policy::All(Seq::empty()).names() == Seq::<Seq<char>>::empty(),
        Policy::Any(Seq::empty()).names() == Seq::<Seq<char>>::empty(),
        Policy::All(parts.push(part)).names() == Policy::All(parts).names() + part.names(),
        Policy::Any(parts.push(part)).names() == Policy::Any(parts).names() + part.names(),
{
    assert(parts.push(part).drop_last() =~= parts);
}

/// What holds of a single attribute.
pub proof fn law_single_attributes(name: Seq<char>)
    ensures
        Policy::Attribute(name).branching(),
        Policy::Attribute(name).plain() <==> crate::policy::plain_name(name),
        Policy::Attribute(name).names() == seq![name],
        Policy::Attribute(name).height() == 1,
{
}

/// A name can be written between quotation marks as it stands where it is empty, or
/// where a name that can be follows on one character other than a quotation mark
/// and a backslash, or on one escape sequence.
pub proof fn law_plain_names(name: Seq<char>)
    ensures
        name.len() == 0 ==> crate::policy::plain_name(name),
        name.len() > 0 ==> (crate::policy::plain_name(name) <==> {
            ||| name[0] != '"' && name[0] != '\\' && crate::policy::plain_name(name.skip(1))
            ||| {
                &&& name.len() >= 2
                &&& name[0] == '\\'
                &&& name[1] == '"' || name[1] == '\\' || name[1] == '/' || name[1] == 'b'
                    || name[1] == 'f' || name[1] == 'n' || name[1] == 'r' || name[1] == 't'
                &&& crate::policy::plain_name(name.skip(2))
            }
            ||| {
                &&& name.len() >= 6
                &&& name[0] == '\\'
                &&& name[1] == 'u'
                &&& forall|i: int|
                    2 <= i < 6 ==> ('0' <= #[trigger] name[i] <= '9' || 'a' <= name[i] <= 'f'
                        || 'A' <= name[i] <= 'F')
                &&& crate::policy::plain_name(name.skip(6))
            }
        }),
{
    let s = name.push('"');
    if name.len() > 0 {
        lemma_plain_from(name, 1);
        if name.len() >= 2 {
            assert(s[1] == name[1]);
            lemma_plain_from(name, 2);
        }
        if name.len() >= 6 {
            assert(s[2] == name[2] && s[3] == name[3] && s[4] == name[4] && s[5] == name[5]);
            lemma_plain_from(name, 6);
        }
        assert(s[0] == name[0]);
        if name.len() < 6 {
            assert(s.len() <= 5 || s[5] == '"');
        }
    }
}

proof fn lemma_plain_from(name: Seq<char>, k: int)
    requires
        0 <= k <= name.len(),
    ensures
        crate::policy::plain_name(name.skip(k)) <==> crate::policy_text::closing_quote(
            name.push('"'),
            k,
        ) == Some(name.len() as int),
{
    let s = name.push('"');
    let t = name.skip(k).push('"');
    assert(s.subrange(k, k + t.len()) =~= t);
    crate::policy_laws::lemma_closing_quote_within(s, k, t, 0);
}

/// The reader gives, of the policy that a text writes down, a text that writes it
/// down for `rabe`, whether the attributes that are held meet it, and what is
/// looked for. It gives nothing of a text that writes no policy down.
pub proof fn law_reader(text: &str, held: &Vec<String>, found: Option<Reading>, policy: Policy)
    requires
        call_ensures(read_policy, (text, held), found),
    ensures
        crate::policy_grammar::written_in(text@, policy, false) ==> {
            &&& found matches Some(r)
            &&& crate::policy_grammar::written_in(r.text@, policy, true)
            &&& r.met == policy.met_by(held.deep_view())
            &&& match policy.visit(held.deep_view()) {
                Visit::Stuck => r.visited is Stuck,
                Visit::Missing => r.visited is Missing,
                Visit::Found(names) => r.visited matches Visited::Found(found_names)
                    && found_names.deep_view() == names,
            }
        },
        found is Some ==> exists|p: Policy| #[trigger]
            crate::policy_grammar::written_in(text@, p, false),
{
    crate::policy_grammar::law_policies_are_read_as_written(text@);
    if let Some(p) = crate::policy_text::policy_of(text@) {
        crate::policy_laws::lemma_node_shape(text@, 0, 64);
        crate::policy_printing::law_rendered_policies_are_native(p);
        assert(crate::policy_grammar::written_in(text@, p, false));
    }
}

} // verus!
