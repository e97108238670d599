//! Access policies: who may open a ciphertext.
use vstd::prelude::*;

verus! {

/// A policy over attribute names: one attribute, or all or any of several
/// smaller policies.
pub enum Policy {
    Attribute(Seq<char>),
    All(Seq<Policy>),
    Any(Seq<Policy>),
}

/// What looking for attributes in a policy comes to: a conjunction or disjunction
/// of fewer than two parts, on which `rabe` panics; no attributes that meet the
/// policy; or attributes that do.
pub enum Visit {
    Stuck,
    Missing,
    Found(Seq<Seq<char>>),
}

/// What two visits come to where both parts must be met. All parts are visited.
pub open spec fn both(a: Visit, b: Visit) -> Visit {
    match (a, b) {
        (Visit::Stuck, _) => Visit::Stuck,
        (_, Visit::Stuck) => Visit::Stuck,
        (Visit::Found(x), Visit::Found(y)) => Visit::Found(x + y),
        _ => Visit::Missing,
    }
}

/// What two visits come to where one part must be met. The second part is visited
/// only where the first is not met.
pub open spec fn either(a: Visit, b: Visit) -> Visit {
    match a {
        Visit::Missing => b,
        _ => a,
    }
}

impl Policy {
    /// A holder of `attributes` meets the policy. A holder of nothing meets none.
    pub open spec fn met_by(self, attributes: Seq<Seq<char>>) -> bool
        decreases self,
    {
        &&& attributes.len() > 0
        &&& match self {
            Policy::Attribute(name) => attributes.contains(name),
            Policy::All(parts) => all_met(parts, attributes),
            Policy::Any(parts) => some_met(parts, attributes),
        }
    }

    /// What `rabe` comes to when it looks for the attributes to open a ciphertext
    /// with, for a holder of `held`.
    pub open spec fn visit(self, held: Seq<Seq<char>>) -> Visit
        decreases self,
    {
        match self {
            Policy::Attribute(name) => if held.contains(name) {
                Visit::Found(seq![name])
            } else {
                Visit::Missing
            },
            Policy::All(parts) => if parts.len() < 2 {
                Visit::Stuck
            } else {
                all_visited(parts, held)
            },
            Policy::Any(parts) => if parts.len() < 2 {
                Visit::Stuck
            } else {
                any_visited(parts, held)
            },
        }
    }

    /// Every conjunction and disjunction has at least two parts.
    pub open spec fn branching(self) -> bool
        decreases self,
    {
        match self {
            Policy::Attribute(_) => true,
            Policy::All(parts) => parts.len() >= 2 && all_branching(parts),
            Policy::Any(parts) => parts.len() >= 2 && all_branching(parts),
        }
    }

    /// The attribute names of the policy, from left to right.
    pub open spec fn names(self) -> Seq<Seq<char>>
        decreases self,
    {
        match self {
            Policy::Attribute(name) => seq![name],
            Policy::All(parts) => all_names(parts),
            Policy::Any(parts) => all_names(parts),
        }
    }

    /// The number of policies nested in one another, the policy itself counted.
    pub open spec fn height(self) -> nat
        decreases self,
    {
        match self {
            Policy::Attribute(_) => 1,
            Policy::All(parts) => 1 + max_height(parts),
            Policy::Any(parts) => 1 + max_height(parts),
        }
    }

    /// The policy in the JSON policy language of `rabe`.
    pub open spec fn rendered(self) -> Seq<char>
        decreases self,
    {
        match self {
            Policy::Attribute(name) => "{\"name\": \""@ + name + "\"}"@,
            Policy::All(parts) => "{\"name\": \"and\", \"children\": ["@ + all_rendered(parts)
                + "]}"@,
            Policy::Any(parts) => "{\"name\": \"or\", \"children\": ["@ + all_rendered(parts)
                + "]}"@,
        }
    }

    /// Every attribute name can be written between quotation marks as it stands.
    pub open spec fn plain(self) -> bool
        decreases self,
    {
        match self {
            Policy::Attribute(name) => plain_name(name),
            Policy::All(parts) => all_plain(parts),
            Policy::Any(parts) => all_plain(parts),
        }
    }
}

/// The name can be written between quotation marks as it stands: a quotation mark
/// after it is the one that closes it.
pub open spec fn plain_name(name: Seq<char>) -> bool {
    crate::policy_text::closing_quote(name.push('"'), 0) == Some(name.len() as int)
}

pub open spec fn all_met(parts: Seq<Policy>, attributes: Seq<Seq<char>>) -> bool
    decreases parts,
{
    parts.len() == 0 || (all_met(parts.drop_last(), attributes) && parts.last().met_by(attributes))
}

pub open spec fn some_met(parts: Seq<Policy>, attributes: Seq<Seq<char>>) -> bool
    decreases parts,
{
    parts.len() > 0 && (some_met(parts.drop_last(), attributes) || parts.last().met_by(attributes))
}

pub open spec fn all_visited(parts: Seq<Policy>, held: Seq<Seq<char>>) -> Visit
    decreases parts,
{
    if parts.len() == 0 {
        Visit::Found(Seq::empty())
    } else {
        both(all_visited(parts.drop_last(), held), parts.last().visit(held))
    }
}

pub open spec fn any_visited(parts: Seq<Policy>, held: Seq<Seq<char>>) -> Visit
    decreases parts,
{
    if parts.len() == 0 {
        Visit::Missing
    } else {
        either(any_visited(parts.drop_last(), held), parts.last().visit(held))
    }
}

pub open spec fn all_branching(parts: Seq<Policy>) -> bool
    decreases parts,
{
    parts.len() == 0 || (all_branching(parts.drop_last()) && parts.last().branching())
}

pub open spec fn all_plain(parts: Seq<Policy>) -> bool
    decreases parts,
{
    parts.len() == 0 || (all_plain(parts.drop_last()) && parts.last().plain())
}

pub open spec fn all_names(parts: Seq<Policy>) -> Seq<Seq<char>>
    decreases parts,
{
    if parts.len() == 0 {
        Seq::empty()
    } else {
        all_names(parts.drop_last()) + parts.last().names()
    }
}

pub open spec fn max_height(parts: Seq<Policy>) -> nat
    decreases parts,
{
    if parts.len() == 0 {
        0
    } else if max_height(parts.drop_last()) < parts.last().height() {
        parts.last().height()
    } else {
        max_height(parts.drop_last())
    }
}

/// The parts rendered one after the other, with a comma and a space between.
pub open spec fn all_rendered(parts: Seq<Policy>) -> Seq<char>
    decreases parts,
{
    if parts.len() == 0 {
        Seq::empty()
    } else if parts.len() == 1 {
        parts.last().rendered()
    } else {
        all_rendered(parts.drop_last()) + ", "@ + parts.last().rendered()
    }
}

} // verus!
