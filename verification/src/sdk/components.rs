//! Which components of an SDK release are wanted or installed.

use crate::ordered::StringSet;
use crate::text::{equal, texts};
use vstd::prelude::*;

verus! {

/// The components a release of the SDK ships. hvigor refuses to build unless all of them are present;
/// building native code only needs `native`.
pub const COMPONENTS: [&'static str; 5] = ["ets", "js", "native", "previewer", "toolchains"];

/// The value that asks for every component the release ships.
pub const ALL_COMPONENTS: &'static str = "all";

/// Which SDK components to install.
#[derive(Debug, PartialEq, Eq)]
pub enum Components {
    All,
    Only(StringSet),
}

impl View for Components {
    type V = Option<Set<Seq<char>>>;

    /// The names, or none if every component is meant.
    open spec fn view(&self) -> Option<Set<Seq<char>>> {
        match self {
            Components::All => None,
            Components::Only(names) => Some(names@),
        }
    }
}

/// Whether the component `name` is meant.
pub open spec fn wants(components: Option<Set<Seq<char>>>, name: Seq<char>) -> bool {
    components matches Some(names) ==> names.contains(name)
}

/// The components named: all of them if one of the names says so.
pub open spec fn components_named(names: Seq<Seq<char>>) -> Option<Set<Seq<char>>> {
    if names.contains("all"@) {
        None
    } else {
        Some(names.to_set())
    }
}

/// Whether `have` is known to include every component `asked` asks for. Some named components never
/// amount to all of them.
pub open spec fn covers_all(have: Option<Set<Seq<char>>>, asked: Option<Set<Seq<char>>>) -> bool {
    match (have, asked) {
        (None, _) => true,
        (Some(_), None) => false,
        (Some(names), Some(wanted)) => wanted.subset_of(names),
    }
}

/// The components of both.
pub open spec fn union_of(a: Option<Set<Seq<char>>>, b: Option<Set<Seq<char>>>) -> Option<
    Set<Seq<char>>,
> {
    match (a, b) {
        (Some(names), Some(more)) => Some(names.union(more)),
        _ => None,
    }
}

impl Components {
    pub fn new(names: Vec<String>) -> (res: Self)
        ensures
            res@ == components_named(texts(names@)),
    {
        let mut i: usize = 0;
        while i < names.len()
            invariant
                i <= names.len(),
                forall|k: int| 0 <= k < i ==> #[trigger] texts(names@)[k] != "all"@,
            decreases names.len() - i,
        {
            if equal(names[i].as_str(), ALL_COMPONENTS) {
                proof {
                    assert(texts(names@)[i as int] == "all"@);
                }
                return Components::All;
            }
            i += 1;
        }
        Components::Only(StringSet::from_vec(names))
    }

    pub fn includes(&self, name: &str) -> (res: bool)
        ensures
            res == wants(self@, name@),
    {
        match self {
            Components::All => true,
            Components::Only(names) => names.contains(name),
        }
    }

    /// Whether these components include every one `other` asks for.
    pub fn covers(&self, other: &Self) -> (res: bool)
        ensures
            res == covers_all(self@, other@),
    {
        match (self, other) {
            (Components::All, _) => true,
            (Components::Only(_), Components::All) => false,
            (Components::Only(names), Components::Only(wanted)) => wanted.is_subset(names),
        }
    }

    pub fn union(&self, other: &Self) -> (res: Self)
        ensures
            res@ == union_of(self@, other@),
    {
        match (self, other) {
            (Components::Only(names), Components::Only(more)) => Components::Only(names.union(more)),
            _ => Components::All,
        }
    }
}

impl Clone for Components {
    fn clone(&self) -> (res: Self)
        ensures
            res@ == self@,
    {
        match self {
            Components::All => Components::All,
            Components::Only(names) => Components::Only(names.clone()),
        }
    }
}

/// An install that covers a request includes every component the request asks for.
pub proof fn law_covering_includes(
    have: Option<Set<Seq<char>>>,
    asked: Option<Set<Seq<char>>>,
    name: Seq<char>,
)
    requires
        covers_all(have, asked),
        wants(asked, name),
    ensures
        wants(have, name),
{
}

/// Every install covers itself, and covering carries over.
pub proof fn law_covering_is_an_order(
    a: Option<Set<Seq<char>>>,
    b: Option<Set<Seq<char>>>,
    c: Option<Set<Seq<char>>>,
)
    ensures
        covers_all(a, a),
        covers_all(a, b) && covers_all(b, c) ==> covers_all(a, c),
        covers_all(a, b) && covers_all(b, a) ==> a == b,
{
    if covers_all(a, b) && covers_all(b, a) && a is Some {
        assert(a->Some_0 =~= b->Some_0);
    }
}

/// Adding components to an install covers what was there and what was asked for, and is the least
/// that does.
pub proof fn law_union_adds(
    installed: Option<Set<Seq<char>>>,
    asked: Option<Set<Seq<char>>>,
    other: Option<Set<Seq<char>>>,
)
    ensures
        covers_all(union_of(installed, asked), installed),
        covers_all(union_of(installed, asked), asked),
        covers_all(other, installed) && covers_all(other, asked) ==> covers_all(
            other,
            union_of(installed, asked),
        ),
        covers_all(installed, asked) ==> union_of(installed, asked) == installed,
{
    if covers_all(installed, asked) && installed is Some {
        assert(installed->Some_0.union(asked->Some_0) =~= installed->Some_0);
    }
}

} // verus!
