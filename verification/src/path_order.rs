//! The order of paths: component by component.
use vstd::prelude::*;
use vstd::string::*;
use crate::order::Ranked;
use crate::path;
use crate::path::component_list;
use crate::text;
use crate::text::{at_or_before, same_text};

verus! {

/// The kind of a component: the root, ".", "..", a name.
pub open spec fn component_rank(c: Seq<char>) -> int {
    if c == "/"@ {
        0
    } else if c == "."@ {
        1
    } else if c == ".."@ {
        2
    } else {
        3
    }
}

/// One component stands before another or is the same: by kind, then by text.
pub open spec fn component_le(a: Seq<char>, b: Seq<char>) -> bool {
    component_rank(a) < component_rank(b) || (component_rank(a) == component_rank(b)
        && text::text_le(a, b))
}

/// The components of one path stand before those of another or are the same.
pub open spec fn components_le(a: Seq<Seq<char>>, b: Seq<Seq<char>>) -> bool
    decreases a.len(),
{
    if a.len() == 0 {
        true
    } else if b.len() == 0 {
        false
    } else if a[0] == b[0] {
        components_le(a.drop_first(), b.drop_first())
    } else {
        component_le(a[0], b[0])
    }
}

/// One path stands before another or is the same.
pub open spec fn path_le(a: Seq<char>, b: Seq<char>) -> bool {
    components_le(path::components(a), path::components(b))
}

/// Any two lists of components compare.
pub proof fn components_le_total(a: Seq<Seq<char>>, b: Seq<Seq<char>>)
    ensures
        components_le(a, b) || components_le(b, a),
    decreases a.len(),
{
    if a.len() > 0 && b.len() > 0 {
        if a[0] == b[0] {
            components_le_total(a.drop_first(), b.drop_first());
        } else {
            text::text_le_total(a[0], b[0]);
        }
    }
}

proof fn component_le_transitive(a: Seq<char>, b: Seq<char>, c: Seq<char>)
    requires
        component_le(a, b),
        component_le(b, c),
    ensures
        component_le(a, c),
{
    if component_rank(a) == component_rank(b) && component_rank(b) == component_rank(c) {
        text::text_le_transitive(a, b, c);
    }
}

proof fn component_le_antisymmetric(a: Seq<char>, b: Seq<char>)
    requires
        component_le(a, b),
        component_le(b, a),
    ensures
        a == b,
{
    text::text_le_antisymmetric(a, b);
}

/// The order of lists of components is transitive.
pub proof fn components_le_transitive(a: Seq<Seq<char>>, b: Seq<Seq<char>>, c: Seq<Seq<char>>)
    requires
        components_le(a, b),
        components_le(b, c),
    ensures
        components_le(a, c),
    decreases a.len(),
{
    if a.len() > 0 && b.len() > 0 && c.len() > 0 {
        if a[0] == b[0] && b[0] == c[0] {
            components_le_transitive(a.drop_first(), b.drop_first(), c.drop_first());
        } else if a[0] != b[0] && b[0] != c[0] {
            component_le_transitive(a[0], b[0], c[0]);
            if a[0] == c[0] {
                component_le_antisymmetric(a[0], b[0]);
            }
        }
    }
}

/// A path to sort by.
pub struct PathKey {
    pub parts: Vec<String>,
}

impl PathKey {
    /// The key of a path.
    pub fn of(path: &str) -> (r: Self)
        ensures
            text::views(r.parts@) == path::components(path@),
    {
        PathKey { parts: component_list(path) }
    }
}

fn rank_of(c: &str) -> (r: u32)
    ensures
        r == component_rank(c@),
{
    if same_text(c, "/") {
        0
    } else if same_text(c, ".") {
        1
    } else if same_text(c, "..") {
        2
    } else {
        3
    }
}

fn component_at_or_before(a: &str, b: &str) -> (r: bool)
    ensures
        r == component_le(a@, b@),
{
    let x: u32 = rank_of(a);
    let y: u32 = rank_of(b);
    x < y || (x == y && at_or_before(a, b))
}

impl Ranked for PathKey {
    open spec fn le(self, other: Self) -> bool {
        components_le(text::views(self.parts@), text::views(other.parts@))
    }

    proof fn le_total(a: Self, b: Self) {
        components_le_total(text::views(a.parts@), text::views(b.parts@));
    }

    proof fn le_transitive(a: Self, b: Self, c: Self) {
        components_le_transitive(
            text::views(a.parts@),
            text::views(b.parts@),
            text::views(c.parts@),
        );
    }

    fn is_le(&self, other: &Self) -> (r: bool) {
        let ghost x = text::views(self.parts@);
        let ghost y = text::views(other.parts@);
        let mut i: usize = 0;
        assert(x.skip(0) =~= x);
        assert(y.skip(0) =~= y);
        while i < self.parts.len()
            invariant
                i <= self.parts.len(),
                i <= other.parts.len(),
                x == text::views(self.parts@),
                y == text::views(other.parts@),
                components_le(x, y) == components_le(x.skip(i as int), y.skip(i as int)),
            decreases self.parts.len() - i,
        {
            if i == other.parts.len() {
                return false;
            }
            assert(x.skip(i as int)[0] == self.parts@[i as int]@);
            assert(y.skip(i as int)[0] == other.parts@[i as int]@);
            assert(x.skip(i as int).drop_first() =~= x.skip(i + 1));
            assert(y.skip(i as int).drop_first() =~= y.skip(i + 1));
            let a: &str = self.parts[i].as_str();
            let b: &str = other.parts[i].as_str();
            if !same_text(a, b) {
                return component_at_or_before(a, b);
            }
            i = i + 1;
        }
        true
    }
}

} // verus!
