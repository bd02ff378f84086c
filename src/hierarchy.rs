use vstd::prelude::*;

use crate::clip::KeyframeEntityPath;

verus! {

/// One entity of a hierarchy: its name, if it has one, and its children, as
/// indices into the hierarchy's nodes.
pub struct HierarchyNode {
    pub name: Option<String>,
    pub children: Vec<usize>,
}

/// The entities that an animation may reach from its root, each known by its
/// index in `nodes`. A child index that stands for no node is an entity
/// without a name.
pub struct Hierarchy {
    pub nodes: Vec<HierarchyNode>,
}

/// Whether entity `e` exists and is called `name`.
pub open spec fn is_named(nodes: Seq<HierarchyNode>, e: int, name: Seq<char>) -> bool {
    &&& 0 <= e < nodes.len()
    &&& nodes[e].name is Some
    &&& nodes[e].name->0@ == name
}

/// The first of `kids` called `name`.
pub open spec fn first_named(nodes: Seq<HierarchyNode>, kids: Seq<usize>, name: Seq<char>) -> Option<
    int,
>
    decreases kids.len(),
{
    if kids.len() == 0 {
        None
    } else if is_named(nodes, kids[0] as int, name) {
        Some(kids[0] as int)
    } else {
        first_named(nodes, kids.drop_first(), name)
    }
}

/// The children of entity `e`.
pub open spec fn children_of(nodes: Seq<HierarchyNode>, e: int) -> Seq<usize> {
    if 0 <= e < nodes.len() {
        nodes[e].children@
    } else {
        Seq::empty()
    }
}

/// The entity reached from `from` by going down, for each of `names` in
/// turn, to the first child with that name.
pub open spec fn walk(nodes: Seq<HierarchyNode>, from: int, names: Seq<Seq<char>>) -> Option<int>
    decreases names.len(),
{
    if names.len() == 0 {
        Some(from)
    } else {
        match first_named(nodes, children_of(nodes, from), names[0]) {
            Some(c) => walk(nodes, c, names.drop_first()),
            None => None,
        }
    }
}

impl Hierarchy {
    /// The entity that `path` names below `root`. The first part of a path is
    /// the root's own name and is not looked up.
    pub open spec fn target(&self, root: int, path: Seq<Seq<char>>) -> Option<int> {
        if path.len() == 0 {
            Some(root)
        } else {
            walk(self.nodes@, root, path.drop_first())
        }
    }

    /// The first child of `entity` called `name`.
    fn child_named(&self, entity: usize, name: &String) -> (r: Option<usize>)
        ensures
            match r {
                Some(c) => first_named(self.nodes@, children_of(self.nodes@, entity as int), name@)
                    == Some(c as int),
                None => first_named(self.nodes@, children_of(self.nodes@, entity as int), name@) is None,
            },
    {
        if entity >= self.nodes.len() {
            return None;
        }
        let kids = &self.nodes[entity].children;
        let ghost all = kids@;
        let mut j: usize = 0;
        assert(all.subrange(0, all.len() as int) == all);
        while j < kids.len()
            invariant
                0 <= j <= kids.len(),
                all == kids@,
                all == children_of(self.nodes@, entity as int),
                first_named(self.nodes@, all, name@) == first_named(
                    self.nodes@,
                    all.subrange(j as int, all.len() as int),
                    name@,
                ),
            decreases kids.len() - j,
        {
            let c = kids[j];
            let ghost rest = all.subrange(j as int, all.len() as int);
            assert(rest[0] == c);
            assert(rest.drop_first() == all.subrange(j + 1, all.len() as int));
            if c < self.nodes.len() {
                let node = &self.nodes[c];
                if node.name.is_some() {
                    let n = node.name.as_ref().unwrap();
                    assert(node.name == Some(*n));
                    assert(self.nodes@[c as int].name->0 == *n);
                    if n.eq(name) {
                        assert(is_named(self.nodes@, c as int, name@));
                        return Some(c);
                    }
                    assert(!is_named(self.nodes@, c as int, name@));
                }
            }
            j += 1;
        }
        assert(all.subrange(j as int, all.len() as int).len() == 0);
        None
    }

    /// The entity that `path` names below `root`, if every name on the way
    /// is found.
    pub fn resolve(&self, root: usize, path: &KeyframeEntityPath) -> (r: Option<usize>)
        ensures
            match r {
                Some(e) => self.target(root as int, path@) == Some(e as int),
                None => self.target(root as int, path@) is None,
            },
    {
        let n = path.parts.len();
        if n == 0 {
            return Some(root);
        }
        let ghost names = path@;
        let mut cur: usize = root;
        let mut i: usize = 1;
        while i < n
            invariant
                1 <= i <= n,
                n == path.parts@.len(),
                names == path@,
                names.len() == n,
                self.target(root as int, names) == walk(
                    self.nodes@,
                    cur as int,
                    names.subrange(i as int, n as int),
                ),
            decreases n - i,
        {
            let ghost rest = names.subrange(i as int, n as int);
            assert(rest[0] == path.parts@[i as int]@);
            assert(rest.drop_first() == names.subrange(i + 1, n as int));
            match self.child_named(cur, &path.parts[i]) {
                Some(c) => {
                    cur = c;
                },
                None => {
                    return None;
                },
            }
            i += 1;
        }
        assert(names.subrange(i as int, n as int).len() == 0);
        Some(cur)
    }
}

} // verus!
