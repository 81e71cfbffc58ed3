//! Finding the section number of a part of a body structure.

use vstd::prelude::*;
use crate::types::BodyStructure;

verus! {

/// The parts of a body structure with their section paths.
pub type Entries<'a> = Seq<(Seq<u32>, &'a BodyStructure)>;

/// Records `node` under `path`: the entry of `path` takes it where there is one, else it
/// is added at the end.
pub open spec fn spec_put<'a>(m: Entries<'a>, path: Seq<u32>, node: &'a BodyStructure) -> Entries<'a> {
    if exists|j: int| 0 <= j < m.len() && m[j].0 == path {
        Seq::new(m.len(), |j: int| if m[j].0 == path { (path, node) } else { m[j] })
    } else {
        m.push((path, node))
    }
}

pub open spec fn children_len(node: &BodyStructure) -> int {
    match node {
        BodyStructure::Multipart { bodies, .. } => bodies@.len() as int,
        _ => 0,
    }
}

/// The section number of the child at index `i` of a multipart: children are numbered
/// from 1 (as a `u32`, modulo 2^32).
pub open spec fn child_number(i: int) -> u32 {
    (i as u32).wrapping_add(1)
}

/// The walk over a part: the part is recorded under `prefix`, and the `k`th child of a
/// multipart (from 1) is walked under `prefix` and `k`, in order.
pub open spec fn spec_walk<'a>(node: &'a BodyStructure, prefix: Seq<u32>, acc: Entries<'a>) -> Entries<'a>
    decreases node, 1int, 0int,
{
    match node {
        BodyStructure::Multipart { .. } => spec_walk_children(node, 0, prefix, spec_put(acc, prefix, node)),
        _ => spec_put(acc, prefix, node),
    }
}

/// The walk over the parts of a multipart from child `i` on.
pub open spec fn spec_walk_children<'a>(
    parent: &'a BodyStructure,
    i: int,
    prefix: Seq<u32>,
    acc: Entries<'a>,
) -> Entries<'a>
    decreases parent, 0int, children_len(parent) - i,
{
    match parent {
        BodyStructure::Multipart { bodies, .. } => if 0 <= i < bodies@.len() {
            let r = spec_walk(&bodies@[i], prefix.push(child_number(i)), acc);
            spec_walk_children(parent, i + 1, prefix, r)
        } else {
            acc
        },
        _ => acc,
    }
}

/// No path occurs twice.
pub open spec fn paths_distinct<'a>(m: Entries<'a>) -> bool {
    forall|i: int, j: int| 0 <= i < j < m.len() ==> #[trigger] m[i].0 != #[trigger] m[j].0
}

proof fn lemma_put_distinct<'a>(m: Entries<'a>, path: Seq<u32>, node: &'a BodyStructure)
    requires
        paths_distinct(m),
    ensures
        paths_distinct(spec_put(m, path, node)),
{
    let r = spec_put(m, path, node);
    if exists|j: int| 0 <= j < m.len() && m[j].0 == path {
        assert forall|i: int, j: int| 0 <= i < j < r.len() implies #[trigger] r[i].0 != #[trigger] r[j].0 by {
            assert(r[i].0 == m[i].0);
            assert(r[j].0 == m[j].0);
        }
    } else {
        assert forall|i: int, j: int| 0 <= i < j < r.len() implies #[trigger] r[i].0 != #[trigger] r[j].0 by {
            if j == m.len() {
                assert(r[i] == m[i]);
            } else {
                assert(r[i] == m[i]);
                assert(r[j] == m[j]);
            }
        }
    }
}

proof fn lemma_walk_distinct<'a>(node: &'a BodyStructure, prefix: Seq<u32>, acc: Entries<'a>)
    requires
        paths_distinct(acc),
    ensures
        paths_distinct(spec_walk(node, prefix, acc)),
    decreases node, 1int, 0int,
{
    lemma_put_distinct(acc, prefix, node);
    match node {
        BodyStructure::Multipart { .. } => {
            lemma_walk_children_distinct(node, 0, prefix, spec_put(acc, prefix, node));
        },
        _ => {},
    }
}

proof fn lemma_walk_children_distinct<'a>(
    parent: &'a BodyStructure,
    i: int,
    prefix: Seq<u32>,
    acc: Entries<'a>,
)
    requires
        paths_distinct(acc),
    ensures
        paths_distinct(spec_walk_children(parent, i, prefix, acc)),
    decreases parent, 0int, children_len(parent) - i,
{
    match parent {
        BodyStructure::Multipart { bodies, .. } => if 0 <= i < bodies@.len() {
            lemma_walk_distinct(&bodies@[i], prefix.push(child_number(i)), acc);
            let r = spec_walk(&bodies@[i], prefix.push(child_number(i)), acc);
            lemma_walk_children_distinct(parent, i + 1, prefix, r);
        },
        _ => {},
    }
}

/// The entries of a multipart whose first `i` children are single parts: the multipart
/// under the empty path, then child `k` under the path `[k]`, from 1.
pub open spec fn flat_entries<'a>(root: &'a BodyStructure, i: int) -> Entries<'a> {
    match root {
        BodyStructure::Multipart { bodies, .. } => seq![(Seq::<u32>::empty(), root)] + Seq::new(
            i as nat,
            |k: int| (seq![(k + 1) as u32], &bodies@[k]),
        ),
        _ => Seq::empty(),
    }
}

proof fn lemma_flat_children<'a>(root: &'a BodyStructure, i: int)
    requires
        root is Multipart,
        0 <= i <= children_len(root) < u32::MAX,
        forall|k: int| 0 <= k < children_len(root) ==> #[trigger] root->Multipart_bodies@[k] !is Multipart,
    ensures
        spec_walk_children(root, i, Seq::empty(), flat_entries(root, i)) == flat_entries(root, children_len(root)),
    decreases children_len(root) - i,
{
    if let BodyStructure::Multipart { bodies, .. } = root {
        if i < bodies@.len() {
            let acc = flat_entries(root, i);
            let path = Seq::<u32>::empty().push(child_number(i));
            assert(child_number(i) == (i + 1) as u32);
            assert(path =~= seq![(i + 1) as u32]);
            assert(bodies@[i] !is Multipart);
            assert forall|j: int| 0 <= j < acc.len() implies acc[j].0 != path by {
                if j > 0 {
                    assert(acc[j].0 == seq![j as u32]);
                    assert(acc[j].0[0] != path[0]);
                } else {
                    assert(acc[j].0.len() == 0);
                }
            }
            assert(spec_walk(&bodies@[i], path, acc) == acc.push((path, &bodies@[i])));
            assert(acc.push((path, &bodies@[i])) =~= flat_entries(root, i + 1));
            lemma_flat_children(root, i + 1);
        }
    }
}

/// The children of a multipart are numbered from 1: in the parser of a multipart whose
/// children are single parts, the multipart has the empty path and its `k`th child the
/// path `[k]`.
pub proof fn lemma_flat_multipart_paths<'a>(root: &'a BodyStructure)
    requires
        root is Multipart,
        children_len(root) < u32::MAX,
        forall|k: int| 0 <= k < children_len(root) ==> #[trigger] root->Multipart_bodies@[k] !is Multipart,
    ensures
        spec_walk(root, Seq::empty(), Seq::empty()) == flat_entries(root, children_len(root)),
{
    assert(spec_put(Seq::<(Seq<u32>, &'a BodyStructure)>::empty(), Seq::empty(), root) =~= flat_entries(root, 0));
    lemma_flat_children(root, 0);
}

fn same_path(a: &Vec<u32>, b: &Vec<u32>) -> (r: bool)
    ensures
        r == (a@ == b@),
{
    let r = *a == *b;
    proof {
        if r {
            assert(a@ =~= b@);
        }
    }
    r
}

/// An utility parser helping to find the section part of a FETCH response's body
/// structure.
pub struct BodyStructParser<'a> {
    root: &'a BodyStructure,
    prefix: Vec<u32>,
    map: Vec<(Vec<u32>, &'a BodyStructure)>,
}

impl<'a> BodyStructParser<'a> {
    /// The parts that the parser found, with their section paths, in the order of the walk.
    pub closed spec fn entries(&self) -> Entries<'a> {
        Seq::new(self.map@.len(), |j: int| (self.map@[j].0@, self.map@[j].1))
    }

    /// The parser of the parts of `root`.
    pub fn new(root: &'a BodyStructure) -> (r: Self)
        ensures
            r.entries() == spec_walk(root, Seq::empty(), Seq::empty()),
            paths_distinct(r.entries()),
    {
        let mut parser = BodyStructParser { root, prefix: Vec::new(), map: Vec::new() };
        proof {
            assert(parser.entries() =~= Seq::<(Seq<u32>, &'a BodyStructure)>::empty());
            assert(parser.prefix@ =~= Seq::<u32>::empty());
        }
        parser.parse(root);
        proof {
            lemma_walk_distinct(root, Seq::empty(), Seq::empty());
        }
        parser
    }

    /// The path of the first part, in the order of the walk, that `func` accepts.
    pub fn search<F>(&self, func: F) -> (r: Option<Vec<u32>>) where
        F: Fn(&'a BodyStructure) -> bool,

        requires
            forall|b: &'a BodyStructure| func.requires((b,)),
        ensures
            match r {
                Some(p) => exists|k: int|
                    0 <= k < self.entries().len() && p@ == self.entries()[k].0 && func.ensures(
                        (self.entries()[k].1,),
                        true,
                    ) && forall|j: int|
                        0 <= j < k ==> func.ensures((#[trigger] self.entries()[j].1,), false),
                None => forall|j: int|
                    0 <= j < self.entries().len() ==> func.ensures(
                        (#[trigger] self.entries()[j].1,),
                        false,
                    ),
            },
    {
        let mut k: usize = 0;
        while k < self.map.len()
            invariant
                k <= self.map@.len(),
                forall|b: &'a BodyStructure| func.requires((b,)),
                forall|j: int|
                    0 <= j < k ==> func.ensures((#[trigger] self.entries()[j].1,), false),
            decreases self.map@.len() - k,
        {
            let (path, node) = &self.map[k];
            assert(self.entries()[k as int].1 == *node);
            if func(*node) {
                let p = path.clone();
                assert(p@ == self.entries()[k as int].0);
                return Some(p);
            }
            k = k + 1;
        }
        None
    }

    /// Records `path` with `node`.
    fn put(&mut self, node: &'a BodyStructure)
        ensures
            final(self).entries() == spec_put(old(self).entries(), old(self).prefix@, node),
            final(self).prefix@ == old(self).prefix@,
    {
        let ghost old_m = self.entries();
        let n = self.map.len();
        let mut found = false;
        let mut j: usize = 0;
        while j < n
            invariant
                n == old_m.len(),
                self.map@.len() == n,
                j <= n,
                self.prefix@ == old(self).prefix@,
                found <==> exists|q: int| 0 <= q < j && old_m[q].0 == self.prefix@,
                forall|q: int|
                    0 <= q < n ==> #[trigger] self.entries()[q] == (if q < j && old_m[q].0
                        == self.prefix@ {
                        (self.prefix@, node)
                    } else {
                        old_m[q]
                    }),
            decreases n - j,
        {
            proof {
                assert(self.entries()[j as int] == old_m[j as int]);
            }
            if same_path(&self.map[j].0, &self.prefix) {
                let ghost before = self.entries();
                let p = self.prefix.clone();
                self.map.set(j, (p, node));
                proof {
                    assert forall|q: int| 0 <= q < n implies #[trigger] self.entries()[q] == (if q
                        < j + 1 && old_m[q].0 == self.prefix@ {
                        (self.prefix@, node)
                    } else {
                        old_m[q]
                    }) by {
                        if q != j {
                            assert(self.entries()[q] == before[q]);
                        }
                    }
                }
                found = true;
            } else {
                assert(old_m[j as int].0 != self.prefix@);
            }
            j = j + 1;
        }
        if found {
            assert(self.entries() =~= spec_put(old_m, self.prefix@, node));
        } else {
            assert(self.entries() =~= old_m);
            let p = self.prefix.clone();
            self.map.push((p, node));
            assert(self.entries() =~= old_m.push((self.prefix@, node)));
        }
    }

    /// Walks `node`, recording each part under its path.
    #[verifier::loop_isolation(false)]
    fn parse(&mut self, node: &'a BodyStructure)
        ensures
            final(self).entries() == spec_walk(node, old(self).prefix@, old(self).entries()),
            final(self).prefix@ == old(self).prefix@,
        decreases node, 1int, 0int,
    {
        match node {
            BodyStructure::Multipart { bodies, .. } => {
                self.put(node);
                let ghost target = spec_walk_children(node, 0, self.prefix@, self.entries());
                let mut i: usize = 0;
                while i < bodies.len()
                    invariant
                        i <= bodies@.len(),
                        self.prefix@ == old(self).prefix@,
                        spec_walk_children(node, i as int, self.prefix@, self.entries()) == target,
                    decreases bodies@.len() - i,
                {
                    let k = (i as u32).wrapping_add(1);
                    self.prefix.push(k);
                    self.parse(&bodies[i]);
                    self.prefix.pop();
                    proof {
                        assert(self.prefix@ =~= old(self).prefix@);
                    }
                    i = i + 1;
                }
            },
            _ => {
                self.put(node);
            },
        }
    }
}

} // verus!
