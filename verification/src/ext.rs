//! Supporting containers: a prefix tree keyed by characters and a map
//! over a sorted vector.

use vstd::prelude::*;
use vstd::std_specs::cmp::{OrdSpec, PartialOrdSpec};

verus! {

/// A node of a prefix tree from character sequences to values: an
/// optional terminal value plus an ordered mapping from the next
/// character to a child node. Each node also records the full path from
/// the root to itself.
///
/// Well-formedness ([`Tree::wf`]): the children are sorted by strictly
/// increasing character, each child is well-formed, and each child's
/// recorded path extends its parent's by its character.
pub struct Tree<V> {
    pub path: Vec<char>,
    pub val: Option<V>,
    pub connections: Vec<(char, Box<Tree<V>>)>,
}

impl<V> Tree<V> {
    /// The children are sorted by strictly increasing character, each
    /// child is well-formed, and each child's path extends this node's
    /// path by its character.
    pub open spec fn wf(self) -> bool
        decreases self,
    {
        &&& forall|i: int, j: int|
            0 <= i < j < self.connections@.len()
                ==> (#[trigger] self.connections@[i]).0 < (#[trigger] self.connections@[j]).0
        &&& forall|i: int|
            0 <= i < self.connections@.len() ==> (#[trigger] self.connections@[i]).1.wf()
                && self.connections@[i].1.path@ == self.path@ + seq![self.connections@[i].0]
    }

    /// The first child reached by the given character, scanning the
    /// children in order.
    pub open spec fn child_get(s: Seq<(char, Box<Tree<V>>)>, c: char) -> Option<Box<Tree<V>>>
        decreases s.len(),
    {
        if s.len() == 0 {
            None
        } else if s[0].0 == c {
            Some(s[0].1)
        } else {
            Tree::child_get(s.drop_first(), c)
        }
    }

    /// The value stored under the given key sequence below this node.
    pub open spec fn spec_get(self, key: Seq<char>) -> Option<V>
        decreases key.len(),
    {
        if key.len() == 0 {
            self.val
        } else {
            match Tree::child_get(self.connections@, key[0]) {
                Some(t) => t.spec_get(key.drop_first()),
                None => None,
            }
        }
    }

    /// An empty node recording the given path.
    fn with_path(path: Vec<char>) -> (r: Tree<V>)
        ensures
            r.path@ == path@,
            r.val is None,
            r.connections@.len() == 0,
            r.wf(),
            forall|k: Seq<char>| r.spec_get(k) is None,
    {
        let r = Tree { path, val: None, connections: Vec::new() };
        proof {
            assert forall|k: Seq<char>| r.spec_get(k) is None by {
                if k.len() > 0 {
                    assert(Tree::child_get(r.connections@, k[0]) is None);
                }
            }
        }
        r
    }

    /// The empty tree.
    pub fn new() -> (r: Tree<V>)
        ensures
            r.path@.len() == 0,
            r.wf(),
            forall|k: Seq<char>| r.spec_get(k) is None,
    {
        Tree::with_path(Vec::new())
    }

    /// The value stored under the given key, where there is one.
    pub fn get(&self, key: &[char]) -> (r: Option<&V>)
        ensures
            match r {
                Some(v) => self.spec_get(key@) == Some(*v),
                None => self.spec_get(key@) is None,
            },
    {
        proof {
            assert(key@.skip(0) =~= key@);
        }
        self.get_at(key, 0)
    }

    /// Walks the key from position `i` downward.
    #[verifier::loop_isolation(false)]
    fn get_at(&self, key: &[char], i: usize) -> (r: Option<&V>)
        requires
            i <= key@.len(),
        ensures
            match r {
                Some(v) => self.spec_get(key@.skip(i as int)) == Some(*v),
                None => self.spec_get(key@.skip(i as int)) is None,
            },
        decreases key@.len() - i,
    {
        let ghost rest = key@.skip(i as int);
        if i == key.len() {
            proof {
                assert(rest.len() == 0);
            }
            self.val.as_ref()
        } else {
            let c = key[i];
            proof {
                assert(rest[0] == key@[i as int]);
                assert(rest.drop_first() =~= key@.skip(i as int + 1));
            }
            let n = self.connections.len();
            let mut j: usize = 0;
            proof {
                assert(self.connections@.skip(0) =~= self.connections@);
            }
            while j < n
                invariant
                    n == self.connections@.len(),
                    j <= n,
                    Tree::child_get(self.connections@, c) == Tree::child_get(
                        self.connections@.skip(j as int),
                        c,
                    ),
                decreases n - j,
            {
                let ghost sj = self.connections@.skip(j as int);
                proof {
                    assert(sj[0] == self.connections@[j as int]);
                    assert(sj.drop_first() =~= self.connections@.skip(j as int + 1));
                }
                if self.connections[j].0 == c {
                    return self.connections[j].1.get_at(key, i + 1);
                }
                j = j + 1;
            }
            proof {
                assert(self.connections@.skip(n as int).len() == 0);
            }
            None
        }
    }

    /// Stores the value under the given key, replacing any value already
    /// there and leaving every other key unchanged.
    pub fn insert(&mut self, key: &[char], value: V)
        requires
            old(self).wf(),
        ensures
            final(self).wf(),
            final(self).path@ == old(self).path@,
            final(self).spec_get(key@) == Some(value),
            forall|k: Seq<char>| k != key@ ==> final(self).spec_get(k) == old(self).spec_get(k),
    {
        proof {
            assert(key@.skip(0) =~= key@);
        }
        self.insert_at(key, 0, value);
    }

    /// Stores the value under the key suffix starting at position `i`.
    #[verifier::loop_isolation(false)]
    fn insert_at(&mut self, key: &[char], i: usize, value: V)
        requires
            old(self).wf(),
            i <= key@.len(),
        ensures
            final(self).wf(),
            final(self).path@ == old(self).path@,
            final(self).spec_get(key@.skip(i as int)) == Some(value),
            forall|k: Seq<char>| k != key@.skip(i as int)
                ==> final(self).spec_get(k) == old(self).spec_get(k),
        decreases key@.len() - i,
    {
        let ghost rest = key@.skip(i as int);
        if i == key.len() {
            self.val = Some(value);
            proof {
                assert(rest.len() == 0);
                assert forall|k: Seq<char>| k != rest
                    implies final(self).spec_get(k) == old(self).spec_get(k) by {
                    if k.len() == 0 {
                        assert(k =~= rest);
                    } else {
                        assert(final(self).connections@ == old(self).connections@);
                    }
                }
            }
            return;
        }
        let c = key[i];
        proof {
            assert(rest[0] == key@[i as int]);
            assert(rest.drop_first() =~= key@.skip(i as int + 1));
        }
        let n = self.connections.len();
        let mut j: usize = 0;
        let mut found_eq = false;
        let mut stop = false;
        while j < n && !stop
            invariant
                n == self.connections@.len(),
                j <= n,
                forall|k: int| 0 <= k < j ==> (#[trigger] self.connections@[k]).0 < c,
                found_eq ==> j < n && self.connections@[j as int].0 == c,
                stop && !found_eq ==> j < n && c < self.connections@[j as int].0,
                !stop ==> !found_eq,
            decreases n - j + (if stop { 0int } else { 1int }),
        {
            if self.connections[j].0 == c {
                found_eq = true;
                stop = true;
            } else if c < self.connections[j].0 {
                stop = true;
            } else {
                j = j + 1;
            }
        }
        let ghost s0 = self.connections@;
        proof {
            assert(forall|k: int| j <= k < n ==> c <= (#[trigger] self.connections@[k]).0);
        }
        if found_eq {
            let mut entry = self.connections.remove(j);
            entry.1.insert_at(key, i + 1, value);
            let ghost sub = entry.1;
            self.connections.insert(j, entry);
            proof {
                let s1 = final(self).connections@;
                assert(s1 =~= s0.update(j as int, (c, sub)));
                assert(forall|k: int| 0 <= k < j ==> (#[trigger] s0[k]).0 != c);
                lemma_child_at(s0, j as int, c);
                lemma_child_update(s0, s1, j as int, c);
                assert(Tree::child_get(s1, c) == Some(sub));
                // well-formedness: same characters, children unchanged but one
                assert forall|a: int, b: int| 0 <= a < b < s1.len()
                    implies (#[trigger] s1[a]).0 < (#[trigger] s1[b]).0 by {
                    assert(s1[a].0 == s0[a].0 && s1[b].0 == s0[b].0);
                }
                assert forall|k: int| 0 <= k < s1.len()
                    implies (#[trigger] s1[k]).1.wf() && s1[k].1.path@ == final(self).path@
                        + seq![s1[k].0] by {
                    if k != j {
                        assert(s1[k] == s0[k]);
                        assert(s0[k].1.wf());
                    }
                }
                assert(final(self).spec_get(rest) == sub.spec_get(rest.drop_first()));
                assert forall|k: Seq<char>| k != rest
                    implies final(self).spec_get(k) == old(self).spec_get(k) by {
                    if k.len() == 0 {
                        assert(final(self).val == old(self).val);
                    } else if k[0] == c {
                        if k.drop_first() == rest.drop_first() {
                            assert(k =~= rest) by {
                                assert(k.len() == rest.len());
                                assert forall|m: int| 0 <= m < k.len()
                                    implies k[m] == rest[m] by {
                                    if m > 0 {
                                        assert(k[m] == k.drop_first()[m - 1]);
                                        assert(rest[m] == rest.drop_first()[m - 1]);
                                    }
                                }
                            }
                        }
                        assert(Tree::child_get(s0, c) == Some(s0[j as int].1));
                        assert(final(self).spec_get(k) == sub.spec_get(k.drop_first()));
                        assert(old(self).spec_get(k) == s0[j as int].1.spec_get(k.drop_first()));
                    } else {
                        assert(Tree::child_get(s1, k[0]) == Tree::child_get(s0, k[0]));
                    }
                }
            }
        } else {
            let mut node: Tree<V> = Tree::with_path(push_char(&self.path, c));
            node.insert_at(key, i + 1, value);
            let ghost sub = node;
            let boxed = Box::new(node);
            let ghost bsub = boxed;
            self.connections.insert(j, (c, boxed));
            proof {
                let s1 = final(self).connections@;
                assert(s1 =~= s0.insert(j as int, (c, bsub)));
                assert forall|k: int| 0 <= k < s0.len() implies (#[trigger] s0[k]).0 != c by {
                    if k >= j {
                        assert(c <= s0[k].0);
                        if k > j {
                            assert(s0[j as int].0 < s0[k].0);
                        }
                    }
                }
                lemma_child_insert(s0, s1, j as int, c, bsub);
                assert(Tree::child_get(s1, c) == Some(bsub));
                assert forall|a: int, b: int| 0 <= a < b < s1.len()
                    implies (#[trigger] s1[a]).0 < (#[trigger] s1[b]).0 by {
                    assert(a < j ==> s1[a] == s0[a]);
                    assert(a > j ==> s1[a] == s0[a - 1]);
                    assert(b < j ==> s1[b] == s0[b]);
                    assert(b > j ==> s1[b] == s0[b - 1]);
                    if a < j && j < b {
                        assert(s0[a].0 < c);
                        assert(c < s0[b - 1].0);
                    }
                }
                assert forall|k: int| 0 <= k < s1.len()
                    implies (#[trigger] s1[k]).1.wf() && s1[k].1.path@ == final(self).path@
                        + seq![s1[k].0] by {
                    if k < j {
                        assert(s1[k] == s0[k]);
                        assert(s0[k].1.wf());
                    } else if k > j {
                        assert(s1[k] == s0[k - 1]);
                        assert(s0[k - 1].1.wf());
                    } else {
                        assert(sub.path@ =~= final(self).path@ + seq![c]);
                    }
                }
                assert(final(self).spec_get(rest) == sub.spec_get(rest.drop_first()));
                assert forall|k: Seq<char>| k != rest
                    implies final(self).spec_get(k) == old(self).spec_get(k) by {
                    if k.len() == 0 {
                        assert(final(self).val == old(self).val);
                    } else if k[0] == c {
                        if k.drop_first() == rest.drop_first() {
                            assert(k =~= rest) by {
                                assert(k.len() == rest.len());
                                assert forall|m: int| 0 <= m < k.len()
                                    implies k[m] == rest[m] by {
                                    if m > 0 {
                                        assert(k[m] == k.drop_first()[m - 1]);
                                        assert(rest[m] == rest.drop_first()[m - 1]);
                                    }
                                }
                            }
                        }
                        lemma_child_none(s0, c);
                        assert(final(self).spec_get(k) == sub.spec_get(k.drop_first()));
                        assert(sub.spec_get(k.drop_first()) == old(self).spec_get(k));
                    } else {
                        assert(Tree::child_get(s1, k[0]) == Tree::child_get(s0, k[0]));
                    }
                }
            }
        }
    }
}

/// The child lookup of a character that no child carries.
proof fn lemma_child_none<V>(s: Seq<(char, Box<Tree<V>>)>, c: char)
    requires
        forall|k: int| 0 <= k < s.len() ==> (#[trigger] s[k]).0 != c,
    ensures
        Tree::child_get(s, c) is None,
    decreases s.len(),
{
    if s.len() > 0 {
        let t = s.drop_first();
        assert(forall|k: int| 0 <= k < t.len() ==> (#[trigger] t[k]).0 != c);
        lemma_child_none(t, c);
    }
}

/// The child lookup of a character whose first occurrence among the
/// children is at the given position.
proof fn lemma_child_at<V>(s: Seq<(char, Box<Tree<V>>)>, j: int, c: char)
    requires
        0 <= j < s.len(),
        s[j].0 == c,
        forall|k: int| 0 <= k < j ==> (#[trigger] s[k]).0 != c,
    ensures
        Tree::child_get(s, c) == Some(s[j].1),
    decreases j,
{
    if j > 0 {
        let t = s.drop_first();
        assert(t[j - 1] == s[j]);
        assert(forall|k: int| 0 <= k < j - 1 ==> (#[trigger] t[k]).0 != c);
        lemma_child_at(t, j - 1, c);
    }
}

impl<V> Tree<V> {
    /// The node reached by walking the given key sequence.
    pub open spec fn spec_subtree(self, key: Seq<char>) -> Option<Tree<V>>
        decreases key.len(),
    {
        if key.len() == 0 {
            Some(self)
        } else {
            match Tree::child_get(self.connections@, key[0]) {
                Some(t) => t.spec_subtree(key.drop_first()),
                None => None,
            }
        }
    }

    /// The node reached by the given prefix, where there is one.
    pub fn get_tree(&self, key: &[char]) -> (r: Option<&Tree<V>>)
        ensures
            match r {
                Some(t) => self.spec_subtree(key@) == Some(*t),
                None => self.spec_subtree(key@) is None,
            },
    {
        proof {
            assert(key@.skip(0) =~= key@);
        }
        self.get_tree_at(key, 0)
    }

    /// Walks the key from position `i` downward.
    #[verifier::loop_isolation(false)]
    fn get_tree_at(&self, key: &[char], i: usize) -> (r: Option<&Tree<V>>)
        requires
            i <= key@.len(),
        ensures
            match r {
                Some(t) => self.spec_subtree(key@.skip(i as int)) == Some(*t),
                None => self.spec_subtree(key@.skip(i as int)) is None,
            },
        decreases key@.len() - i,
    {
        let ghost rest = key@.skip(i as int);
        if i == key.len() {
            proof {
                assert(rest.len() == 0);
            }
            Some(self)
        } else {
            let c = key[i];
            proof {
                assert(rest[0] == key@[i as int]);
                assert(rest.drop_first() =~= key@.skip(i as int + 1));
            }
            let n = self.connections.len();
            let mut j: usize = 0;
            proof {
                assert(self.connections@.skip(0) =~= self.connections@);
            }
            while j < n
                invariant
                    n == self.connections@.len(),
                    j <= n,
                    Tree::child_get(self.connections@, c) == Tree::child_get(
                        self.connections@.skip(j as int),
                        c,
                    ),
                decreases n - j,
            {
                let ghost sj = self.connections@.skip(j as int);
                proof {
                    assert(sj[0] == self.connections@[j as int]);
                    assert(sj.drop_first() =~= self.connections@.skip(j as int + 1));
                }
                if self.connections[j].0 == c {
                    return self.connections[j].1.get_tree_at(key, i + 1);
                }
                j = j + 1;
            }
            proof {
                assert(self.connections@.skip(n as int).len() == 0);
            }
            None
        }
    }

    /// Every value stored at or below this node, in depth-first order,
    /// children visited by increasing character.
    pub open spec fn all_spec(self) -> Seq<V>
        decreases self,
    {
        (match self.val {
            Some(v) => seq![v],
            None => Seq::empty(),
        }) + Tree::all_children_spec(self.connections@)
    }

    /// The values below a sequence of children, in order.
    pub open spec fn all_children_spec(s: Seq<(char, Box<Tree<V>>)>) -> Seq<V>
        decreases s,
    {
        if s.len() == 0 {
            Seq::empty()
        } else {
            s[0].1.all_spec() + Tree::all_children_spec(s.drop_first())
        }
    }

    /// Every full path-and-value pair stored at or below this node, in
    /// depth-first order. The paths are the recorded paths from the root,
    /// so they carry this node's own path as a prefix.
    pub open spec fn all_path_spec(self) -> Seq<(Seq<char>, V)>
        decreases self,
    {
        (match self.val {
            Some(v) => seq![(self.path@, v)],
            None => Seq::empty(),
        }) + Tree::all_path_children_spec(self.connections@)
    }

    /// The path-and-value pairs below a sequence of children, in order.
    pub open spec fn all_path_children_spec(s: Seq<(char, Box<Tree<V>>)>) -> Seq<
        (Seq<char>, V),
    >
        decreases s,
    {
        if s.len() == 0 {
            Seq::empty()
        } else {
            s[0].1.all_path_spec() + Tree::all_path_children_spec(s.drop_first())
        }
    }

    /// The values at and below this node, restricted to the first `j`
    /// children.
    pub open spec fn all_upto(self, j: int) -> Seq<V> {
        (match self.val {
            Some(v) => seq![v],
            None => Seq::empty(),
        }) + Tree::all_children_spec(self.connections@.take(j))
    }

    /// Every value stored at or below this node, in depth-first order.
    #[verifier::loop_isolation(false)]
    pub fn all(&self) -> (r: Vec<&V>)
        ensures
            r@.len() == self.all_spec().len(),
            forall|m: int| 0 <= m < r@.len() ==> *r@[m] == self.all_spec()[m],
        decreases *self,
    {
        let mut r: Vec<&V> = Vec::new();
        match &self.val {
            Some(v) => r.push(v),
            None => {},
        }
        let n = self.connections.len();
        let mut j: usize = 0;
        proof {
            assert(self.connections@.take(0) =~= Seq::<(char, Box<Tree<V>>)>::empty());
        }
        while j < n
            invariant
                j <= n,
                r@.len() == self.all_upto(j as int).len(),
                forall|m: int| 0 <= m < r@.len() ==> *r@[m] == self.all_upto(j as int)[m],
            decreases n - j,
        {
            proof {
                assert(decreases_to!(*self => self.connections@[j as int].1));
            }
            let mut sub = self.connections[j].1.all();
            let ghost pre = r@;
            r.append(&mut sub);
            proof {
                lemma_all_children_snoc(self.connections@, j as int);
            }
            j = j + 1;
        }
        proof {
            assert(self.connections@.take(n as int) =~= self.connections@);
        }
        r
    }

    /// The path-and-value pairs at and below this node, restricted to the
    /// first `j` children.
    pub open spec fn all_path_upto(self, j: int) -> Seq<(Seq<char>, V)> {
        (match self.val {
            Some(v) => seq![(self.path@, v)],
            None => Seq::empty(),
        }) + Tree::all_path_children_spec(self.connections@.take(j))
    }

    /// Every full path-and-value pair stored at or below this node, in
    /// depth-first order; the paths start from the root of the whole
    /// tree.
    #[verifier::loop_isolation(false)]
    pub fn all_path(&self) -> (r: Vec<(Vec<char>, &V)>)
        ensures
            r@.len() == self.all_path_spec().len(),
            forall|m: int| 0 <= m < r@.len() ==> r@[m].0@ == self.all_path_spec()[m].0
                && *r@[m].1 == self.all_path_spec()[m].1,
        decreases *self,
    {
        let mut r: Vec<(Vec<char>, &V)> = Vec::new();
        match &self.val {
            Some(v) => r.push((clone_chars(&self.path), v)),
            None => {},
        }
        let n = self.connections.len();
        let mut j: usize = 0;
        proof {
            assert(self.connections@.take(0) =~= Seq::<(char, Box<Tree<V>>)>::empty());
        }
        while j < n
            invariant
                j <= n,
                r@.len() == self.all_path_upto(j as int).len(),
                forall|m: int| 0 <= m < r@.len() ==> r@[m].0@ == self.all_path_upto(j as int)[m].0
                    && *r@[m].1 == self.all_path_upto(j as int)[m].1,
            decreases n - j,
        {
            proof {
                assert(decreases_to!(*self => self.connections@[j as int].1));
            }
            let mut sub = self.connections[j].1.all_path();
            let ghost pre = r@;
            r.append(&mut sub);
            proof {
                lemma_all_path_children_snoc(self.connections@, j as int);
            }
            j = j + 1;
        }
        proof {
            assert(self.connections@.take(n as int) =~= self.connections@);
        }
        r
    }
}

impl<V: Copy> Tree<V> {
    /// The value stored under the characters of the given token.
    pub fn get_str(&self, token: &str) -> (r: Option<V>)
        ensures
            r == self.spec_get(token@),
    {
        let chars = str_chars(token);
        match self.get(chars.as_slice()) {
            Some(v) => Some(*v),
            None => None,
        }
    }

    /// Stores the value under the characters of the given token.
    pub fn insert_str(&mut self, token: &str, value: V)
        requires
            old(self).wf(),
        ensures
            final(self).wf(),
            final(self).path@ == old(self).path@,
            final(self).spec_get(token@) == Some(value),
            forall|k: Seq<char>| k != token@ ==> final(self).spec_get(k) == old(self).spec_get(k),
    {
        let chars = str_chars(token);
        self.insert(chars.as_slice(), value);
    }

    /// Every full spelling and value reachable below the node for the
    /// given token: the spellings carry the token's node path — for a
    /// root tree, the token itself — as a prefix. Empty where no node
    /// carries the token.
    pub fn with_prefix(&self, token: &str) -> (r: Vec<(String, V)>)
        ensures
            match self.spec_subtree(token@) {
                Some(st) => r@.len() == st.all_path_spec().len() && (forall|m: int|
                    0 <= m < r@.len() ==> r@[m].0@ == st.all_path_spec()[m].0
                        && r@[m].1 == st.all_path_spec()[m].1),
                None => r@.len() == 0,
            },
    {
        let chars = str_chars(token);
        let sub = match self.get_tree(chars.as_slice()) {
            Some(t) => t,
            None => {
                return Vec::new();
            },
        };
        let pairs = sub.all_path();
        let mut r: Vec<(String, V)> = Vec::new();
        let mut m: usize = 0;
        while m < pairs.len()
            invariant
                m <= pairs@.len(),
                r@.len() == m,
                pairs@.len() == sub.all_path_spec().len(),
                forall|k: int| 0 <= k < pairs@.len() ==> pairs@[k].0@ == sub.all_path_spec()[k].0
                    && *pairs@[k].1 == sub.all_path_spec()[k].1,
                forall|k: int| 0 <= k < m ==> r@[k].0@ == sub.all_path_spec()[k].0
                    && r@[k].1 == sub.all_path_spec()[k].1,
            decreases pairs@.len() - m,
        {
            let text = chars_to_string(&pairs[m].0);
            r.push((text, *pairs[m].1));
            m = m + 1;
        }
        r
    }
}

/// Walking a prefix and then looking a key up under it is looking up the
/// concatenation: the subtree under a prefix, where it exists, holds
/// exactly the values of the keys that extend the prefix, and it is
/// well-formed with the prefix appended to its recorded path.
pub proof fn lemma_subtree_props<V>(t: Tree<V>, p: Seq<char>)
    requires
        t.wf(),
    ensures
        match t.spec_subtree(p) {
            Some(st) => st.wf() && st.path@ == t.path@ + p && forall|k: Seq<char>|
                #[trigger] st.spec_get(k) == t.spec_get(p + k),
            None => forall|k: Seq<char>| #[trigger] t.spec_get(p + k) is None,
        },
    decreases p.len(),
{
    if p.len() == 0 {
        let st = t;
        assert(st.path@ =~= t.path@ + p);
        assert forall|k: Seq<char>| #[trigger] st.spec_get(k) == t.spec_get(p + k) by {
            assert(p + k =~= k);
        }
    } else {
        match Tree::child_get(t.connections@, p[0]) {
            Some(child) => {
                lemma_child_get_wf(t, p[0]);
                lemma_subtree_props(*child, p.drop_first());
                assert(child.path@ == t.path@ + seq![p[0]]);
                assert forall|k: Seq<char>| true implies ((p + k).len() > 0 && (p + k)[0] == p[0]
                    && (p + k).drop_first() =~= p.drop_first() + k) by {
                    assert((p + k)[0] == p[0]);
                }
                match t.spec_subtree(p) {
                    Some(st) => {
                        assert(st.path@ =~= t.path@ + p) by {
                            assert(st.path@ == (t.path@ + seq![p[0]]) + (p.drop_first()));
                            assert((t.path@ + seq![p[0]]) + p.drop_first() =~= t.path@ + p);
                        }
                        assert forall|k: Seq<char>|
                            #[trigger] st.spec_get(k) == t.spec_get(p + k) by {
                            assert(child.spec_get(p.drop_first() + k) == st.spec_get(k));
                            assert(t.spec_get(p + k) == child.spec_get((p + k).drop_first()));
                        }
                    },
                    None => {
                        assert forall|k: Seq<char>| #[trigger] t.spec_get(p + k) is None by {
                            assert(t.spec_get(p + k) == child.spec_get((p + k).drop_first()));
                            assert(child.spec_get(p.drop_first() + k) is None);
                        }
                    },
                }
            },
            None => {
                assert forall|k: Seq<char>| #[trigger] t.spec_get(p + k) is None by {
                    assert((p + k).len() > 0 && (p + k)[0] == p[0]);
                }
            },
        }
    }
}

/// A child found by `child_get` in a well-formed node is well-formed and
/// extends the node's path.
proof fn lemma_child_get_wf<V>(t: Tree<V>, c: char)
    requires
        t.wf(),
        Tree::child_get(t.connections@, c) is Some,
    ensures
        Tree::child_get(t.connections@, c)->0.wf(),
        Tree::child_get(t.connections@, c)->0.path@ == t.path@ + seq![c],
{
    let s = t.connections@;
    lemma_child_get_member(s, c);
}

/// A successful child lookup returns one of the children, carrying its
/// character.
proof fn lemma_child_get_member<V>(s: Seq<(char, Box<Tree<V>>)>, c: char)
    requires
        Tree::child_get(s, c) is Some,
    ensures
        exists|i: int| 0 <= i < s.len() && s[i] == (c, Tree::child_get(s, c)->0),
    decreases s.len(),
{
    if s.len() > 0 && s[0].0 != c {
        lemma_child_get_member(s.drop_first(), c);
        let i = choose|i: int| 0 <= i < s.drop_first().len() && s.drop_first()[i] == (
            c,
            Tree::child_get(s.drop_first(), c)->0,
        );
        assert(s[i + 1] == s.drop_first()[i]);
    }
}

/// Membership in a concatenation is membership in either part.
proof fn lemma_contains_concat<A>(a: Seq<A>, b: Seq<A>)
    ensures
        forall|x: A| #[trigger] (a + b).contains(x) <==> a.contains(x) || b.contains(x),
{
    assert forall|x: A| #[trigger] (a + b).contains(x) <==> a.contains(x) || b.contains(x) by {
        if (a + b).contains(x) {
            let i = choose|i: int| 0 <= i < (a + b).len() && (a + b)[i] == x;
            if i < a.len() {
                assert(a[i] == x);
            } else {
                assert(b[i - a.len()] == x);
            }
        }
        if a.contains(x) {
            let i = choose|i: int| 0 <= i < a.len() && a[i] == x;
            assert((a + b)[i] == x);
        }
        if b.contains(x) {
            let i = choose|i: int| 0 <= i < b.len() && b[i] == x;
            assert((a + b)[a.len() + i] == x);
        }
    }
}

/// A value appears below one of the children exactly when one child's
/// enumeration lists it.
proof fn lemma_children_values<V>(s: Seq<(char, Box<Tree<V>>)>)
    requires
        forall|i: int| 0 <= i < s.len() ==> (#[trigger] s[i]).1.wf(),
    ensures
        forall|v: V| #[trigger] Tree::all_children_spec(s).contains(v) <==> exists|i: int|
            0 <= i < s.len() && (#[trigger] s[i]).1.all_spec().contains(v),
    decreases s,
{
    if s.len() > 0 {
        let t = s.drop_first();
        assert(forall|i: int| 0 <= i < t.len() ==> (#[trigger] t[i]).1.wf());
        lemma_children_values(t);
        lemma_contains_concat(s[0].1.all_spec(), Tree::all_children_spec(t));
        assert forall|v: V| #[trigger] Tree::all_children_spec(s).contains(v) <==> exists|i: int|
            0 <= i < s.len() && (#[trigger] s[i]).1.all_spec().contains(v) by {
            if Tree::all_children_spec(s).contains(v) {
                if s[0].1.all_spec().contains(v) {
                    assert(0 <= 0 < s.len() && s[0].1.all_spec().contains(v));
                } else {
                    let i = choose|i: int|
                        0 <= i < t.len() && (#[trigger] t[i]).1.all_spec().contains(v);
                    assert(s[i + 1].1.all_spec().contains(v));
                }
            }
            if exists|i: int| 0 <= i < s.len() && (#[trigger] s[i]).1.all_spec().contains(v) {
                let i = choose|i: int|
                    0 <= i < s.len() && (#[trigger] s[i]).1.all_spec().contains(v);
                if i > 0 {
                    assert(t[i - 1] == s[i]);
                    assert(t[i - 1].1.all_spec().contains(v));
                    assert(Tree::all_children_spec(t).contains(v));
                }
            }
        }
    }
}

/// The enumeration lists exactly the stored values: a value stands in
/// `all_spec` precisely when some key stores it in the tree.
pub proof fn lemma_all_lists_stored_values<V>(t: Tree<V>)
    requires
        t.wf(),
    ensures
        forall|v: V| #[trigger] t.all_spec().contains(v) <==> exists|k: Seq<char>|
            #[trigger] t.spec_get(k) == Some(v),
    decreases t,
{
    let s = t.connections@;
    let valpart: Seq<V> = match t.val {
        Some(v0) => seq![v0],
        None => Seq::empty(),
    };
    lemma_children_values(s);
    lemma_contains_concat(valpart, Tree::all_children_spec(s));
    assert forall|v: V| #[trigger] t.all_spec().contains(v) <==> exists|k: Seq<char>|
        #[trigger] t.spec_get(k) == Some(v) by {
        if t.all_spec().contains(v) {
            if valpart.contains(v) {
                let k = Seq::<char>::empty();
                assert(t.spec_get(k) == Some(v));
            } else {
                let i = choose|i: int|
                    0 <= i < s.len() && (#[trigger] s[i]).1.all_spec().contains(v);
                lemma_all_lists_stored_values(*s[i].1);
                let k2 = choose|k2: Seq<char>| #[trigger] s[i].1.spec_get(k2) == Some(v);
                assert(forall|j: int| 0 <= j < i ==> (#[trigger] s[j]).0 != s[i].0);
                lemma_child_at(s, i, s[i].0);
                let k = seq![s[i].0] + k2;
                assert(k[0] == s[i].0);
                assert(k.drop_first() =~= k2);
                assert(t.spec_get(k) == Some(v));
            }
        }
        if exists|k: Seq<char>| #[trigger] t.spec_get(k) == Some(v) {
            let k = choose|k: Seq<char>| #[trigger] t.spec_get(k) == Some(v);
            if k.len() == 0 {
                assert(valpart[0] == v);
                assert(valpart.contains(v));
            } else {
                let ch = Tree::child_get(s, k[0])->0;
                lemma_child_get_member(s, k[0]);
                let i = choose|i: int| 0 <= i < s.len() && s[i] == (k[0], ch);
                lemma_all_lists_stored_values(*s[i].1);
                assert(s[i].1.spec_get(k.drop_first()) == Some(v));
                assert(s[i].1.all_spec().contains(v));
            }
        }
    }
}

/// A path-and-value pair appears below one of the children exactly when
/// one child's enumeration lists it.
proof fn lemma_children_paths<V>(s: Seq<(char, Box<Tree<V>>)>)
    requires
        forall|i: int| 0 <= i < s.len() ==> (#[trigger] s[i]).1.wf(),
    ensures
        forall|e: (Seq<char>, V)| #[trigger] Tree::all_path_children_spec(s).contains(e)
            <==> exists|i: int| 0 <= i < s.len() && (#[trigger] s[i]).1.all_path_spec().contains(
                e,
            ),
    decreases s,
{
    if s.len() > 0 {
        let t = s.drop_first();
        assert(forall|i: int| 0 <= i < t.len() ==> (#[trigger] t[i]).1.wf());
        lemma_children_paths(t);
        lemma_contains_concat(s[0].1.all_path_spec(), Tree::all_path_children_spec(t));
        assert forall|e: (Seq<char>, V)| #[trigger] Tree::all_path_children_spec(s).contains(e)
            <==> exists|i: int|
                0 <= i < s.len() && (#[trigger] s[i]).1.all_path_spec().contains(e) by {
            if Tree::all_path_children_spec(s).contains(e) {
                if s[0].1.all_path_spec().contains(e) {
                    assert(0 <= 0 < s.len() && s[0].1.all_path_spec().contains(e));
                } else {
                    let i = choose|i: int|
                        0 <= i < t.len() && (#[trigger] t[i]).1.all_path_spec().contains(e);
                    assert(s[i + 1].1.all_path_spec().contains(e));
                }
            }
            if exists|i: int| 0 <= i < s.len() && (#[trigger] s[i]).1.all_path_spec().contains(e) {
                let i = choose|i: int|
                    0 <= i < s.len() && (#[trigger] s[i]).1.all_path_spec().contains(e);
                if i > 0 {
                    assert(t[i - 1] == s[i]);
                    assert(t[i - 1].1.all_path_spec().contains(e));
                    assert(Tree::all_path_children_spec(t).contains(e));
                }
            }
        }
    }
}

/// The path enumeration lists exactly the stored entries: a pair stands
/// in `all_path_spec` precisely when its path extends the node's recorded
/// path by a key that stores its value.
pub proof fn lemma_all_path_lists_stored_entries<V>(t: Tree<V>)
    requires
        t.wf(),
    ensures
        forall|e: (Seq<char>, V)| #[trigger] t.all_path_spec().contains(e) <==> exists|
            k: Seq<char>,
        |
            e.0 == t.path@ + k && #[trigger] t.spec_get(k) == Some(e.1),
    decreases t,
{
    let s = t.connections@;
    let valpart: Seq<(Seq<char>, V)> = match t.val {
        Some(v0) => seq![(t.path@, v0)],
        None => Seq::empty(),
    };
    lemma_children_paths(s);
    lemma_contains_concat(valpart, Tree::all_path_children_spec(s));
    assert forall|e: (Seq<char>, V)| #[trigger] t.all_path_spec().contains(e) <==> exists|
        k: Seq<char>,
    |
        e.0 == t.path@ + k && #[trigger] t.spec_get(k) == Some(e.1) by {
        if t.all_path_spec().contains(e) {
            if valpart.contains(e) {
                let k = Seq::<char>::empty();
                assert(e.0 =~= t.path@ + k);
                assert(t.spec_get(k) == Some(e.1));
            } else {
                let i = choose|i: int|
                    0 <= i < s.len() && (#[trigger] s[i]).1.all_path_spec().contains(e);
                lemma_all_path_lists_stored_entries(*s[i].1);
                let k2 = choose|k2: Seq<char>|
                    e.0 == s[i].1.path@ + k2 && #[trigger] s[i].1.spec_get(k2) == Some(e.1);
                assert(forall|j: int| 0 <= j < i ==> (#[trigger] s[j]).0 != s[i].0);
                lemma_child_at(s, i, s[i].0);
                let k = seq![s[i].0] + k2;
                assert(k[0] == s[i].0);
                assert(k.drop_first() =~= k2);
                assert(t.spec_get(k) == Some(e.1));
                assert(e.0 =~= t.path@ + k) by {
                    assert(s[i].1.path@ == t.path@ + seq![s[i].0]);
                    assert((t.path@ + seq![s[i].0]) + k2 =~= t.path@ + (seq![s[i].0] + k2));
                }
            }
        }
        if exists|k: Seq<char>| e.0 == t.path@ + k && #[trigger] t.spec_get(k) == Some(e.1) {
            let k = choose|k: Seq<char>|
                e.0 == t.path@ + k && #[trigger] t.spec_get(k) == Some(e.1);
            if k.len() == 0 {
                assert(e.0 =~= t.path@);
                assert(valpart[0] == e);
                assert(valpart.contains(e));
            } else {
                let ch = Tree::child_get(s, k[0])->0;
                lemma_child_get_member(s, k[0]);
                let i = choose|i: int| 0 <= i < s.len() && s[i] == (k[0], ch);
                lemma_all_path_lists_stored_entries(*s[i].1);
                assert(s[i].1.spec_get(k.drop_first()) == Some(e.1));
                assert(e.0 =~= s[i].1.path@ + k.drop_first()) by {
                    assert(s[i].1.path@ == t.path@ + seq![s[i].0]);
                    assert(seq![k[0]] + k.drop_first() =~= k);
                    assert((t.path@ + seq![s[i].0]) + k.drop_first() =~= t.path@ + (seq![s[i].0]
                        + k.drop_first()));
                }
                assert(s[i].1.all_path_spec().contains(e));
            }
        }
    }
}

/// Turns a character vector into a string.
fn chars_to_string(v: &Vec<char>) -> (r: String)
    ensures
        r@ == v@,
{
    let mut r = String::new();
    let mut i: usize = 0;
    while i < v.len()
        invariant
            i <= v@.len(),
            r@ == v@.take(i as int),
        decreases v@.len() - i,
    {
        r.push(v[i]);
        proof {
            assert(r@ =~= v@.take(i as int + 1));
        }
        i = i + 1;
    }
    proof {
        assert(v@.take(v@.len() as int) =~= v@);
    }
    r
}

/// The characters of a string, in order.
pub(crate) fn str_chars(s: &str) -> (r: Vec<char>)
    ensures
        r@ == s@,
{
    let n = s.unicode_len();
    let mut r: Vec<char> = Vec::new();
    let mut i: usize = 0;
    while i < n
        invariant
            n == s@.len(),
            i <= n,
            r@ == s@.take(i as int),
        decreases n - i,
    {
        r.push(s.get_char(i));
        proof {
            assert(r@ =~= s@.take(i as int + 1));
        }
        i = i + 1;
    }
    proof {
        assert(s@.take(n as int) =~= s@);
    }
    r
}

/// `all_children_spec` unrolled from the tail.
proof fn lemma_all_children_snoc<V>(s: Seq<(char, Box<Tree<V>>)>, j: int)
    requires
        0 <= j < s.len(),
    ensures
        Tree::all_children_spec(s.take(j + 1)) == Tree::all_children_spec(s.take(j))
            + s[j].1.all_spec(),
    decreases j,
{
    if j == 0 {
        assert(s.take(1).drop_first() =~= Seq::<(char, Box<Tree<V>>)>::empty());
        assert(s.take(0) =~= Seq::<(char, Box<Tree<V>>)>::empty());
        assert(s.take(1)[0] == s[0]);
        assert(Tree::all_children_spec(s.take(1)) == s[0].1.all_spec()
            + Tree::all_children_spec(s.take(1).drop_first()));
        assert(Tree::all_children_spec(s.take(1)) =~= Tree::all_children_spec(s.take(0))
            + s[0].1.all_spec());
    } else {
        lemma_all_children_snoc(s.drop_first(), j - 1);
        assert(s.take(j + 1).drop_first() =~= s.drop_first().take(j));
        assert(s.take(j).drop_first() =~= s.drop_first().take(j - 1));
        assert(s.take(j + 1)[0] == s[0]);
        assert(s.take(j)[0] == s[0]);
        assert(s.drop_first()[j - 1] == s[j]);
        assert(s[0].1.all_spec() + (Tree::all_children_spec(s.drop_first().take(j - 1))
            + s[j].1.all_spec()) =~= (s[0].1.all_spec() + Tree::all_children_spec(
            s.drop_first().take(j - 1),
        )) + s[j].1.all_spec());
    }
}

/// `all_path_children_spec` unrolled from the tail.
proof fn lemma_all_path_children_snoc<V>(s: Seq<(char, Box<Tree<V>>)>, j: int)
    requires
        0 <= j < s.len(),
    ensures
        Tree::all_path_children_spec(s.take(j + 1)) == Tree::all_path_children_spec(s.take(j))
            + s[j].1.all_path_spec(),
    decreases j,
{
    if j == 0 {
        assert(s.take(1).drop_first() =~= Seq::<(char, Box<Tree<V>>)>::empty());
        assert(s.take(0) =~= Seq::<(char, Box<Tree<V>>)>::empty());
        assert(s.take(1)[0] == s[0]);
        assert(Tree::all_path_children_spec(s.take(1)) == s[0].1.all_path_spec()
            + Tree::all_path_children_spec(s.take(1).drop_first()));
        assert(Tree::all_path_children_spec(s.take(1)) =~= Tree::all_path_children_spec(
            s.take(0),
        ) + s[0].1.all_path_spec());
    } else {
        lemma_all_path_children_snoc(s.drop_first(), j - 1);
        assert(s.take(j + 1).drop_first() =~= s.drop_first().take(j));
        assert(s.take(j).drop_first() =~= s.drop_first().take(j - 1));
        assert(s.take(j + 1)[0] == s[0]);
        assert(s.take(j)[0] == s[0]);
        assert(s.drop_first()[j - 1] == s[j]);
        assert(s[0].1.all_path_spec() + (Tree::all_path_children_spec(s.drop_first().take(j - 1))
            + s[j].1.all_path_spec()) =~= (s[0].1.all_path_spec() + Tree::all_path_children_spec(
            s.drop_first().take(j - 1),
        )) + s[j].1.all_path_spec());
    }
}

/// Copies a character vector.
fn clone_chars(v: &Vec<char>) -> (r: Vec<char>)
    ensures
        r@ == v@,
{
    let mut r: Vec<char> = Vec::new();
    let mut i: usize = 0;
    while i < v.len()
        invariant
            i <= v@.len(),
            r@ == v@.take(i as int),
        decreases v@.len() - i,
    {
        r.push(v[i]);
        proof {
            assert(r@ =~= v@.take(i as int + 1));
        }
        i = i + 1;
    }
    proof {
        assert(v@.take(v@.len() as int) =~= v@);
    }
    r
}

/// Copies a character vector and appends one character.
fn push_char(v: &Vec<char>, c: char) -> (r: Vec<char>)
    ensures
        r@ == v@.push(c),
{
    let mut r: Vec<char> = Vec::new();
    let mut i: usize = 0;
    while i < v.len()
        invariant
            i <= v@.len(),
            r@ == v@.take(i as int),
        decreases v@.len() - i,
    {
        r.push(v[i]);
        proof {
            assert(r@ =~= v@.take(i as int + 1));
        }
        i = i + 1;
    }
    proof {
        assert(v@.take(v@.len() as int) =~= v@);
    }
    r.push(c);
    r
}

/// Replacing the child at a position by one with the same character
/// changes only that character's lookup.
proof fn lemma_child_update<V>(
    s0: Seq<(char, Box<Tree<V>>)>,
    s1: Seq<(char, Box<Tree<V>>)>,
    j: int,
    c: char,
)
    requires
        0 <= j < s0.len(),
        s1 == s0.update(j, (c, s1[j].1)),
        s0[j].0 == c,
        forall|k: int| 0 <= k < j ==> (#[trigger] s0[k]).0 != c,
    ensures
        Tree::child_get(s1, c) == Some(s1[j].1),
        forall|d: char| d != c ==> Tree::child_get(s1, d) == Tree::child_get(s0, d),
    decreases s0.len(),
{
    assert(s1[j].0 == c);
    if j == 0 {
        assert(Tree::child_get(s1, c) == Some(s1[0].1));
        assert forall|d: char| d != c
            implies Tree::child_get(s1, d) == Tree::child_get(s0, d) by {
            assert(s1.drop_first() =~= s0.drop_first());
        }
    } else {
        let t0 = s0.drop_first();
        let t1 = s1.drop_first();
        assert(t1 =~= t0.update(j - 1, (c, t1[j - 1].1)));
        assert(forall|k: int| 0 <= k < j - 1 ==> (#[trigger] t0[k]).0 != c);
        lemma_child_update(t0, t1, j - 1, c);
        assert(s1[0] == s0[0]);
        assert(s0[0].0 != c);
        assert(s1[j].1 == t1[j - 1].1);
        assert(Tree::child_get(s1, c) == Some(s1[j].1));
        assert forall|d: char| d != c
            implies Tree::child_get(s1, d) == Tree::child_get(s0, d) by {
            if s0[0].0 != d {
                assert(Tree::child_get(s1, d) == Tree::child_get(t1, d));
                assert(Tree::child_get(s0, d) == Tree::child_get(t0, d));
            }
        }
    }
}

/// Inserting a child with a fresh character adds that character's lookup
/// and changes no other.
proof fn lemma_child_insert<V>(
    s0: Seq<(char, Box<Tree<V>>)>,
    s1: Seq<(char, Box<Tree<V>>)>,
    j: int,
    c: char,
    e: Box<Tree<V>>,
)
    requires
        0 <= j <= s0.len(),
        s1 == s0.insert(j, (c, e)),
        forall|k: int| 0 <= k < s0.len() ==> (#[trigger] s0[k]).0 != c,
    ensures
        Tree::child_get(s1, c) == Some(e),
        forall|d: char| d != c ==> Tree::child_get(s1, d) == Tree::child_get(s0, d),
    decreases s0.len(),
{
    if j == 0 {
        assert(s1[0] == (c, e));
        assert forall|d: char| d != c
            implies Tree::child_get(s1, d) == Tree::child_get(s0, d) by {
            assert(s1.drop_first() =~= s0);
        }
    } else {
        let t0 = s0.drop_first();
        let t1 = s1.drop_first();
        assert(t1 =~= t0.insert(j - 1, (c, e)));
        assert(forall|k: int| 0 <= k < t0.len() ==> (#[trigger] t0[k]).0 != c);
        lemma_child_insert(t0, t1, j - 1, c, e);
        assert(s1[0] == s0[0]);
        assert(s0[0].0 != c);
        assert(Tree::child_get(s1, c) == Some(e));
        assert forall|d: char| d != c
            implies Tree::child_get(s1, d) == Tree::child_get(s0, d) by {
            if s0[0].0 != d {
                assert(Tree::child_get(s1, d) == Tree::child_get(t1, d));
                assert(Tree::child_get(s0, d) == Tree::child_get(t0, d));
            }
        }
    }
}

/// A map over a vector of key-value pairs kept sorted by key, so that
/// entries can also be reached by position.
///
/// The contracts speak under [`vstd::laws_cmp::obeys_cmp`]: where the key
/// type's comparison does not obey the documented total order — say, a
/// hand-written `Ord` — the operations still run but promise nothing of
/// their results.
pub struct OrderedMap<K, V> {
    pub entries: Vec<(K, V)>,
}

impl<K: Ord, V> OrderedMap<K, V> {
    /// The entries are sorted by strictly ascending key.
    pub open spec fn wf(self) -> bool {
        vstd::laws_cmp::obeys_cmp::<K>() ==> forall|i: int, j: int|
            0 <= i < j < self.entries@.len()
                ==> (#[trigger] self.entries@[i]).0.cmp_spec(&(#[trigger] self.entries@[j]).0)
                    is Less
    }

    /// The empty map.
    pub fn new() -> (r: OrderedMap<K, V>)
        ensures
            r.entries@.len() == 0,
            r.wf(),
    {
        OrderedMap { entries: Vec::new() }
    }

    /// The entries, in ascending key order.
    pub fn entries(&self) -> (r: &Vec<(K, V)>)
        ensures
            r@ == self.entries@,
    {
        &self.entries
    }

    /// How many entries the map holds.
    pub fn len(&self) -> (r: usize)
        ensures
            r == self.entries@.len(),
    {
        self.entries.len()
    }

    /// The entry at the given position.
    pub fn entry_at(&self, i: usize) -> (r: &(K, V))
        requires
            i < self.entries@.len(),
        ensures
            *r == self.entries@[i as int],
    {
        &self.entries[i]
    }

    /// The first position whose key does not compare below the given one:
    /// `Ok` at a matching key, `Err` at the position such a key would
    /// take.
    #[verifier::loop_isolation(false)]
    fn search(&self, key: &K) -> (r: Result<usize, usize>)
        ensures
            r matches Ok(i) ==> i < self.entries@.len(),
            r matches Err(i) ==> i <= self.entries@.len(),
            vstd::laws_cmp::obeys_cmp::<K>() ==> match r {
                Ok(i) => i < self.entries@.len() && self.entries@[i as int].0.cmp_spec(key)
                    is Equal && (forall|k: int|
                    0 <= k < i ==> (#[trigger] self.entries@[k]).0.cmp_spec(key) is Less),
                Err(i) => i <= self.entries@.len() && (forall|k: int|
                    0 <= k < i ==> (#[trigger] self.entries@[k]).0.cmp_spec(key) is Less) && (i
                    < self.entries@.len()
                    ==> self.entries@[i as int].0.cmp_spec(key) is Greater),
            },
    {
        proof {
            reveal(vstd::laws_cmp::obeys_cmp_ord);
        }
        let n = self.entries.len();
        let mut j: usize = 0;
        while j < n
            invariant
                n == self.entries@.len(),
                j <= n,
                vstd::laws_cmp::obeys_cmp::<K>() ==> forall|k: int|
                    0 <= k < j ==> (#[trigger] self.entries@[k]).0.cmp_spec(key) is Less,
            decreases n - j,
        {
            match self.entries[j].0.cmp(key) {
                core::cmp::Ordering::Less => {
                    j = j + 1;
                },
                core::cmp::Ordering::Equal => {
                    return Ok(j);
                },
                core::cmp::Ordering::Greater => {
                    return Err(j);
                },
            }
        }
        Err(n)
    }

    /// The position of the entry with the given key, where one exists.
    pub fn key_index(&self, key: &K) -> (r: Option<usize>)
        ensures
            r matches Some(i) ==> i < self.entries@.len(),
            vstd::laws_cmp::obeys_cmp::<K>() ==> match r {
                Some(i) => i < self.entries@.len() && self.entries@[i as int].0.cmp_spec(key)
                    is Equal,
                None => self.wf() ==> forall|k: int|
                    0 <= k < self.entries@.len()
                        ==> !((#[trigger] self.entries@[k]).0.cmp_spec(key) is Equal),
            },
    {
        match self.search(key) {
            Ok(i) => Some(i),
            Err(i) => {
                proof {
                    if vstd::laws_cmp::obeys_cmp::<K>() && self.wf() {
                        Self::lemma_no_match(*self, *key, i as int);
                    }
                }
                None
            },
        }
    }

    /// Where the search stops without a match, no later entry matches
    /// either.
    proof fn lemma_no_match(m: OrderedMap<K, V>, key: K, i: int)
        requires
            vstd::laws_cmp::obeys_cmp::<K>(),
            m.wf(),
            0 <= i <= m.entries@.len(),
            forall|k: int| 0 <= k < i ==> (#[trigger] m.entries@[k]).0.cmp_spec(&key) is Less,
            i < m.entries@.len() ==> m.entries@[i].0.cmp_spec(&key) is Greater,
        ensures
            forall|k: int| 0 <= k < m.entries@.len()
                ==> !((#[trigger] m.entries@[k]).0.cmp_spec(&key) is Equal),
    {
        reveal(vstd::laws_cmp::obeys_partial_cmp_spec_properties);
        reveal(vstd::laws_cmp::obeys_cmp_ord);
        assert forall|k: int| 0 <= k < m.entries@.len()
            implies !((#[trigger] m.entries@[k]).0.cmp_spec(&key) is Equal) by {
            if k >= i {
                let ei = m.entries@[i].0;
                let ek = m.entries@[k].0;
                assert(ei.partial_cmp_spec(&key) == Some(ei.cmp_spec(&key)));
                if k > i {
                    assert(ei.cmp_spec(&ek) is Less);
                    assert(ei.partial_cmp_spec(&ek) == Some(ei.cmp_spec(&ek)));
                    assert(ek.partial_cmp_spec(&ei) == Some(core::cmp::Ordering::Greater));
                    assert(ek.partial_cmp_spec(&key) == Some(core::cmp::Ordering::Greater));
                    assert(ek.partial_cmp_spec(&key) == Some(ek.cmp_spec(&key)));
                }
            }
        }
    }

    /// Stores the value under the key: an entry whose key compares equal
    /// keeps its place and yields its old value back, paired with the key
    /// just given; otherwise the entry enters at its sorted position.
    pub fn insert(&mut self, key: K, value: V) -> (r: Option<(K, V)>)
        requires
            old(self).wf(),
        ensures
            final(self).wf(),
            vstd::laws_cmp::obeys_cmp::<K>() ==> match r {
                Some(p) => exists|i: int|
                    0 <= i < old(self).entries@.len()
                        && (#[trigger] old(self).entries@[i]).0.cmp_spec(&p.0) is Equal
                        && p.1 == old(self).entries@[i].1 && final(self).entries@ == old(
                        self,
                    ).entries@.update(i, (old(self).entries@[i].0, value)),
                None => (exists|i: int|
                    0 <= i <= old(self).entries@.len() && final(self).entries@ == (
                    #[trigger] old(self).entries@.insert(i, (key, value)))) && (forall|k: int|
                    0 <= k < old(self).entries@.len()
                        ==> !((#[trigger] old(self).entries@[k]).0.cmp_spec(&key) is Equal)),
            },
    {
        match self.search(&key) {
            Ok(i) => {
                let ghost s0 = self.entries@;
                let old_entry = self.entries.remove(i);
                let ghost ok = old_entry.0;
                self.entries.insert(i, (old_entry.0, value));
                proof {
                    assert(final(self).entries@ =~= s0.update(i as int, (ok, value)));
                    if vstd::laws_cmp::obeys_cmp::<K>() {
                        assert forall|a: int, b: int|
                            0 <= a < b < final(self).entries@.len()
                            implies (#[trigger] final(self).entries@[a]).0.cmp_spec(
                            &(#[trigger] final(self).entries@[b]).0,
                        ) is Less by {
                            assert(final(self).entries@[a].0 == s0[a].0);
                            assert(final(self).entries@[b].0 == s0[b].0);
                        }
                    }
                }
                Some((key, old_entry.1))
            },
            Err(i) => {
                let ghost s0 = self.entries@;
                self.entries.insert(i, (key, value));
                proof {
                    let s1 = final(self).entries@;
                    assert(s1 =~= s0.insert(i as int, (key, value)));
                    if vstd::laws_cmp::obeys_cmp::<K>() {
                        Self::lemma_no_match(*old(self), key, i as int);
                        reveal(vstd::laws_cmp::obeys_partial_cmp_spec_properties);
                        reveal(vstd::laws_cmp::obeys_cmp_ord);
                        assert forall|a: int, b: int| 0 <= a < b < s1.len()
                            implies (#[trigger] s1[a]).0.cmp_spec(&(#[trigger] s1[b]).0)
                                is Less by {
                            if a < i && b == i {
                                assert(s1[a].0 == s0[a].0);
                                assert(s0[a].0.cmp_spec(&key) is Less);
                            } else if a == i && b > i {
                                let eb = s0[b - 1].0;
                                assert(s1[b].0 == eb);
                                if i < s0.len() {
                                    let ei = s0[i as int].0;
                                    assert(ei.cmp_spec(&key) is Greater);
                                    assert(ei.partial_cmp_spec(&key) == Some(ei.cmp_spec(&key)));
                                    assert(key.partial_cmp_spec(&ei) == Some(
                                        core::cmp::Ordering::Less,
                                    ));
                                    if b - 1 > i {
                                        assert(ei.cmp_spec(&eb) is Less);
                                        assert(ei.partial_cmp_spec(&eb) == Some(
                                            ei.cmp_spec(&eb),
                                        ));
                                        assert(key.partial_cmp_spec(&eb) == Some(
                                            core::cmp::Ordering::Less,
                                        ));
                                    } else {
                                        assert(key.partial_cmp_spec(&eb) == Some(
                                            core::cmp::Ordering::Less,
                                        ));
                                    }
                                    assert(key.partial_cmp_spec(&eb) == Some(key.cmp_spec(&eb)));
                                }
                            } else if a < i && b > i {
                                assert(s1[a].0 == s0[a].0 && s1[b].0 == s0[b - 1].0);
                            } else if a > i && b > i {
                                assert(s1[a].0 == s0[a - 1].0 && s1[b].0 == s0[b - 1].0);
                            } else {
                                assert(s1[a].0 == s0[a].0 && s1[b].0 == s0[b].0);
                            }
                        }
                    }
                }
                None
            },
        }
    }

    /// Removes the entry whose key compares equal, where one exists, and
    /// yields it back.
    pub fn remove(&mut self, key: &K) -> (r: Option<(K, V)>)
        requires
            old(self).wf(),
        ensures
            final(self).wf(),
            vstd::laws_cmp::obeys_cmp::<K>() ==> match r {
                Some(p) => exists|i: int|
                    0 <= i < old(self).entries@.len() && p == (#[trigger] old(self).entries@[i])
                        && p.0.cmp_spec(key) is Equal && final(self).entries@ == old(
                        self,
                    ).entries@.remove(i),
                None => *final(self) == *old(self) && (old(self).wf() ==> forall|k: int|
                    0 <= k < old(self).entries@.len()
                        ==> !((#[trigger] old(self).entries@[k]).0.cmp_spec(key) is Equal)),
            },
    {
        match self.key_index(key) {
            Some(i) => {
                let ghost s0 = self.entries@;
                let e = self.entries.remove(i);
                proof {
                    if vstd::laws_cmp::obeys_cmp::<K>() {
                        assert forall|a: int, b: int|
                            0 <= a < b < final(self).entries@.len()
                            implies (#[trigger] final(self).entries@[a]).0.cmp_spec(
                            &(#[trigger] final(self).entries@[b]).0,
                        ) is Less by {
                            assert(final(self).entries@[a] == if a < i {
                                s0[a]
                            } else {
                                s0[a + 1]
                            });
                            assert(final(self).entries@[b] == if b < i {
                                s0[b]
                            } else {
                                s0[b + 1]
                            });
                        }
                    }
                }
                Some(e)
            },
            None => None,
        }
    }

    /// The entry whose key compares equal, where one exists.
    pub fn get_entry(&self, key: &K) -> (r: Option<&(K, V)>)
        ensures
            vstd::laws_cmp::obeys_cmp::<K>() ==> match r {
                Some(e) => exists|i: int|
                    0 <= i < self.entries@.len() && *e == (#[trigger] self.entries@[i])
                        && e.0.cmp_spec(key) is Equal,
                None => self.wf() ==> forall|k: int|
                    0 <= k < self.entries@.len()
                        ==> !((#[trigger] self.entries@[k]).0.cmp_spec(key) is Equal),
            },
    {
        match self.key_index(key) {
            Some(i) => Some(&self.entries[i]),
            None => None,
        }
    }

    /// The value stored under the key, where one is.
    pub fn value(&self, key: &K) -> (r: Option<&V>)
        ensures
            vstd::laws_cmp::obeys_cmp::<K>() ==> match r {
                Some(v) => exists|i: int|
                    0 <= i < self.entries@.len() && *v == (#[trigger] self.entries@[i]).1
                        && self.entries@[i].0.cmp_spec(key) is Equal,
                None => self.wf() ==> forall|k: int|
                    0 <= k < self.entries@.len()
                        ==> !((#[trigger] self.entries@[k]).0.cmp_spec(key) is Equal),
            },
    {
        match self.get_entry(key) {
            Some(e) => Some(&e.1),
            None => None,
        }
    }
}

} // verus!
