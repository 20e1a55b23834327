//! The raw variable set: the flat key/value configuration mapping that
//! resolution consumes, and the environment-wins merge that builds it
//! from the process environment and an optional file overlay.

use vstd::prelude::*;
use crate::text::str_eq;

verus! {

/// Some pair of `ps` binds the key `k`.
closed spec fn has_key(ps: Seq<(String, String)>, k: Seq<char>) -> bool {
    exists|i: int| 0 <= i < ps.len() && (#[trigger] ps[i]).0@ == k
}

/// An index of `ps` whose pair binds the key `k`.
closed spec fn key_index(ps: Seq<(String, String)>, k: Seq<char>) -> int {
    choose|i: int| 0 <= i < ps.len() && (#[trigger] ps[i]).0@ == k
}

/// The mapping that a pair sequence denotes.
closed spec fn pairs_map(ps: Seq<(String, String)>) -> Map<Seq<char>, Seq<char>> {
    Map::new(|k: Seq<char>| has_key(ps, k), |k: Seq<char>| ps[key_index(ps, k)].1@)
}

/// No two pairs bind the same key.
closed spec fn seq_wf(ps: Seq<(String, String)>) -> bool {
    forall|i: int, j: int|
        0 <= i < j < ps.len() ==> (#[trigger] ps[i]).0@ != (#[trigger] ps[j]).0@
}

proof fn lemma_key_index(ps: Seq<(String, String)>, k: Seq<char>)
    requires
        has_key(ps, k),
    ensures
        0 <= key_index(ps, k) < ps.len(),
        ps[key_index(ps, k)].0@ == k,
{
}

/// In a well-formed pair sequence, the pair at any index gives the value
/// that the denoted mapping assigns to its key.
proof fn lemma_pairs_map_index(ps: Seq<(String, String)>, i: int)
    requires
        seq_wf(ps),
        0 <= i < ps.len(),
    ensures
        pairs_map(ps).dom().contains(ps[i].0@),
        pairs_map(ps)[ps[i].0@] == ps[i].1@,
{
    assert(has_key(ps, ps[i].0@));
    lemma_key_index(ps, ps[i].0@);
    let j = key_index(ps, ps[i].0@);
    if j != i {
        assert(ps[i].0@ != ps[j].0@);
    }
}

/// Appending a pair with a fresh key inserts its binding.
proof fn lemma_pairs_map_push(ps: Seq<(String, String)>, p: (String, String))
    requires
        seq_wf(ps),
        forall|i: int| 0 <= i < ps.len() ==> (#[trigger] ps[i]).0@ != p.0@,
    ensures
        seq_wf(ps.push(p)),
        pairs_map(ps.push(p)) == pairs_map(ps).insert(p.0@, p.1@),
{
    let ps2 = ps.push(p);
    assert forall|i: int, j: int| 0 <= i < j < ps2.len() implies (#[trigger] ps2[i]).0@ != (
    #[trigger] ps2[j]).0@ by {
        if j < ps.len() {
            assert(ps[i].0@ != ps[j].0@);
        } else {
            assert(ps2[j] == p);
            assert(ps2[i] == ps[i]);
        }
    }
    let m1 = pairs_map(ps2);
    let m2 = pairs_map(ps).insert(p.0@, p.1@);
    assert forall|k: Seq<char>| m1.dom().contains(k) <==> m2.dom().contains(k) by {
        if k == p.0@ {
            assert(ps2[ps.len() as int].0@ == k);
            assert(has_key(ps2, k));
        } else {
            if has_key(ps2, k) {
                lemma_key_index(ps2, k);
                let i = key_index(ps2, k);
                assert(i < ps.len());
                assert(ps[i] == ps2[i]);
                assert(has_key(ps, k));
            }
            if has_key(ps, k) {
                lemma_key_index(ps, k);
                let i = key_index(ps, k);
                assert(ps2[i] == ps[i]);
                assert(has_key(ps2, k));
            }
        }
    }
    assert forall|k: Seq<char>| m1.dom().contains(k) implies m1[k] == m2[k] by {
        lemma_key_index(ps2, k);
        let i = key_index(ps2, k);
        if k == p.0@ {
            if i < ps.len() {
                assert(ps2[i] == ps[i]);
                assert(ps[i].0@ != p.0@);
            }
            assert(i == ps.len());
            assert(m1[k] == p.1@);
        } else {
            assert(i < ps.len());
            assert(ps2[i] == ps[i]);
            lemma_pairs_map_index(ps, i);
        }
    }
    assert(m1 =~= m2);
}

/// Replacing the value at index `i` updates the binding of its key.
proof fn lemma_pairs_map_update(ps: Seq<(String, String)>, i: int, p: (String, String))
    requires
        seq_wf(ps),
        0 <= i < ps.len(),
        p.0@ == ps[i].0@,
    ensures
        seq_wf(ps.update(i, p)),
        pairs_map(ps.update(i, p)) == pairs_map(ps).insert(p.0@, p.1@),
{
    let ps2 = ps.update(i, p);
    assert forall|a: int, b: int| 0 <= a < b < ps2.len() implies (#[trigger] ps2[a]).0@ != (
    #[trigger] ps2[b]).0@ by {
        assert(ps[a].0@ != ps[b].0@);
        assert(ps2[a].0@ == ps[a].0@);
        assert(ps2[b].0@ == ps[b].0@);
    }
    let m1 = pairs_map(ps2);
    let m2 = pairs_map(ps).insert(p.0@, p.1@);
    assert forall|k: Seq<char>| m1.dom().contains(k) <==> m2.dom().contains(k) by {
        if has_key(ps2, k) {
            lemma_key_index(ps2, k);
            let a = key_index(ps2, k);
            assert(ps2[a].0@ == ps[a].0@);
            assert(has_key(ps, k));
        }
        if has_key(ps, k) {
            lemma_key_index(ps, k);
            let a = key_index(ps, k);
            assert(ps2[a].0@ == ps[a].0@);
            assert(has_key(ps2, k));
        }
        if k == p.0@ {
            assert(has_key(ps, k));
        }
    }
    assert forall|k: Seq<char>| m1.dom().contains(k) implies m1[k] == m2[k] by {
        lemma_key_index(ps2, k);
        let a = key_index(ps2, k);
        if k == p.0@ {
            if a != i {
                assert(ps2[a].0@ == ps[a].0@);
                assert(ps[a].0@ != ps[i].0@);
            }
            assert(a == i);
            assert(m1[k] == p.1@);
        } else {
            assert(a != i);
            assert(ps2[a] == ps[a]);
            lemma_pairs_map_index(ps, a);
        }
    }
    assert(m1 =~= m2);
}

/// The merged, flat key/value configuration mapping that resolution
/// consumes: each variable name bound to its textual value, keys unique.
pub struct RawVariableSet {
    pairs: Vec<(String, String)>,
}

impl View for RawVariableSet {
    type V = Map<Seq<char>, Seq<char>>;

    closed spec fn view(&self) -> Map<Seq<char>, Seq<char>> {
        pairs_map(self.pairs@)
    }
}

impl RawVariableSet {
    /// Keys are unique, so each name denotes at most one value.
    pub closed spec fn wf(&self) -> bool {
        seq_wf(self.pairs@)
    }

    /// The empty variable set.
    pub fn new() -> (r: RawVariableSet)
        ensures
            r.wf(),
            r@ == Map::<Seq<char>, Seq<char>>::empty(),
    {
        let r = RawVariableSet { pairs: Vec::new() };
        proof {
            assert(r@ =~= Map::<Seq<char>, Seq<char>>::empty());
        }
        r
    }

    /// The index of the pair binding `name`, if one exists.
    fn find_index(&self, name: &str) -> (r: Option<usize>)
        ensures
            match r {
                Some(i) => i < self.pairs@.len() && self.pairs@[i as int].0@ == name@,
                None => forall|j: int|
                    0 <= j < self.pairs@.len() ==> (#[trigger] self.pairs@[j]).0@ != name@,
            },
    {
        let n = self.pairs.len();
        let mut i: usize = 0;
        while i < n
            invariant
                n == self.pairs@.len(),
                0 <= i <= n,
                forall|j: int| 0 <= j < i ==> (#[trigger] self.pairs@[j]).0@ != name@,
            decreases n - i,
        {
            if str_eq(self.pairs[i].0.as_str(), name) {
                return Some(i);
            }
            i += 1;
        }
        None
    }

    /// The value bound to `name`, if any.
    pub fn get<'a>(&'a self, name: &str) -> (r: Option<&'a String>)
        requires
            self.wf(),
        ensures
            match r {
                Some(v) => self@.dom().contains(name@) && v@ == self@[name@],
                None => !self@.dom().contains(name@),
            },
    {
        match self.find_index(name) {
            Some(i) => {
                proof {
                    lemma_pairs_map_index(self.pairs@, i as int);
                }
                Some(&self.pairs[i].1)
            },
            None => {
                proof {
                    if has_key(self.pairs@, name@) {
                        lemma_key_index(self.pairs@, name@);
                    }
                }
                None
            },
        }
    }

    /// Binds `key` to `value`, replacing any earlier binding.
    pub fn insert(&mut self, key: String, value: String)
        requires
            old(self).wf(),
        ensures
            final(self).wf(),
            final(self)@ == old(self)@.insert(key@, value@),
    {
        match self.find_index(key.as_str()) {
            Some(i) => {
                proof {
                    lemma_pairs_map_update(self.pairs@, i as int, (key, value));
                }
                self.pairs[i] = (key, value);
            },
            None => {
                proof {
                    lemma_pairs_map_push(self.pairs@, (key, value));
                }
                self.pairs.push((key, value));
            },
        }
    }

    /// Binds `key` to `value` only when `key` is not yet bound: the
    /// fill-in-only-if-absent step of the merge.
    pub fn insert_if_absent(&mut self, key: String, value: String)
        requires
            old(self).wf(),
        ensures
            final(self).wf(),
            final(self)@ == if old(self)@.dom().contains(key@) {
                old(self)@
            } else {
                old(self)@.insert(key@, value@)
            },
    {
        match self.find_index(key.as_str()) {
            Some(i) => {
                proof {
                    lemma_pairs_map_index(self.pairs@, i as int);
                }
            },
            None => {
                proof {
                    if has_key(self.pairs@, key@) {
                        lemma_key_index(self.pairs@, key@);
                    }
                    lemma_pairs_map_push(self.pairs@, (key, value));
                }
                self.pairs.push((key, value));
            },
        }
    }
}

/// Merges a file-provided overlay into an environment snapshot; the
/// environment is authoritative, so a file binding is taken only for
/// names the environment lacks.
pub fn merge_env_wins(env: &RawVariableSet, file: &RawVariableSet) -> (r: RawVariableSet)
    requires
        env.wf(),
        file.wf(),
    ensures
        r.wf(),
        r@ == file@.union_prefer_right(env@),
{
    let mut r = RawVariableSet::new();
    let n = env.pairs.len();
    let mut i: usize = 0;
    while i < n
        invariant
            env.wf(),
            n == env.pairs@.len(),
            0 <= i <= n,
            r.wf(),
            r@ == pairs_map(env.pairs@.take(i as int)),
        decreases n - i,
    {
        let key = env.pairs[i].0.clone();
        let value = env.pairs[i].1.clone();
        proof {
            let pre = env.pairs@.take(i as int);
            assert forall|j: int| 0 <= j < pre.len() implies (#[trigger] pre[j]).0@ != key@ by {
                assert(pre[j] == env.pairs@[j]);
                assert(env.pairs@[j].0@ != env.pairs@[i as int].0@);
            }
            assert(seq_wf(pre)) by {
                assert forall|a: int, b: int| 0 <= a < b < pre.len() implies (#[trigger] pre[a]).0@
                    != (#[trigger] pre[b]).0@ by {
                    assert(pre[a] == env.pairs@[a]);
                    assert(pre[b] == env.pairs@[b]);
                }
            }
            lemma_pairs_map_push(pre, (key, value));
            assert(pre.push((key, value)) =~= env.pairs@.take(i + 1));
        }
        r.insert(key, value);
        i += 1;
    }
    proof {
        assert(env.pairs@.take(n as int) =~= env.pairs@);
    }
    let m = file.pairs.len();
    let mut j: usize = 0;
    while j < m
        invariant
            env.wf(),
            file.wf(),
            m == file.pairs@.len(),
            0 <= j <= m,
            r.wf(),
            r@ == pairs_map(file.pairs@.take(j as int)).union_prefer_right(env@),
        decreases m - j,
    {
        let key = file.pairs[j].0.clone();
        let value = file.pairs[j].1.clone();
        let ghost pre = file.pairs@.take(j as int);
        let ghost r_old = r@;
        proof {
            assert forall|a: int| 0 <= a < pre.len() implies (#[trigger] pre[a]).0@ != key@ by {
                assert(pre[a] == file.pairs@[a]);
                assert(file.pairs@[a].0@ != file.pairs@[j as int].0@);
            }
            assert(seq_wf(pre)) by {
                assert forall|a: int, b: int| 0 <= a < b < pre.len() implies (#[trigger] pre[a]).0@
                    != (#[trigger] pre[b]).0@ by {
                    assert(pre[a] == file.pairs@[a]);
                    assert(pre[b] == file.pairs@[b]);
                }
            }
            lemma_pairs_map_push(pre, (key, value));
            assert(pre.push((key, value)) =~= file.pairs@.take(j + 1));
            if has_key(pre, key@) {
                lemma_key_index(pre, key@);
            }
        }
        r.insert_if_absent(key, value);
        proof {
            let post = file.pairs@.take(j + 1);
            if r_old.dom().contains(key@) {
                assert(env@.dom().contains(key@));
                assert(pairs_map(post).union_prefer_right(env@) =~= r_old);
            } else {
                assert(pairs_map(post).union_prefer_right(env@) =~= r_old.insert(key@, value@));
            }
        }
        j += 1;
    }
    proof {
        assert(file.pairs@.take(m as int) =~= file.pairs@);
    }
    r
}

/// Environment precedence: after the environment-wins merge, every name
/// that the environment binds keeps the environment's value unchanged.
pub proof fn lemma_environment_precedence(
    env: Map<Seq<char>, Seq<char>>,
    file: Map<Seq<char>, Seq<char>>,
    k: Seq<char>,
)
    requires
        env.dom().contains(k),
    ensures
        file.union_prefer_right(env).dom().contains(k),
        file.union_prefer_right(env)[k] == env[k],
{
}

} // verus!
