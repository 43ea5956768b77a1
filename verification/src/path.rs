//! Absolute paths as sequences of components.
//!
//! A path is kept in structured form — one byte vector per component —
//! rather than as a single string, so that `..` and `.` handling, prefix
//! tests and mirroring never have to re-parse text. The resolution here is
//! purely lexical: it never consults the filesystem, so it works for paths
//! that do not exist yet (such as a destination under the dumpster).

use vstd::prelude::*;
use vstd::std_specs::cmp::PartialEqSpec;

verus! {

broadcast use crate::views::lemma_bytes_deep_view;

/// Byte value of `/`, the component separator.
pub const SEPARATOR: u8 = 47;

/// Byte value of `.`.
pub const DOT: u8 = 46;

/// An absolute, normalized path: the components between the separators,
/// in order. The empty sequence of components is the root directory.
pub struct AbsPath {
    pub components: Vec<Vec<u8>>,
}

impl View for AbsPath {
    type V = Seq<Seq<u8>>;

    open spec fn view(&self) -> Seq<Seq<u8>> {
        self.components.deep_view()
    }
}

/// A single component is well formed when it is nonempty, is not one of the
/// special names `.` and `..`, and contains no separator.
pub open spec fn component_wf(c: Seq<u8>) -> bool {
    &&& c.len() > 0
    &&& c != seq![DOT]
    &&& c != seq![DOT, DOT]
    &&& !c.contains(SEPARATOR)
}

/// `p` lies at or below `prefix`: every component of `prefix` appears,
/// in place, at the start of `p`.
pub open spec fn is_under(prefix: Seq<Seq<u8>>, p: Seq<Seq<u8>>) -> bool {
    &&& prefix.len() <= p.len()
    &&& forall|i: int| 0 <= i < prefix.len() ==> p[i] == prefix[i]
}

/// The components of `s` split at every separator byte, with `cur` the
/// partial component read so far. Splitting keeps empty pieces (from
/// doubled, leading or trailing separators); resolution skips them.
pub open spec fn split_from(s: Seq<u8>, cur: Seq<u8>) -> Seq<Seq<u8>>
    decreases s.len(),
{
    if s.len() == 0 {
        seq![cur]
    } else if s[0] == SEPARATOR {
        seq![cur] + split_from(s.skip(1), Seq::empty())
    } else {
        split_from(s.skip(1), cur.push(s[0]))
    }
}

/// The pieces of `s` between separator bytes.
pub open spec fn split_components(s: Seq<u8>) -> Seq<Seq<u8>> {
    split_from(s, Seq::empty())
}

/// One step of lexical resolution: `..` drops the last component (a no-op
/// at the root), `.` and empty pieces are skipped, anything else descends.
pub open spec fn step(acc: Seq<Seq<u8>>, c: Seq<u8>) -> Seq<Seq<u8>> {
    if c == seq![DOT, DOT] {
        if acc.len() > 0 {
            acc.drop_last()
        } else {
            acc
        }
    } else if c.len() == 0 || c == seq![DOT] {
        acc
    } else {
        acc.push(c)
    }
}

/// Lexical resolution of the components `comps` against the accumulator
/// `acc`, one `step` per component.
pub open spec fn resolve_from(acc: Seq<Seq<u8>>, comps: Seq<Seq<u8>>) -> Seq<Seq<u8>>
    decreases comps.len(),
{
    if comps.len() == 0 {
        acc
    } else {
        resolve_from(step(acc, comps[0]), comps.skip(1))
    }
}

/// The absolute path that the byte string `input` denotes when resolved
/// against the working directory `cwd`: an input that starts with a
/// separator is resolved from the root, any other from `cwd`.
pub open spec fn resolved(cwd: Seq<Seq<u8>>, input: Seq<u8>) -> Seq<Seq<u8>> {
    let start: Seq<Seq<u8>> = if input.len() > 0 && input[0] == SEPARATOR {
        Seq::empty()
    } else {
        cwd
    };
    resolve_from(start, split_components(input))
}

/// The byte string that denotes `p`: a separator before each component.
pub open spec fn rendered(p: Seq<Seq<u8>>) -> Seq<u8>
    decreases p.len(),
{
    if p.len() == 0 {
        Seq::empty()
    } else {
        rendered(p.drop_last()) + seq![SEPARATOR] + p.last()
    }
}

/// Compare two components as byte strings.
pub fn component_eq(a: &Vec<u8>, b: &Vec<u8>) -> (r: bool)
    ensures
        r == (a@ == b@),
{
    let r = a == b;
    proof {
        if r {
            assert(a@ =~= b@);
        } else if a@ == b@ {
            assert(a.eq_spec(b));
        }
    }
    r
}

/// Copy a component list.
fn clone_components(v: &Vec<Vec<u8>>) -> (r: Vec<Vec<u8>>)
    ensures
        r.deep_view() == v.deep_view(),
{
    let mut r: Vec<Vec<u8>> = Vec::new();
    let n = v.len();
    let mut i: usize = 0;
    while i < n
        invariant
            i <= n,
            n == v.len(),
            r.deep_view() =~~= v.deep_view().take(i as int),
        decreases n - i,
    {
        let c = v[i].clone();
        proof {
            assert(c@ =~= v@[i as int]@);
        }
        r.push(c);
        proof {
            assert(r.deep_view() =~~= v.deep_view().take(i + 1 as int));
        }
        i = i + 1;
    }
    proof {
        assert(v.deep_view().take(n as int) =~~= v.deep_view());
    }
    r
}

/// Apply one resolution `step` to the accumulated components.
fn apply_component(acc: &mut Vec<Vec<u8>>, c: Vec<u8>)
    ensures
        final(acc).deep_view() == step(old(acc).deep_view(), c@),
        (forall|i: int|
            0 <= i < old(acc).deep_view().len() ==> component_wf(
                #[trigger] old(acc).deep_view()[i],
            )) && !c@.contains(SEPARATOR) ==> (forall|i: int|
            0 <= i < final(acc).deep_view().len() ==> component_wf(
                #[trigger] final(acc).deep_view()[i],
            )),
{
    let is_dotdot = c.len() == 2 && c[0] == DOT && c[1] == DOT;
    let is_dot = c.len() == 1 && c[0] == DOT;
    proof {
        if is_dotdot {
            assert(c@ =~= seq![DOT, DOT]);
        }
        if is_dot {
            assert(c@ =~= seq![DOT]);
        }
    }
    if is_dotdot {
        if acc.len() > 0 {
            acc.pop();
            proof {
                assert(acc.deep_view() =~~= old(acc).deep_view().drop_last());
            }
        }
    } else if c.len() == 0 || is_dot {
    } else {
        acc.push(c);
        proof {
            assert(acc.deep_view() =~~= old(acc).deep_view().push(c@));
        }
    }
}

/// Resolve `relative_path` against the working directory `cwd`, purely
/// lexically: `..` climbs one level (stopping at the root), `.` and empty
/// pieces are ignored, and an input that starts with a separator is
/// resolved from the root instead of `cwd`. The filesystem is never
/// consulted, so the input need not exist.
pub fn get_absolute_path(relative_path: &Vec<u8>, cwd: &AbsPath) -> (r: AbsPath)
    ensures
        r@ == resolved(cwd@, relative_path@),
        cwd.wf() ==> r.wf(),
{
    let n = relative_path.len();
    let ghost start: Seq<Seq<u8>> = if n > 0 && relative_path@[0] == SEPARATOR {
        Seq::<Seq<u8>>::empty()
    } else {
        cwd@
    };
    let mut acc: Vec<Vec<u8>> = if n > 0 && relative_path[0] == SEPARATOR {
        Vec::new()
    } else {
        clone_components(&cwd.components)
    };
    proof {
        assert(acc.deep_view() =~~= start);
        assert(relative_path@.skip(0) =~= relative_path@);
    }
    let mut cur: Vec<u8> = Vec::new();
    let mut i: usize = 0;
    while i < n
        invariant
            i <= n,
            n == relative_path.len(),
            resolve_from(acc.deep_view(), split_from(relative_path@.skip(i as int), cur@))
                == resolve_from(start, split_components(relative_path@)),
            !cur@.contains(SEPARATOR),
            (forall|k: int| 0 <= k < cwd@.len() ==> component_wf(#[trigger] cwd@[k])) ==> (forall|
                k: int,
            |
                0 <= k < acc.deep_view().len() ==> component_wf(#[trigger] acc.deep_view()[k])),
        decreases n - i,
    {
        let b = relative_path[i];
        let ghost rest = relative_path@.skip(i as int);
        proof {
            assert(rest.len() > 0 && rest[0] == b);
            assert(rest.skip(1) =~= relative_path@.skip(i + 1 as int));
        }
        if b == SEPARATOR {
            proof {
                assert(split_from(rest, cur@) =~~= seq![cur@] + split_from(
                    relative_path@.skip(i + 1 as int),
                    Seq::empty(),
                ));
                lemma_resolve_from_cons(
                    acc.deep_view(),
                    cur@,
                    split_from(relative_path@.skip(i + 1 as int), Seq::empty()),
                );
            }
            let flushed = cur;
            cur = Vec::new();
            apply_component(&mut acc, flushed);
            proof {
                assert(cur@ =~= Seq::<u8>::empty());
            }
        } else {
            proof {
                assert(split_from(rest, cur@) == split_from(
                    relative_path@.skip(i + 1 as int),
                    cur@.push(b),
                ));
            }
            cur.push(b);
        }
        i = i + 1;
    }
    proof {
        assert(relative_path@.skip(n as int) =~= Seq::<u8>::empty());
        assert(split_from(Seq::<u8>::empty(), cur@) =~~= seq![cur@]);
        assert(seq![cur@] =~~= seq![cur@] + Seq::<Seq<u8>>::empty());
        lemma_resolve_from_cons(acc.deep_view(), cur@, Seq::<Seq<u8>>::empty());
    }
    apply_component(&mut acc, cur);
    AbsPath { components: acc }
}

/// Resolving `[c] + rest` is one `step` on `c` followed by resolving `rest`.
proof fn lemma_resolve_from_cons(acc: Seq<Seq<u8>>, c: Seq<u8>, rest: Seq<Seq<u8>>)
    ensures
        resolve_from(acc, seq![c] + rest) == resolve_from(step(acc, c), rest),
{
    let comps = seq![c] + rest;
    assert(comps.len() == rest.len() + 1);
    assert(comps[0] == c);
    assert(comps.skip(1) =~~= rest);
}

impl Clone for AbsPath {
    fn clone(&self) -> (r: AbsPath)
        ensures
            r@ == self@,
    {
        AbsPath { components: clone_components(&self.components) }
    }
}

impl AbsPath {
    /// A normalized path holds only well-formed components.
    pub open spec fn wf(&self) -> bool {
        forall|i: int| 0 <= i < self@.len() ==> component_wf(#[trigger] self@[i])
    }

    /// The root directory.
    pub fn root() -> (r: AbsPath)
        ensures
            r@ =~= Seq::<Seq<u8>>::empty(),
            r.wf(),
    {
        AbsPath { components: Vec::new() }
    }

    /// Whether `self` lies at or below `prefix`.
    pub fn starts_with(&self, prefix: &AbsPath) -> (r: bool)
        ensures
            r == is_under(prefix@, self@),
    {
        let np = prefix.components.len();
        if np > self.components.len() {
            return false;
        }
        let mut i: usize = 0;
        while i < np
            invariant
                i <= np,
                np == prefix.components.len(),
                np <= self.components.len(),
                forall|j: int| 0 <= j < i ==> self@[j] == prefix@[j],
            decreases np - i,
        {
            if !component_eq(&self.components[i], &prefix.components[i]) {
                proof {
                    assert(self@[i as int] == self.components@[i as int]@);
                    assert(prefix@[i as int] == prefix.components@[i as int]@);
                    assert(self@[i as int] != prefix@[i as int]);
                }
                return false;
            }
            proof {
                assert(self@[i as int] == self.components@[i as int]@);
                assert(prefix@[i as int] == prefix.components@[i as int]@);
                assert(self@[i as int] == prefix@[i as int]);
            }
            i = i + 1;
        }
        true
    }

    /// The components of `self` below `prefix`.
    pub fn strip_prefix(&self, prefix: &AbsPath) -> (r: Vec<Vec<u8>>)
        requires
            is_under(prefix@, self@),
        ensures
            r.deep_view() == self@.skip(prefix@.len() as int),
    {
        let np = prefix.components.len();
        let n = self.components.len();
        let mut r: Vec<Vec<u8>> = Vec::new();
        let mut i: usize = np;
        while i < n
            invariant
                np <= i <= n,
                n == self.components.len(),
                np == prefix.components.len(),
                r.deep_view() =~~= self@.subrange(np as int, i as int),
            decreases n - i,
        {
            let c = self.components[i].clone();
            proof {
                assert(c@ =~= self.components@[i as int]@);
            }
            r.push(c);
            proof {
                assert(r.deep_view() =~~= self@.subrange(np as int, i + 1 as int));
            }
            i = i + 1;
        }
        proof {
            assert(self@.subrange(np as int, n as int) =~~= self@.skip(np as int));
        }
        r
    }

    /// `self` with the components of `suffix` appended.
    pub fn join(&self, suffix: &Vec<Vec<u8>>) -> (r: AbsPath)
        ensures
            r@ == self@ + suffix.deep_view(),
    {
        let mut components = clone_components(&self.components);
        let n = suffix.len();
        let mut i: usize = 0;
        while i < n
            invariant
                i <= n,
                n == suffix.len(),
                components.deep_view() =~~= self@ + suffix.deep_view().take(i as int),
            decreases n - i,
        {
            let c = suffix[i].clone();
            proof {
                assert(c@ =~= suffix@[i as int]@);
            }
            let ghost pre = components.deep_view();
            components.push(c);
            proof {
                assert(components.deep_view() =~~= pre.push(c@));
                assert(suffix.deep_view().take(i + 1 as int) =~~= suffix.deep_view().take(
                    i as int,
                ).push(suffix.deep_view()[i as int]));
                assert(components.deep_view() =~~= self@ + suffix.deep_view().take(i + 1 as int));
            }
            i = i + 1;
        }
        proof {
            assert(suffix.deep_view().take(n as int) =~~= suffix.deep_view());
        }
        AbsPath { components }
    }

    /// Drop the last component; the root is left unchanged.
    pub fn pop(&mut self)
        ensures
            final(self)@ == if old(self)@.len() > 0 {
                old(self)@.drop_last()
            } else {
                old(self)@
            },
    {
        if self.components.len() > 0 {
            self.components.pop();
            proof {
                assert(self@ =~~= old(self)@.drop_last());
            }
        }
    }

    /// Append one component.
    pub fn push(&mut self, c: Vec<u8>)
        ensures
            final(self)@ == old(self)@.push(c@),
    {
        self.components.push(c);
        proof {
            assert(self@ =~~= old(self)@.push(c@));
        }
    }

    /// The byte string form of the path: a separator before each component,
    /// and a single separator for the root.
    pub fn to_bytes(&self) -> (r: Vec<u8>)
        ensures
            r@ == if self@.len() == 0 {
                seq![SEPARATOR]
            } else {
                rendered(self@)
            },
    {
        let n = self.components.len();
        if n == 0 {
            let mut r: Vec<u8> = Vec::new();
            r.push(SEPARATOR);
            proof {
                assert(r@ =~= seq![SEPARATOR]);
            }
            return r;
        }
        let mut r: Vec<u8> = Vec::new();
        let mut i: usize = 0;
        while i < n
            invariant
                i <= n,
                n == self.components.len(),
                r@ =~= rendered(self@.take(i as int)),
            decreases n - i,
        {
            r.push(SEPARATOR);
            let c = &self.components[i];
            let m = c.len();
            let mut j: usize = 0;
            while j < m
                invariant
                    j <= m,
                    m == c.len(),
                    i < n,
                    n == self.components.len(),
                    c == &self.components[i as int],
                    r@ =~= rendered(self@.take(i as int)) + seq![SEPARATOR] + c@.take(j as int),
                decreases m - j,
            {
                r.push(c[j]);
                proof {
                    assert(c@.take(j + 1 as int) =~= c@.take(j as int).push(c@[j as int]));
                }
                j = j + 1;
            }
            proof {
                assert(c@.take(m as int) =~= c@);
                assert(self@[i as int] == self.components@[i as int]@);
                assert(self@.take(i + 1 as int).drop_last() =~~= self@.take(i as int));
                assert(self@.take(i + 1 as int).last() == c@);
                assert(r@ =~= rendered(self@.take(i + 1 as int)));
            }
            i = i + 1;
        }
        proof {
            assert(self@.take(n as int) =~~= self@);
        }
        r
    }
}

} // verus!
