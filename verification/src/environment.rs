//! The environment: a chain of name-to-value scopes, innermost first.
//!
//! Frames live in one arena and refer to their outer scope by index, so a
//! closure can keep its defining frame alive simply by remembering the
//! index.  An outer index always points at an older (smaller) slot; lookup
//! walks that chain.  Binding writes to the innermost frame only — `let`
//! always shadows.

use crate::model::values::{obj_view, GVal};
use crate::object::Object;
use crate::shared::rc_clone;
use std::rc::Rc;
use vstd::prelude::*;

verus! {

/// One scope: its bindings in insertion order (keys unique), and the index
/// of the enclosing scope, if any.
pub struct Frame {
    pub store: Vec<(String, Rc<Object>)>,
    pub outer: Option<usize>,
}

/// The mathematical image of a frame: a map from names to value images,
/// and the outer index.
pub struct GFrame {
    pub bindings: Map<Seq<char>, GVal>,
    pub outer: Option<int>,
}

/// The bindings of an association list, later entries winning.
pub open spec fn store_map(s: Seq<(String, Rc<Object>)>) -> Map<Seq<char>, GVal>
    decreases s,
{
    if s.len() == 0 {
        Map::empty()
    } else {
        store_map(s.drop_last()).insert(s.last().0@, obj_view(*s.last().1))
    }
}

/// No name is bound twice within one frame.
pub open spec fn store_keys_unique(s: Seq<(String, Rc<Object>)>) -> bool {
    forall|i: int, j: int| 0 <= i < j < s.len() ==> s[i].0@ != s[j].0@
}

impl View for Frame {
    type V = GFrame;

    open spec fn view(&self) -> GFrame {
        GFrame {
            bindings: store_map(self.store@),
            outer: match self.outer {
                Some(j) => Some(j as int),
                None => None,
            },
        }
    }
}

/// What a name resolves to from frame `idx`: the local binding if there is
/// one, else whatever the outer chain yields.  Indices outside the arena or
/// chains that do not descend resolve to nothing.
pub open spec fn spec_lookup(frames: Seq<GFrame>, idx: int, name: Seq<char>) -> Option<GVal>
    decreases idx,
{
    if 0 <= idx < frames.len() {
        let f = frames[idx];
        if f.bindings.dom().contains(name) {
            Some(f.bindings[name])
        } else {
            match f.outer {
                Some(j) => if 0 <= j < idx {
                    spec_lookup(frames, j, name)
                } else {
                    None
                },
                None => None,
            }
        }
    } else {
        None
    }
}

/// The arena of scopes.  Slot 0 is the global scope.
pub struct Environment {
    frames: Vec<Frame>,
}

impl View for Environment {
    type V = Seq<GFrame>;

    closed spec fn view(&self) -> Seq<GFrame> {
        self.frames@.map_values(|f: Frame| f@)
    }
}

impl Environment {
    /// Every frame keeps its keys unique.
    pub closed spec fn wf(&self) -> bool {
        forall|i: int|
            0 <= i < self.frames@.len() ==> store_keys_unique(#[trigger] self.frames@[i].store@)
    }

    /// A fresh environment: one empty global scope.
    pub fn new() -> (env: Environment)
        ensures
            env.wf(),
            env@.len() == 1,
            env@[0].bindings == Map::<Seq<char>, GVal>::empty(),
            env@[0].outer is None,
    {
        let mut frames: Vec<Frame> = Vec::new();
        frames.push(Frame { store: Vec::new(), outer: None });
        let env = Environment { frames };
        proof {
            assert(env@.len() == 1);
            assert(env@[0] == env.frames@[0]@);
        }
        env
    }

    /// The number of scopes in the arena.
    pub fn frame_count(&self) -> (n: usize)
        ensures
            n == self@.len(),
    {
        proof {
            assert(self@.len() == self.frames@.len());
        }
        self.frames.len()
    }

    /// Resolve a name from frame `frame`, walking the outer chain.
    pub fn get(&self, frame: usize, key: &String) -> (r: Option<Rc<Object>>)
        requires
            self.wf(),
        ensures
            match r {
                Some(v) => spec_lookup(self@, frame as int, key@) == Some(obj_view(*v)),
                None => spec_lookup(self@, frame as int, key@) is None,
            },
    {
        proof {
            assert(self@.len() == self.frames@.len());
        }
        let mut cur = frame;
        loop
            invariant
                self.wf(),
                spec_lookup(self@, cur as int, key@) == spec_lookup(self@, frame as int, key@),
            ensures
                ({
                    let r = spec_lookup(self@, frame as int, key@);
                    (r is None && spec_lookup(self@, cur as int, key@) is None) || (r is Some
                        && spec_lookup(self@, cur as int, key@) == r)
                }),
            decreases cur,
        {
            proof {
                assert(self@.len() == self.frames@.len());
            }
            if cur >= self.frames.len() {
                return None;
            }
            proof {
                assert(self@[cur as int] == self.frames@[cur as int]@);
            }
            let f = &self.frames[cur];
            match store_find(&f.store, key) {
                Some(v) => {
                    return Some(v);
                },
                None => {
                },
            }
            match f.outer {
                Some(j) => {
                    if j < cur {
                        cur = j;
                    } else {
                        return None;
                    }
                },
                None => {
                    return None;
                },
            }
        }
        None
    }

    /// Bind a name in frame `frame`, shadowing any previous binding there,
    /// and hand the value back.
    pub fn set(&mut self, frame: usize, key: String, value: Rc<Object>) -> (r: Option<Rc<Object>>)
        requires
            old(self).wf(),
            frame < old(self)@.len(),
        ensures
            final(self).wf(),
            final(self)@ == old(self)@.update(
                frame as int,
                GFrame {
                    bindings: old(self)@[frame as int].bindings.insert(key@, obj_view(*value)),
                    outer: old(self)@[frame as int].outer,
                },
            ),
            r matches Some(v) && v == value,
    {
        proof {
            assert(self@.len() == self.frames@.len());
            assert(self@[frame as int] == self.frames@[frame as int]@);
        }
        let stored = rc_clone(&value);
        let ghost old_frames = self.frames@;
        let idx = store_find_index(&self.frames[frame].store, &key);
        match idx {
            Some(i) => {
                let ghost old_store = self.frames@[frame as int].store@;
                let fr = &mut self.frames[frame];
                fr.store.set(i, (key, stored));
                proof {
                    lemma_store_map_update(old_store, i as int, fr.store@[i as int]);
                    assert(store_keys_unique(fr.store@)) by {
                        assert(forall|a: int|
                            0 <= a < fr.store@.len() && a != i ==> fr.store@[a] == old_store[a]);
                    }
                    assert(final(self)@ =~= old(self)@.update(
                        frame as int,
                        GFrame {
                            bindings: old(self)@[frame as int].bindings.insert(
                                key@,
                                obj_view(*value),
                            ),
                            outer: old(self)@[frame as int].outer,
                        },
                    ));
                }
                Some(value)
            },
            None => {
                let ghost old_store = self.frames@[frame as int].store@;
                let fr = &mut self.frames[frame];
                fr.store.push((key, stored));
                proof {
                    assert(fr.store@.drop_last() =~= old_store);
                    assert(store_keys_unique(fr.store@)) by {
                        assert(forall|a: int|
                            0 <= a < old_store.len() ==> fr.store@[a] == old_store[a]);
                    }
                    assert(final(self)@ =~= old(self)@.update(
                        frame as int,
                        GFrame {
                            bindings: old(self)@[frame as int].bindings.insert(
                                key@,
                                obj_view(*value),
                            ),
                            outer: old(self)@[frame as int].outer,
                        },
                    ));
                }
                Some(value)
            },
        }
    }
}

/// A fresh scope whose outer pointer is the given frame; its index is handed
/// back.
pub fn new_enclosed_environment(env: &mut Environment, outer: usize) -> (idx: usize)
    requires
        old(env).wf(),
        outer < old(env)@.len(),
    ensures
        final(env).wf(),
        idx == old(env)@.len(),
        final(env)@ == old(env)@.push(
            GFrame { bindings: Map::<Seq<char>, GVal>::empty(), outer: Some(outer as int) },
        ),
{
    let idx = env.frames.len();
    proof {
        assert(env@.len() == env.frames@.len());
    }
    env.frames.push(Frame { store: Vec::new(), outer: Some(outer) });
    proof {
        assert(final(env)@ =~= old(env)@.push(
            GFrame { bindings: Map::<Seq<char>, GVal>::empty(), outer: Some(outer as int) },
        ));
    }
    idx
}

/// Scan a frame's bindings for a name; with unique keys the hit is the
/// map's value.
fn store_find(store: &Vec<(String, Rc<Object>)>, key: &String) -> (r: Option<Rc<Object>>)
    requires
        store_keys_unique(store@),
    ensures
        match r {
            Some(v) => store_map(store@).dom().contains(key@) && store_map(store@)[key@]
                == obj_view(*v),
            None => !store_map(store@).dom().contains(key@),
        },
{
    let n = store.len();
    let mut i: usize = 0;
    while i < n
        invariant
            i <= n,
            n == store@.len(),
            store_keys_unique(store@),
            forall|j: int| 0 <= j < i ==> store@[j].0@ != key@,
        decreases n - i,
    {
        if store[i].0 == *key {
            proof {
                lemma_store_map_index(store@, i as int);
            }
            return Some(rc_clone(&store[i].1));
        }
        i = i + 1;
    }
    proof {
        lemma_store_map_absent(store@, key@);
    }
    None
}

/// The index of a name's binding in a frame, if any.
fn store_find_index(store: &Vec<(String, Rc<Object>)>, key: &String) -> (r: Option<usize>)
    ensures
        match r {
            Some(i) => i < store@.len() && store@[i as int].0@ == key@,
            None => forall|j: int| 0 <= j < store@.len() ==> store@[j].0@ != key@,
        },
{
    let n = store.len();
    let mut i: usize = 0;
    while i < n
        invariant
            i <= n,
            n == store@.len(),
            forall|j: int| 0 <= j < i ==> store@[j].0@ != key@,
        decreases n - i,
    {
        if store[i].0 == *key {
            return Some(i);
        }
        i = i + 1;
    }
    None
}

/// With unique keys, the association list's map holds exactly the scanned
/// entry.
proof fn lemma_store_map_index(s: Seq<(String, Rc<Object>)>, i: int)
    requires
        store_keys_unique(s),
        0 <= i < s.len(),
    ensures
        store_map(s).dom().contains(s[i].0@),
        store_map(s)[s[i].0@] == obj_view(*s[i].1),
    decreases s,
{
    if s.len() > 0 {
        if i == s.len() - 1 {
        } else {
            assert(store_keys_unique(s.drop_last())) by {
                assert(forall|a: int|
                    0 <= a < s.len() - 1 ==> s.drop_last()[a] == s[a]);
            }
            lemma_store_map_index(s.drop_last(), i);
            assert(s[i].0@ != s.last().0@);
        }
    }
}

/// A name bound nowhere in the list is not in its map.
proof fn lemma_store_map_absent(s: Seq<(String, Rc<Object>)>, k: Seq<char>)
    requires
        forall|j: int| 0 <= j < s.len() ==> s[j].0@ != k,
    ensures
        !store_map(s).dom().contains(k),
    decreases s,
{
    if s.len() > 0 {
        assert(forall|a: int| 0 <= a < s.len() - 1 ==> s.drop_last()[a] == s[a]);
        lemma_store_map_absent(s.drop_last(), k);
        assert(s.last() == s[s.len() - 1]);
    }
}

/// Replacing the entry that already holds a key is, at the map level, one
/// insertion of that key.
proof fn lemma_store_map_update(s: Seq<(String, Rc<Object>)>, i: int, pair: (String, Rc<Object>))
    requires
        store_keys_unique(s),
        0 <= i < s.len(),
        pair.0@ == s[i].0@,
    ensures
        store_map(s.update(i, pair)) == store_map(s).insert(pair.0@, obj_view(*pair.1)),
    decreases s,
{
    if s.len() > 0 {
        if i == s.len() - 1 {
            assert(s.update(i, pair).drop_last() =~= s.drop_last());
            assert(s.update(i, pair).last() == pair);
            assert(store_map(s.update(i, pair)) =~= store_map(s).insert(
                pair.0@,
                obj_view(*pair.1),
            ));
        } else {
            assert(store_keys_unique(s.drop_last())) by {
                assert(forall|a: int|
                    0 <= a < s.len() - 1 ==> s.drop_last()[a] == s[a]);
            }
            lemma_store_map_update(s.drop_last(), i, pair);
            assert(s.update(i, pair).drop_last() =~= s.drop_last().update(i, pair));
            assert(s.update(i, pair).last() == s.last());
            assert(s[i].0@ != s.last().0@);
            assert(store_map(s.update(i, pair)) =~= store_map(s).insert(
                pair.0@,
                obj_view(*pair.1),
            ));
        }
    }
}

} // verus!

verus! {

/// Appending a frame leaves every lookup below the new slot unchanged.
pub proof fn lemma_lookup_push_stable(frames: Seq<GFrame>, f: GFrame, idx: int, name: Seq<char>)
    requires
        idx < frames.len(),
    ensures
        spec_lookup(frames.push(f), idx, name) == spec_lookup(frames, idx, name),
    decreases idx,
{
    if 0 <= idx < frames.len() {
        match frames[idx].outer {
            Some(j) => if 0 <= j < idx {
                lemma_lookup_push_stable(frames, f, j, name);
            },
            None => {},
        }
    }
}

/// Closure visibility: a fresh scope enclosing frame `outer` resolves every
/// name it does not bind itself exactly as the captured frame does — even
/// after the defining statement list has finished, the captured bindings
/// stay visible.
pub proof fn lemma_enclosed_lookup(frames: Seq<GFrame>, outer: int, name: Seq<char>)
    requires
        0 <= outer < frames.len(),
    ensures
        spec_lookup(
            frames.push(GFrame { bindings: Map::empty(), outer: Some(outer) }),
            frames.len() as int,
            name,
        ) == spec_lookup(frames, outer, name),
{
    let f = GFrame { bindings: Map::<Seq<char>, GVal>::empty(), outer: Some(outer) };
    assert(!f.bindings.dom().contains(name));
    lemma_lookup_push_stable(frames, f, outer, name);
}

} // verus!
