//! The environment model: an arena of frames, each a name→value map
//! with an optional enclosing frame.
//!
//! Frames are identified by their index in the arena and only ever
//! point outward to older frames, so the chain from any frame is
//! acyclic.  A frame stays alive for the whole run, which lets a
//! function value pin the frame it captured long after the block that
//! created it has exited.
use vstd::prelude::*;
use crate::lox_value::{LoxValue, SpecValue};

verus! {

/// One scope: its bindings and the frame that encloses it.
///
/// Bindings are an append-only association list; the latest entry for
/// a name wins, so appending is both `define` and in-frame assignment.
#[derive(Debug)]
pub struct Frame {
    pub enclosing: Option<usize>,
    pub bindings: Vec<(String, LoxValue)>,
}

/// The mathematical value of a frame.
pub struct SpecFrame {
    pub enclosing: Option<int>,
    pub bindings: Map<Seq<char>, SpecValue>,
}

/// The association list read as a map: later entries shadow earlier
/// ones.
pub open spec fn assoc_view(es: Seq<(String, LoxValue)>) -> Map<Seq<char>, SpecValue>
    decreases es,
{
    if es.len() == 0 {
        Map::empty()
    } else {
        assoc_view(es.drop_last()).insert(es.last().0@, es.last().1@)
    }
}

pub open spec fn frame_view(f: Frame) -> SpecFrame {
    SpecFrame {
        enclosing: match f.enclosing {
            Some(e) => Some(e as int),
            None => None,
        },
        bindings: assoc_view(f.bindings@),
    }
}

impl View for Frame {
    type V = SpecFrame;

    open spec fn view(&self) -> SpecFrame {
        frame_view(*self)
    }
}

/// The arena of every frame created so far.  Frame 0 is the globals.
#[derive(Debug)]
pub struct Environment {
    pub frames: Vec<Frame>,
}

impl View for Environment {
    type V = Seq<SpecFrame>;

    open spec fn view(&self) -> Seq<SpecFrame> {
        self.frames@.map_values(|f: Frame| frame_view(f))
    }
}

/// A value stored in an arena of `n` frames must not capture a frame
/// outside it.
pub open spec fn val_wf(v: SpecValue, n: int) -> bool {
    match v {
        SpecValue::Fun(f) => 0 <= f.closure < n,
        _ => true,
    }
}

/// The frame at `i` encloses only an older frame, and every value it
/// holds captures a frame of the arena.
pub open spec fn frame_ok(frames: Seq<SpecFrame>, i: int) -> bool {
    &&& match frames[i].enclosing {
        Some(e) => 0 <= e < i,
        None => true,
    }
    &&& forall|k: Seq<char>|
        frames[i].bindings.dom().contains(k) ==> val_wf(
            #[trigger] frames[i].bindings[k],
            frames.len() as int,
        )
}

/// Every frame encloses only an older frame, and every stored value
/// captures a frame of the arena.
pub open spec fn env_wf(frames: Seq<SpecFrame>) -> bool {
    forall|i: int| 0 <= i < frames.len() ==> #[trigger] frame_ok(frames, i)
}

/// Defining a well-formed value into an existing frame keeps the arena
/// well-formed.
proof fn lemma_wf_after_define(pre: Seq<SpecFrame>, frame: int, name: Seq<char>, v: SpecValue)
    requires
        env_wf(pre),
        0 <= frame < pre.len(),
        val_wf(v, pre.len() as int),
    ensures
        env_wf(spec_define(pre, frame, name, v)),
{
    let post = spec_define(pre, frame, name, v);
    assert forall|i: int| 0 <= i < post.len() implies #[trigger] frame_ok(post, i) by {
        assert(frame_ok(pre, i));
        if i == frame {
            assert forall|k: Seq<char>| post[i].bindings.dom().contains(k) implies val_wf(
                #[trigger] post[i].bindings[k],
                post.len() as int,
            ) by {
                if k != name {
                    assert(pre[i].bindings.dom().contains(k));
                    assert(post[i].bindings[k] == pre[i].bindings[k]);
                }
            }
        } else {
            assert(post[i] == pre[i]);
        }
    }
}

/// Appending a fresh empty frame enclosed by an existing one keeps the
/// arena well-formed.
proof fn lemma_wf_after_push(pre: Seq<SpecFrame>, enclosing: int)
    requires
        env_wf(pre),
        0 <= enclosing < pre.len(),
    ensures
        env_wf(pre.push(SpecFrame { enclosing: Some(enclosing), bindings: Map::empty() })),
{
    let post = pre.push(SpecFrame { enclosing: Some(enclosing), bindings: Map::empty() });
    assert forall|i: int| 0 <= i < post.len() implies #[trigger] frame_ok(post, i) by {
        if i < pre.len() {
            assert(frame_ok(pre, i));
            assert(post[i] == pre[i]);
            assert forall|k: Seq<char>| post[i].bindings.dom().contains(k) implies val_wf(
                #[trigger] post[i].bindings[k],
                post.len() as int,
            ) by {
                assert(val_wf(pre[i].bindings[k], pre.len() as int));
            }
        } else {
            assert(post[i].bindings.dom() =~= Set::empty());
        }
    }
}

/// Walks `distance` frames outward; `None` when the chain is shorter.
pub open spec fn spec_ancestor(frames: Seq<SpecFrame>, start: int, distance: nat) -> Option<int>
    decreases distance,
{
    if distance == 0 {
        Some(start)
    } else if 0 <= start < frames.len() {
        match frames[start].enclosing {
            Some(e) => spec_ancestor(frames, e, (distance - 1) as nat),
            None => None,
        }
    } else {
        None
    }
}

/// Reads a name through the chain from `start`: the nearest frame that
/// binds the name decides.
pub open spec fn spec_lookup(frames: Seq<SpecFrame>, start: int, name: Seq<char>) -> Option<
    SpecValue,
>
    decreases start + 1,
{
    if 0 <= start < frames.len() {
        if frames[start].bindings.dom().contains(name) {
            Some(frames[start].bindings[name])
        } else {
            match frames[start].enclosing {
                Some(e) => if 0 <= e < start {
                    spec_lookup(frames, e, name)
                } else {
                    None
                },
                None => None,
            }
        }
    } else {
        None
    }
}

/// Writes a name through the chain from `start` into the nearest frame
/// that already binds it; `None` when no frame does.
pub open spec fn spec_assign(
    frames: Seq<SpecFrame>,
    start: int,
    name: Seq<char>,
    v: SpecValue,
) -> Option<Seq<SpecFrame>>
    decreases start + 1,
{
    if 0 <= start < frames.len() {
        if frames[start].bindings.dom().contains(name) {
            Some(
                frames.update(
                    start,
                    SpecFrame {
                        enclosing: frames[start].enclosing,
                        bindings: frames[start].bindings.insert(name, v),
                    },
                ),
            )
        } else {
            match frames[start].enclosing {
                Some(e) => if 0 <= e < start {
                    spec_assign(frames, e, name, v)
                } else {
                    None
                },
                None => None,
            }
        }
    } else {
        None
    }
}

/// The arena after defining `name` in `frame`.
pub open spec fn spec_define(
    frames: Seq<SpecFrame>,
    frame: int,
    name: Seq<char>,
    v: SpecValue,
) -> Seq<SpecFrame> {
    frames.update(
        frame,
        SpecFrame {
            enclosing: frames[frame].enclosing,
            bindings: frames[frame].bindings.insert(name, v),
        },
    )
}

/// A scan that found the latest entry for a name reads the map at that
/// name.
proof fn lemma_assoc_found(es: Seq<(String, LoxValue)>, i: int, name: Seq<char>)
    requires
        0 <= i < es.len(),
        es[i].0@ == name,
        forall|k: int| i < k < es.len() ==> (#[trigger] es[k]).0@ != name,
    ensures
        assoc_view(es).dom().contains(name),
        assoc_view(es)[name] == es[i].1@,
    decreases es.len(),
{
    if i == es.len() - 1 {
    } else {
        assert(es.drop_last()[i] == es[i]);
        lemma_assoc_found(es.drop_last(), i, name);
    }
}

/// A name with no entry is not in the map.
proof fn lemma_assoc_absent(es: Seq<(String, LoxValue)>, name: Seq<char>)
    requires
        forall|k: int| 0 <= k < es.len() ==> (#[trigger] es[k]).0@ != name,
    ensures
        !assoc_view(es).dom().contains(name),
    decreases es.len(),
{
    if es.len() > 0 {
        lemma_assoc_absent(es.drop_last(), name);
    }
}

impl Frame {
    /// The latest value bound to `name` in this frame alone.
    fn find(&self, name: &String) -> (r: Option<LoxValue>)
        ensures
            match r {
                Some(v) => self@.bindings.dom().contains(name@) && self@.bindings[name@] == v@,
                None => !self@.bindings.dom().contains(name@),
            },
    {
        let n = self.bindings.len();
        let mut i: usize = n;
        while i > 0
            invariant
                i <= n,
                n == self.bindings.len(),
                forall|k: int| i <= k < n ==> (#[trigger] self.bindings@[k]).0@ != name@,
            decreases i,
        {
            i = i - 1;
            if self.bindings[i].0.eq(name) {
                proof {
                    lemma_assoc_found(self.bindings@, i as int, name@);
                }
                return Some(self.bindings[i].1.clone());
            }
        }
        proof {
            lemma_assoc_absent(self.bindings@, name@);
        }
        None
    }
}

impl Environment {
    /// A fresh arena holding only the empty global frame.
    pub fn new() -> (r: Environment)
        ensures
            r@ == seq![SpecFrame { enclosing: None::<int>, bindings: Map::empty() }],
            env_wf(r@),
    {
        let mut frames: Vec<Frame> = Vec::new();
        frames.push(Frame { enclosing: None, bindings: Vec::new() });
        let r = Environment { frames };
        proof {
            assert(r@ =~= seq![SpecFrame { enclosing: None::<int>, bindings: Map::empty() }]);
            assert(r@[0].bindings.dom() =~= Set::empty());
            assert(frame_ok(r@, 0));
        }
        r
    }

    pub open spec fn len(&self) -> int {
        self@.len() as int
    }

    /// Appends a fresh empty frame enclosed by `enclosing` and returns
    /// its identifier.
    pub fn new_with(&mut self, enclosing: usize) -> (r: usize)
        requires
            enclosing < old(self).len(),
            env_wf(old(self)@),
        ensures
            r == old(self).len(),
            final(self)@ == old(self)@.push(
                SpecFrame { enclosing: Some(enclosing as int), bindings: Map::empty() },
            ),
            env_wf(final(self)@),
    {
        let r = self.frames.len();
        self.frames.push(Frame { enclosing: Some(enclosing), bindings: Vec::new() });
        proof {
            assert(self.frames@[r as int].bindings@ =~= Seq::<(String, LoxValue)>::empty());
            assert(self@ =~= old(self)@.push(
                SpecFrame { enclosing: Some(enclosing as int), bindings: Map::empty() },
            ));
            lemma_wf_after_push(old(self)@, enclosing as int);
        }
        r
    }

    /// Binds `name` to `value` in `frame`, shadowing any earlier
    /// binding there.
    pub fn define(&mut self, frame: usize, name: &String, value: LoxValue)
        requires
            frame < old(self).len(),
            env_wf(old(self)@),
            val_wf(value@, old(self).len()),
        ensures
            final(self)@ == spec_define(old(self)@, frame as int, name@, value@),
            env_wf(final(self)@),
    {
        let ghost pre = self@;
        self.frames[frame].bindings.push((name.clone(), value));
        proof {
            let es = self.frames@[frame as int].bindings@;
            assert(es.drop_last() =~= old(self).frames@[frame as int].bindings@);
            assert(self@ =~= spec_define(pre, frame as int, name@, value@));
            lemma_wf_after_define(pre, frame as int, name@, value@);
        }
    }

    /// Reads `name` from `frame`, walking outward until some frame
    /// binds it.
    pub fn get(&self, frame: usize, name: &String) -> (r: Option<LoxValue>)
        requires
            frame < self.len(),
            env_wf(self@),
        ensures
            match r {
                Some(v) => spec_lookup(self@, frame as int, name@) == Some(v@) && val_wf(
                    v@,
                    self.len(),
                ),
                None => spec_lookup(self@, frame as int, name@) is None,
            },
    {
        let mut cur = frame;
        loop
            invariant
                cur < self.len(),
                env_wf(self@),
                spec_lookup(self@, frame as int, name@) == spec_lookup(self@, cur as int, name@),
            decreases cur,
        {
            proof {
                assert(self@[cur as int] == frame_view(self.frames@[cur as int]));
                assert(frame_ok(self@, cur as int));
            }
            match self.frames[cur].find(name) {
                Some(v) => {
                    return Some(v);
                },
                None => {
                    match self.frames[cur].enclosing {
                        Some(e) => {
                            cur = e;
                        },
                        None => {
                            return None;
                        },
                    }
                },
            }
        }
    }

    /// Assigns to the nearest frame that already binds `name`; reports
    /// whether one was found.
    pub fn assign(&mut self, frame: usize, name: &String, value: LoxValue) -> (r: bool)
        requires
            frame < old(self).len(),
            env_wf(old(self)@),
            val_wf(value@, old(self).len()),
        ensures
            match spec_assign(old(self)@, frame as int, name@, value@) {
                Some(updated) => r && final(self)@ == updated,
                None => !r && final(self)@ == old(self)@,
            },
            env_wf(final(self)@),
            final(self)@.len() == old(self)@.len(),
    {
        let ghost pre = self@;
        let mut cur = frame;
        loop
            invariant
                cur < self.len(),
                self.frames == old(self).frames,
                self@ == pre,
                env_wf(self@),
                frame < self.len(),
                val_wf(value@, self.len()),
                spec_assign(self@, frame as int, name@, value@) == spec_assign(
                    self@,
                    cur as int,
                    name@,
                    value@,
                ),
            decreases cur,
        {
            proof {
                assert(self@[cur as int] == frame_view(self.frames@[cur as int]));
                assert(frame_ok(self@, cur as int));
            }
            match self.frames[cur].find(name) {
                Some(_) => {
                    self.frames[cur].bindings.push((name.clone(), value));
                    proof {
                        let es = self.frames@[cur as int].bindings@;
                        assert(es.drop_last() =~= old(self).frames@[cur as int].bindings@);
                        assert(self@ =~= spec_assign(pre, cur as int, name@, value@).unwrap());
                        lemma_wf_after_define(pre, cur as int, name@, value@);
                    }
                    return true;
                },
                None => {
                    match self.frames[cur].enclosing {
                        Some(e) => {
                            cur = e;
                        },
                        None => {
                            return false;
                        },
                    }
                },
            }
        }
    }

    /// Reads `name` in the frame exactly `distance` steps outward,
    /// with no fallback past it.
    pub fn get_at(&self, frame: usize, distance: usize, name: &String) -> (r: Option<LoxValue>)
        requires
            frame < self.len(),
            env_wf(self@),
        ensures
            match r {
                Some(v) => {
                    &&& match spec_ancestor(self@, frame as int, distance as nat) {
                        Some(f) => 0 <= f < self@.len() && self@[f].bindings.dom().contains(name@)
                            && self@[f].bindings[name@] == v@,
                        None => false,
                    }
                    &&& val_wf(v@, self.len())
                },
                None => match spec_ancestor(self@, frame as int, distance as nat) {
                    Some(f) => 0 <= f < self@.len() && !self@[f].bindings.dom().contains(name@),
                    None => true,
                },
            },
    {
        let mut cur = frame;
        let mut left = distance;
        loop
            invariant
                cur < self.len(),
                env_wf(self@),
                spec_ancestor(self@, frame as int, distance as nat) == spec_ancestor(
                    self@,
                    cur as int,
                    left as nat,
                ),
            decreases left,
        {
            proof {
                assert(self@[cur as int] == frame_view(self.frames@[cur as int]));
                assert(frame_ok(self@, cur as int));
            }
            if left == 0 {
                return self.frames[cur].find(name);
            }
            match self.frames[cur].enclosing {
                Some(e) => {
                    cur = e;
                    left = left - 1;
                },
                None => {
                    return None;
                },
            }
        }
    }

    /// Writes `name` in the frame exactly `distance` steps outward;
    /// reports whether that frame exists and already binds the name.
    pub fn assign_at(
        &mut self,
        frame: usize,
        distance: usize,
        name: &String,
        value: LoxValue,
    ) -> (r: bool)
        requires
            frame < old(self).len(),
            env_wf(old(self)@),
            val_wf(value@, old(self).len()),
        ensures
            match spec_ancestor(old(self)@, frame as int, distance as nat) {
                Some(f) => 0 <= f < old(self)@.len() && if old(self)@[f].bindings.dom().contains(
                    name@,
                ) {
                    r && final(self)@ == spec_define(old(self)@, f, name@, value@)
                } else {
                    !r && final(self)@ == old(self)@
                },
                None => !r && final(self)@ == old(self)@,
            },
            env_wf(final(self)@),
            final(self)@.len() == old(self)@.len(),
    {
        let ghost pre = self@;
        let mut cur = frame;
        let mut left = distance;
        loop
            invariant
                cur < self.len(),
                self.frames == old(self).frames,
                self@ == pre,
                env_wf(self@),
                val_wf(value@, self.len()),
                spec_ancestor(self@, frame as int, distance as nat) == spec_ancestor(
                    self@,
                    cur as int,
                    left as nat,
                ),
            decreases left,
        {
            proof {
                assert(self@[cur as int] == frame_view(self.frames@[cur as int]));
                assert(frame_ok(self@, cur as int));
            }
            if left == 0 {
                match self.frames[cur].find(name) {
                    Some(_) => {
                        self.frames[cur].bindings.push((name.clone(), value));
                        proof {
                            let es = self.frames@[cur as int].bindings@;
                            assert(es.drop_last() =~= old(self).frames@[cur as int].bindings@);
                            assert(self@ =~= spec_define(pre, cur as int, name@, value@));
                            lemma_wf_after_define(pre, cur as int, name@, value@);
                        }
                        return true;
                    },
                    None => {
                        return false;
                    },
                }
            }
            match self.frames[cur].enclosing {
                Some(e) => {
                    cur = e;
                    left = left - 1;
                },
                None => {
                    return false;
                },
            }
        }
    }
}

/// Writing through one chain and reading through another that reaches
/// the same frame sees the written value: the frame is shared, which
/// is what lets a closure and its outer scope observe each other's
/// assignments.
pub proof fn lemma_shared_frame_write_read(
    frames: Seq<SpecFrame>,
    a: int,
    da: nat,
    b: int,
    db: nat,
    f: int,
    name: Seq<char>,
    v: SpecValue,
)
    requires
        spec_ancestor(frames, a, da) == Some(f),
        spec_ancestor(frames, b, db) == Some(f),
        0 <= f < frames.len(),
        frames[f].bindings.dom().contains(name),
    ensures
        ({
            let written = spec_define(frames, f, name, v);
            &&& spec_ancestor(written, b, db) == Some(f)
            &&& written[f].bindings[name] == v
        }),
{
    let written = spec_define(frames, f, name, v);
    lemma_ancestor_same_shape(frames, written, b, db);
}

/// Walking a chain only reads the `enclosing` links, so any arena with
/// the same links walks the same way.
proof fn lemma_ancestor_same_shape(frames: Seq<SpecFrame>, other: Seq<SpecFrame>, start: int, d: nat)
    requires
        other.len() == frames.len(),
        forall|i: int| 0 <= i < frames.len() ==> #[trigger] other[i].enclosing == frames[i].enclosing,
    ensures
        spec_ancestor(other, start, d) == spec_ancestor(frames, start, d),
    decreases d,
{
    if d > 0 && 0 <= start < frames.len() {
        match frames[start].enclosing {
            Some(e) => {
                lemma_ancestor_same_shape(frames, other, e, (d - 1) as nat);
            },
            None => {},
        }
    }
}

} // verus!
