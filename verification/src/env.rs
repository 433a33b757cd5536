//! The environment: a chain of lexical scope frames holding mutable
//! bindings, with shadowing across frames.
//!
//! The model of an environment is a sequence of frames, outermost first;
//! each frame is a sequence of bindings, oldest first. Lookup searches
//! the innermost (last) frame first and, within a frame, the most recent
//! binding first, so redeclaring a name shadows the earlier binding.

use vstd::prelude::*;
use crate::value::{Value, EngineError};

verus! {

/// One binding: a name, its current value, and whether assignment to it
/// is permitted.
#[derive(Clone, Copy, Debug, PartialEq, Eq, Structural)]
pub struct Binding {
    pub name: u64,
    pub value: Value,
    pub mutable: bool,
}

/// The mathematical model of an environment: frames outermost first.
pub type EnvModel = Seq<Seq<Binding>>;

/// The most recent binding of `name` in one frame, if any.
pub open spec fn lookup_frame(frame: Seq<Binding>, name: u64) -> Option<Binding>
    decreases frame.len(),
{
    if frame.len() == 0 {
        None
    } else if frame.last().name == name {
        Some(frame.last())
    } else {
        lookup_frame(frame.drop_last(), name)
    }
}

/// The binding `name` resolves to: innermost frame first.
pub open spec fn lookup_env(env: EnvModel, name: u64) -> Option<Binding>
    decreases env.len(),
{
    if env.len() == 0 {
        None
    } else {
        match lookup_frame(env.last(), name) {
            Some(b) => Some(b),
            None => lookup_env(env.drop_last(), name),
        }
    }
}

/// Declares a binding in the innermost frame, shadowing any binding of
/// the same name for the rest of that frame's lifetime. On an empty
/// chain (which the engine never produces) this is a no-op.
pub open spec fn declare_env(env: EnvModel, name: u64, value: Value, mutable: bool) -> EnvModel {
    if env.len() == 0 {
        env
    } else {
        env.drop_last().push(env.last().push(Binding { name, value, mutable }))
    }
}

/// Discards the innermost frame.
pub open spec fn pop_env(env: EnvModel) -> EnvModel {
    if env.len() == 0 {
        env
    } else {
        env.drop_last()
    }
}

/// Assignment within one frame: `None` when the frame has no binding of
/// `name`; otherwise the updated frame, or `ImmutableAssignment` when the
/// most recent binding of `name` is not mutable.
pub open spec fn assign_frame(frame: Seq<Binding>, name: u64, value: Value) -> Option<
    Result<Seq<Binding>, EngineError>,
>
    decreases frame.len(),
{
    if frame.len() == 0 {
        None
    } else if frame.last().name == name {
        if frame.last().mutable {
            Some(Ok(frame.drop_last().push(Binding { name, value, mutable: true })))
        } else {
            Some(Err(EngineError::ImmutableAssignment(name)))
        }
    } else {
        match assign_frame(frame.drop_last(), name, value) {
            Some(Ok(fr)) => Some(Ok(fr.push(frame.last()))),
            Some(Err(e)) => Some(Err(e)),
            None => None,
        }
    }
}

/// Assignment: updates the binding that `lookup_env` finds, in place in
/// its frame; `UndefinedVariable` when no frame holds the name, and
/// `ImmutableAssignment` when the binding found is not mutable. On an
/// error the environment is unchanged.
pub open spec fn assign_env(env: EnvModel, name: u64, value: Value) -> Result<
    EnvModel,
    EngineError,
>
    decreases env.len(),
{
    if env.len() == 0 {
        Err(EngineError::UndefinedVariable(name))
    } else {
        match assign_frame(env.last(), name, value) {
            Some(Ok(fr)) => Ok(env.drop_last().push(fr)),
            Some(Err(e)) => Err(e),
            None => match assign_env(env.drop_last(), name, value) {
                Ok(rest) => Ok(rest.push(env.last())),
                Err(e) => Err(e),
            },
        }
    }
}

/// A successful assignment changes a binding in place and never adds or
/// removes a frame.
pub proof fn lemma_assign_env_len(env: EnvModel, name: u64, value: Value)
    ensures
        assign_env(env, name, value) matches Ok(e) ==> e.len() == env.len(),
    decreases env.len(),
{
    if env.len() > 0 {
        if assign_frame(env.last(), name, value) is None {
            lemma_assign_env_len(env.drop_last(), name, value);
        }
    }
}

/// The model of a concrete frame chain.
pub open spec fn env_model(frames: Seq<Vec<Binding>>) -> EnvModel {
    frames.map_values(|f: Vec<Binding>| f@)
}

/// An executable chain of scope frames.
pub struct Env {
    pub frames: Vec<Vec<Binding>>,
}

proof fn lemma_model_push(frames: Seq<Vec<Binding>>, f: Vec<Binding>)
    ensures
        env_model(frames.push(f)) == env_model(frames).push(f@),
{
    assert(env_model(frames.push(f)) =~= env_model(frames).push(f@));
}

proof fn lemma_model_drop_last(frames: Seq<Vec<Binding>>)
    requires
        frames.len() > 0,
    ensures
        env_model(frames.drop_last()) == env_model(frames).drop_last(),
{
    assert(env_model(frames.drop_last()) =~= env_model(frames).drop_last());
}

/// The most recent binding of `name` among the first `n` bindings.
fn lookup_in_frame(frame: &Vec<Binding>, name: u64, n: usize) -> (r: Option<Binding>)
    requires
        n <= frame@.len(),
    ensures
        r == lookup_frame(frame@.take(n as int), name),
    decreases n,
{
    if n == 0 {
        None
    } else {
        proof {
            assert(frame@.take(n as int).last() == frame@[n - 1]);
            assert(frame@.take(n as int).drop_last() =~= frame@.take(n as int - 1));
        }
        let b = frame[n - 1];
        if b.name == name {
            Some(b)
        } else {
            lookup_in_frame(frame, name, n - 1)
        }
    }
}

/// The binding `name` resolves to among the first `n` frames.
fn lookup_frames(frames: &Vec<Vec<Binding>>, name: u64, n: usize) -> (r: Option<Binding>)
    requires
        n <= frames@.len(),
    ensures
        r == lookup_env(env_model(frames@).take(n as int), name),
    decreases n,
{
    if n == 0 {
        None
    } else {
        proof {
            assert(env_model(frames@).take(n as int).last() == frames@[n - 1]@);
            assert(env_model(frames@).take(n as int).drop_last() =~= env_model(frames@).take(
                n as int - 1,
            ));
        }
        let len: usize = frames[n - 1].len();
        let r0 = lookup_in_frame(&frames[n - 1], name, len);
        proof {
            assert(frames@[n - 1]@.take(frames@[n - 1]@.len() as int) =~= frames@[n - 1]@);
        }
        match r0 {
            Some(b) => Some(b),
            None => lookup_frames(frames, name, n - 1),
        }
    }
}

/// Assignment within one concrete frame; mirrors `assign_frame`.
fn assign_in_frame(frame: &mut Vec<Binding>, name: u64, value: Value) -> (r: Option<
    Result<(), EngineError>,
>)
    ensures
        match assign_frame(old(frame)@, name, value) {
            Some(Ok(fr)) => r == Some(Ok::<(), EngineError>(())) && final(frame)@ == fr,
            Some(Err(e)) => r == Some(Err::<(), EngineError>(e)) && final(frame)@ == old(frame)@,
            None => r == None::<Result<(), EngineError>> && final(frame)@ == old(frame)@,
        },
    decreases old(frame)@.len(),
{
    match frame.pop() {
        None => None,
        Some(b) => {
            if b.name == name {
                if b.mutable {
                    frame.push(Binding { name, value, mutable: true });
                    Some(Ok(()))
                } else {
                    frame.push(b);
                    proof {
                        assert(final(frame)@ =~= old(frame)@);
                    }
                    Some(Err(EngineError::ImmutableAssignment(name)))
                }
            } else {
                let r = assign_in_frame(frame, name, value);
                frame.push(b);
                proof {
                    if assign_frame(old(frame)@, name, value) is None {
                        assert(final(frame)@ =~= old(frame)@);
                    }
                    if assign_frame(old(frame)@, name, value) matches Some(Err(_)) {
                        assert(final(frame)@ =~= old(frame)@);
                    }
                }
                r
            }
        },
    }
}

/// Assignment across a chain of concrete frames; mirrors `assign_env`.
fn assign_frames(frames: &mut Vec<Vec<Binding>>, name: u64, value: Value) -> (r: Result<
    (),
    EngineError,
>)
    ensures
        match assign_env(env_model(old(frames)@), name, value) {
            Ok(e) => r == Ok::<(), EngineError>(()) && env_model(final(frames)@) == e,
            Err(e) => r == Err::<(), EngineError>(e) && env_model(final(frames)@) == env_model(
                old(frames)@,
            ),
        },
    decreases old(frames)@.len(),
{
    match frames.pop() {
        None => {
            proof {
                assert(env_model(old(frames)@) =~= Seq::<Seq<Binding>>::empty());
            }
            Err(EngineError::UndefinedVariable(name))
        },
        Some(mut fr) => {
            proof {
                lemma_model_drop_last(old(frames)@);
                assert(env_model(old(frames)@).last() == old(frames)@.last()@);
            }
            let r0 = assign_in_frame(&mut fr, name, value);
            match r0 {
                Some(Ok(())) => {
                    frames.push(fr);
                    proof {
                        lemma_model_push(old(frames)@.drop_last(), fr);
                    }
                    Ok(())
                },
                Some(Err(e)) => {
                    frames.push(fr);
                    proof {
                        lemma_model_push(old(frames)@.drop_last(), fr);
                        assert(env_model(final(frames)@) =~= env_model(old(frames)@));
                    }
                    Err(e)
                },
                None => {
                    let r1 = assign_frames(frames, name, value);
                    let ghost mid = frames@;
                    frames.push(fr);
                    proof {
                        lemma_model_push(mid, fr);
                        if assign_env(env_model(old(frames)@).drop_last(), name, value) is Err {
                            assert(env_model(final(frames)@) =~= env_model(old(frames)@));
                        }
                    }
                    r1
                },
            }
        },
    }
}

impl Env {
    /// The model this environment denotes.
    pub open spec fn model(&self) -> EnvModel {
        env_model(self.frames@)
    }

    /// An environment holding the given frame as its only scope: how a
    /// call starts, with the parameters already bound.
    pub fn from_frame(frame: Vec<Binding>) -> (r: Env)
        ensures
            r.model() == seq![frame@],
    {
        let mut frames: Vec<Vec<Binding>> = Vec::new();
        frames.push(frame);
        let r = Env { frames };
        proof {
            assert(r.model() =~= seq![frame@]);
        }
        r
    }

    /// Opens a fresh innermost scope.
    pub fn push_frame(&mut self)
        ensures
            final(self).model() == old(self).model().push(Seq::<Binding>::empty()),
    {
        self.frames.push(Vec::new());
        proof {
            assert(final(self).model() =~= old(self).model().push(Seq::<Binding>::empty()));
        }
    }

    /// Discards the innermost scope and every binding it holds.
    pub fn pop_frame(&mut self)
        requires
            old(self).model().len() >= 1,
        ensures
            final(self).model() == pop_env(old(self).model()),
    {
        let _ = self.frames.pop();
        proof {
            lemma_model_drop_last(old(self).frames@);
        }
    }

    /// Declares a binding in the innermost scope, shadowing any outer
    /// binding of the same name; redeclaring a name within one scope
    /// simply rebinds it.
    pub fn declare(&mut self, name: u64, value: Value, mutable: bool)
        requires
            old(self).model().len() >= 1,
        ensures
            final(self).model() == declare_env(old(self).model(), name, value, mutable),
    {
        let mut fr = self.frames.pop().unwrap();
        fr.push(Binding { name, value, mutable });
        self.frames.push(fr);
        proof {
            lemma_model_drop_last(old(self).frames@);
            lemma_model_push(old(self).frames@.drop_last(), fr);
            assert(env_model(old(self).frames@).last() == old(self).frames@.last()@);
        }
    }

    /// The value `name` currently denotes, searching the innermost scope
    /// first; `UndefinedVariable` when no scope binds it.
    pub fn lookup(&self, name: u64) -> (r: Result<Value, EngineError>)
        ensures
            r == match lookup_env(self.model(), name) {
                Some(b) => Ok::<Value, EngineError>(b.value),
                None => Err::<Value, EngineError>(EngineError::UndefinedVariable(name)),
            },
    {
        proof {
            assert(self.model().take(self.frames@.len() as int) =~= self.model());
        }
        match lookup_frames(&self.frames, name, self.frames.len()) {
            Some(b) => Ok(b.value),
            None => Err(EngineError::UndefinedVariable(name)),
        }
    }

    /// Updates the binding that `lookup` finds, visible to every later
    /// lookup through this chain; fails without changing anything when
    /// the name is unbound or its binding is immutable.
    pub fn assign(&mut self, name: u64, value: Value) -> (r: Result<(), EngineError>)
        ensures
            match assign_env(old(self).model(), name, value) {
                Ok(e) => r == Ok::<(), EngineError>(()) && final(self).model() == e,
                Err(e) => r == Err::<(), EngineError>(e) && final(self).model() == old(
                    self,
                ).model(),
            },
    {
        assign_frames(&mut self.frames, name, value)
    }
}

} // verus!
