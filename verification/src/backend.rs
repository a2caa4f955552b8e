use vstd::prelude::*;

use crate::error::PromptError;
use crate::key::Key;
use crate::style::{line_model, RenderConfig, SpanModel, StyledSpan};

verus! {

/// An in-memory terminal backend session.
///
/// The session owns the raw-mode handle, the input reader, and the cursor
/// bookkeeping of the diff-based redraw: it remembers how many lines the last
/// frame wrote so the next render clears exactly that many lines before
/// repainting.  The surface here is an in-memory grid of styled spans, which
/// makes every render deterministic and inspectable; a driver for a real
/// terminal satisfies the same contract by mutating the TTY instead.
pub struct Backend {
    /// The scripted input stream; `pos` keys have already been consumed.
    keys: Vec<Key>,
    pos: usize,
    /// The lines currently on the surface, oldest first.
    screen: Vec<Vec<StyledSpan>>,
    /// How many of the trailing screen lines the last frame wrote.
    prev_frame_lines: usize,
    /// Whether the raw-mode session is still engaged.
    raw_mode: bool,
    /// How many times the session has been released.
    releases: usize,
    /// The style for each UI role, fixed for the session's lifetime.
    config: RenderConfig,
}

impl Backend {
    /// The session's bookkeeping is consistent: no more keys were consumed
    /// than exist, and the last frame's recorded line count never exceeds
    /// what stands on the surface.
    pub closed spec fn wf(self) -> bool {
        &&& self.pos <= self.keys@.len()
        &&& self.prev_frame_lines <= self.screen@.len()
        &&& self.releases <= 1
        &&& self.raw_mode ==> self.releases == 0
    }

    /// The keys not yet consumed.
    pub closed spec fn remaining(self) -> Seq<Key> {
        self.keys@.skip(self.pos as int)
    }

    /// Whether the raw-mode session is engaged.
    pub closed spec fn spec_raw_mode(self) -> bool {
        self.raw_mode
    }

    /// How many times the session has been released.
    pub closed spec fn spec_releases(self) -> int {
        self.releases as int
    }

    /// The surface as a sequence of lines of (text, style) spans.
    pub closed spec fn screen_model(self) -> Seq<Seq<SpanModel>> {
        self.screen@.map_values(|l: Vec<StyledSpan>| line_model(l))
    }

    /// How many of the trailing screen lines the last frame wrote.
    pub closed spec fn spec_prev_frame(self) -> int {
        self.prev_frame_lines as int
    }

    /// The session's render configuration.
    pub closed spec fn spec_config(self) -> RenderConfig {
        self.config
    }

    /// Opens a session over a scripted input stream: raw mode is engaged,
    /// the surface is empty, and no key has been consumed yet.
    pub fn new(input: Vec<Key>, config: RenderConfig) -> (r: Backend)
        ensures
            r.wf(),
            r.remaining() == input@,
            r.spec_raw_mode(),
            r.spec_releases() == 0,
            r.screen_model() == Seq::<Seq<SpanModel>>::empty(),
            r.spec_config() == config,
    {
        let b = Backend {
            keys: input,
            pos: 0,
            screen: Vec::new(),
            prev_frame_lines: 0,
            raw_mode: true,
            releases: 0,
            config,
        };
        proof {
            assert(b.remaining() =~= b.keys@);
            assert(b.screen_model() =~= Seq::<Seq<SpanModel>>::empty());
        }
        b
    }

    /// Blocks until the next key is available and consumes exactly it;
    /// signals `EndOfInput` once the scripted stream is exhausted.
    pub fn read_key(&mut self) -> (r: Result<Key, PromptError>)
        requires
            old(self).wf(),
        ensures
            final(self).wf(),
            final(self).spec_raw_mode() == old(self).spec_raw_mode(),
            final(self).spec_releases() == old(self).spec_releases(),
            final(self).screen_model() == old(self).screen_model(),
            final(self).spec_config() == old(self).spec_config(),
            old(self).remaining().len() == 0 ==> r == Result::<Key, PromptError>::Err(
                PromptError::EndOfInput,
            ) && *final(self) == *old(self),
            old(self).remaining().len() > 0 ==> r == Result::<Key, PromptError>::Ok(
                old(self).remaining()[0],
            ) && final(self).remaining() == old(self).remaining().skip(1),
    {
        if self.pos < self.keys.len() {
            let k = self.keys[self.pos];
            self.pos = self.pos + 1;
            proof {
                assert(final(self).remaining() =~= old(self).remaining().skip(1));
            }
            Ok(k)
        } else {
            Err(PromptError::EndOfInput)
        }
    }

    /// Repaints the frame: clears exactly the lines the previous frame wrote,
    /// writes the new lines, and records their count, so that the recorded
    /// count always equals the number of lines actually written.
    pub fn render_frame(&mut self, lines: Vec<Vec<StyledSpan>>) -> (r: ())
        requires
            old(self).wf(),
            old(self).spec_raw_mode(),
        ensures
            final(self).wf(),
            final(self).spec_raw_mode(),
            final(self).spec_releases() == old(self).spec_releases(),
            final(self).remaining() == old(self).remaining(),
            final(self).spec_config() == old(self).spec_config(),
            final(self).screen_model() == old(self).screen_model().take(
                old(self).screen_model().len() - old(self).spec_prev_frame(),
            ) + lines@.map_values(|l: Vec<StyledSpan>| line_model(l)),
            final(self).spec_prev_frame() == lines@.len(),
    {
        let keep = self.screen.len() - self.prev_frame_lines;
        self.screen.truncate(keep);
        let n = lines.len();
        let mut rest = lines;
        proof {
            assert(self.screen@ =~= old(self).screen@.take(keep as int));
        }
        while rest.len() > 0
            invariant
                n == lines@.len(),
                rest@.len() <= n,
                rest@ == lines@.skip(n - rest@.len()),
                self.screen@ == old(self).screen@.take(keep as int) + lines@.take(
                    n - rest@.len(),
                ),
                self.pos == old(self).pos,
                self.keys == old(self).keys,
                self.raw_mode,
                self.releases == old(self).releases,
                self.config == old(self).config,
                keep == old(self).screen@.len() - old(self).prev_frame_lines,
            decreases rest@.len(),
        {
            let ghost done = n - rest@.len();
            let line = rest.remove(0);
            proof {
                assert(line == lines@[done]);
                assert(rest@ =~= lines@.skip(done + 1));
            }
            self.screen.push(line);
            proof {
                assert(self.screen@ =~= old(self).screen@.take(keep as int) + lines@.take(
                    done + 1,
                ));
            }
        }
        self.prev_frame_lines = n;
        proof {
            assert(lines@.take(n as int) =~= lines@);
            assert(final(self).screen_model() =~= old(self).screen_model().take(
                old(self).screen_model().len() - old(self).spec_prev_frame(),
            ) + lines@.map_values(|l: Vec<StyledSpan>| line_model(l)));
        }
    }

    /// Releases the raw-mode session.  A session is released exactly once:
    /// the call demands an engaged session and leaves a disengaged one.
    pub fn release(&mut self)
        requires
            old(self).wf(),
            old(self).spec_raw_mode(),
        ensures
            final(self).wf(),
            !final(self).spec_raw_mode(),
            final(self).spec_releases() == old(self).spec_releases() + 1,
            final(self).remaining() == old(self).remaining(),
            final(self).screen_model() == old(self).screen_model(),
            final(self).spec_config() == old(self).spec_config(),
    {
        self.raw_mode = false;
        self.releases = self.releases + 1;
    }

    /// Whether the raw-mode session is still engaged.
    pub fn is_raw_mode(&self) -> (r: bool)
        ensures
            r == self.spec_raw_mode(),
    {
        self.raw_mode
    }

    /// How many times the session has been released.
    pub fn times_released(&self) -> (r: usize)
        ensures
            r == self.spec_releases(),
    {
        self.releases
    }

    /// The session's render configuration.
    pub fn render_config(&self) -> (r: RenderConfig)
        ensures
            r == self.spec_config(),
    {
        self.config
    }

    /// The lines currently on the surface.
    pub fn screen(&self) -> (r: &Vec<Vec<StyledSpan>>)
        ensures
            r@.map_values(|l: Vec<StyledSpan>| line_model(l)) == self.screen_model(),
    {
        &self.screen
    }
}

/// An in-memory backend over a scripted key sequence, with the stock render
/// configuration: the deterministic stand-in for a live terminal that drives
/// a prompt in tests.
pub fn fake_backend(input: Vec<Key>) -> (r: Backend)
    ensures
        r.wf(),
        r.remaining() == input@,
        r.spec_raw_mode(),
        r.spec_releases() == 0,
        r.screen_model() == Seq::<Seq<SpanModel>>::empty(),
        r.spec_config() == crate::style::spec_default_render_config(),
{
    Backend::new(input, RenderConfig::default())
}

} // verus!
