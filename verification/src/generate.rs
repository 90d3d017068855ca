//! The bookkeeping of autoregressive generation. One step of generation is a
//! forward pass over the pending input and the sampling of a token from its
//! result; both are the caller's. What is decided here is what is fed next,
//! what is kept, and when generation is over.

use vstd::prelude::*;

verus! {

/// The state of a generation run, as contracts see it.
pub struct GenState {
    /// The prompt, the beginning-of-sequence token, and the tokens sampled
    /// and kept so far.
    pub tokens: Seq<u32>,
    /// Length of the prompt.
    pub prompt_len: nat,
    /// Number of steps that may still be taken.
    pub remaining: nat,
    /// The end-of-sequence token.
    pub eos: u32,
    /// Whether the end-of-sequence token has been sampled.
    pub stopped: bool,
}

impl GenState {
    /// The state before the first step: the prompt followed by the
    /// beginning-of-sequence token, and `max_len` steps to go.
    pub open spec fn start(prompt: Seq<u32>, bos: u32, eos: u32, max_len: nat) -> GenState {
        GenState {
            tokens: prompt.push(bos),
            prompt_len: prompt.len(),
            remaining: max_len,
            eos,
            stopped: false,
        }
    }

    /// The prompt and the beginning-of-sequence token are in place, and no
    /// token behind them is the end-of-sequence token.
    pub open spec fn wf(self) -> bool {
        &&& self.tokens.len() > self.prompt_len
        &&& forall|i: int| self.prompt_len < i < self.tokens.len() ==> self.tokens[i] != self.eos
    }

    /// Whether generation is over: the end-of-sequence token was sampled, or
    /// no step is left.
    pub open spec fn done(self) -> bool {
        self.stopped || self.remaining == 0
    }

    /// Number of tokens sampled and kept.
    pub open spec fn generated(self) -> nat {
        (self.tokens.len() - self.prompt_len - 1) as nat
    }

    /// What the next forward pass is to be run over: the prompt before the
    /// first token is kept, and the token kept last after that.
    pub open spec fn input(self) -> Seq<u32> {
        if self.generated() == 0 {
            self.tokens.take(self.prompt_len as int)
        } else {
            seq![self.tokens.last()]
        }
    }

    /// The state after a step that sampled `sampled`. The end-of-sequence
    /// token ends the run and is not kept; any other token is kept.
    pub open spec fn step(self, sampled: u32) -> GenState {
        if sampled == self.eos {
            GenState { remaining: (self.remaining - 1) as nat, stopped: true, ..self }
        } else {
            GenState {
                tokens: self.tokens.push(sampled),
                remaining: (self.remaining - 1) as nat,
                ..self
            }
        }
    }

    /// The state after as many steps as the run allows, the `i`-th of which
    /// samples `samples[i]`.
    pub open spec fn run(self, samples: Seq<u32>) -> GenState
        decreases samples.len(),
    {
        if self.done() || samples.len() == 0 {
            self
        } else {
            self.step(samples[0]).run(samples.drop_first())
        }
    }

    /// Number of steps that `run` takes on `samples`.
    pub open spec fn steps(self, samples: Seq<u32>) -> nat
        decreases samples.len(),
    {
        if self.done() || samples.len() == 0 {
            0
        } else {
            1 + self.step(samples[0]).steps(samples.drop_first())
        }
    }
}

/// A step keeps the state well-formed, takes one of the steps to go, and
/// keeps every token that was there.
pub proof fn lemma_step(state: GenState, sampled: u32)
    requires
        state.wf(),
        !state.done(),
    ensures
        state.step(sampled).wf(),
        state.step(sampled).remaining == state.remaining - 1,
        state.step(sampled).prompt_len == state.prompt_len,
        state.step(sampled).eos == state.eos,
        state.tokens.is_prefix_of(state.step(sampled).tokens),
        sampled != state.eos ==> state.step(sampled).input() == seq![sampled],
{
}

/// Generation halts: whatever is sampled, a run takes at most as many steps
/// as were allowed at its start, and where that many samples are at hand the
/// run is over after them.
pub proof fn lemma_run_halts(state: GenState, samples: Seq<u32>)
    requires
        state.wf(),
    ensures
        state.steps(samples) <= state.remaining,
        state.steps(samples) <= samples.len(),
        samples.len() >= state.remaining ==> state.run(samples).done(),
        state.run(samples).wf(),
        state.run(samples).generated() <= state.generated() + state.steps(samples),
        state.run(samples).prompt_len == state.prompt_len,
        state.run(samples).eos == state.eos,
        state.tokens.is_prefix_of(state.run(samples).tokens),
    decreases samples.len(),
{
    if state.done() || samples.len() == 0 {
    } else {
        lemma_step(state, samples[0]);
        lemma_run_halts(state.step(samples[0]), samples.drop_first());
    }
}

/// From start to end: a run over a prompt takes at most `max_len` steps, and
/// no token that it adds behind the prompt and the beginning-of-sequence token
/// is the end-of-sequence token.
pub proof fn lemma_generation(prompt: Seq<u32>, bos: u32, eos: u32, max_len: nat, samples: Seq<u32>)
    ensures
        ({
            let first = GenState::start(prompt, bos, eos, max_len);
            let last = first.run(samples);
            &&& first.steps(samples) <= max_len
            &&& samples.len() >= max_len ==> last.done()
            &&& prompt.len() < last.tokens.len() <= prompt.len() + 1 + max_len
            &&& last.tokens.take(prompt.len() as int) == prompt
            &&& last.tokens[prompt.len() as int] == bos
            &&& forall|i: int| prompt.len() < i < last.tokens.len() ==> last.tokens[i] != eos
        }),
{
    let first = GenState::start(prompt, bos, eos, max_len);
    lemma_run_halts(first, samples);
    let last = first.run(samples);
    let seed = last.tokens.subrange(0, first.tokens.len() as int);
    assert(seed == first.tokens);
    assert forall|i: int| 0 <= i <= prompt.len() implies last.tokens[i] == first.tokens[i] by {
        assert(seed[i] == last.tokens[i]);
    }
    assert(last.tokens.take(prompt.len() as int) =~= prompt);
    assert(last.tokens[prompt.len() as int] == bos);
    assert(last.generated() <= max_len);
}

/// Where neither the prompt nor the beginning-of-sequence token is the
/// end-of-sequence token, the result of a run holds no end-of-sequence token
/// at all.
pub proof fn lemma_no_end_token(
    prompt: Seq<u32>,
    bos: u32,
    eos: u32,
    max_len: nat,
    samples: Seq<u32>,
)
    requires
        bos != eos,
        forall|i: int| 0 <= i < prompt.len() ==> prompt[i] != eos,
    ensures
        !GenState::start(prompt, bos, eos, max_len).run(samples).tokens.contains(eos),
{
    lemma_generation(prompt, bos, eos, max_len, samples);
    let last = GenState::start(prompt, bos, eos, max_len).run(samples);
    assert forall|i: int| 0 <= i < last.tokens.len() implies last.tokens[i] != eos by {
        if i < prompt.len() {
            assert(last.tokens.take(prompt.len() as int)[i] == last.tokens[i]);
        }
    }
}

/// A generation run in progress.
pub struct Generation {
    tokens: Vec<u32>,
    prompt_len: usize,
    remaining: usize,
    eos: u32,
    stopped: bool,
}

impl View for Generation {
    type V = GenState;

    closed spec fn view(&self) -> GenState {
        GenState {
            tokens: self.tokens@,
            prompt_len: self.prompt_len as nat,
            remaining: self.remaining as nat,
            eos: self.eos,
            stopped: self.stopped,
        }
    }
}

impl Generation {
    /// Starts a run over a prompt: the result begins with the prompt and the
    /// beginning-of-sequence token, and at most `max_len` steps follow.
    pub fn start(token_ids: &[u32], bos: u32, eos: u32, max_len: usize) -> (r: Self)
        ensures
            r@ == GenState::start(token_ids@, bos, eos, max_len as nat),
            r@.wf(),
    {
        let mut tokens: Vec<u32> = Vec::new();
        let mut i: usize = 0;
        while i < token_ids.len()
            invariant
                i <= token_ids@.len(),
                tokens@ == token_ids@.take(i as int),
            decreases token_ids@.len() - i,
        {
            tokens.push(token_ids[i]);
            proof {
                assert(token_ids@.take(i + 1) == token_ids@.take(i as int).push(token_ids@[i as int]));
            }
            i += 1;
        }
        proof {
            assert(token_ids@.take(token_ids@.len() as int) == token_ids@);
        }
        tokens.push(bos);
        Generation { tokens, prompt_len: token_ids.len(), remaining: max_len, eos, stopped: false }
    }

    /// Whether the run is over.
    pub fn is_done(&self) -> (r: bool)
        ensures
            r == self@.done(),
    {
        self.stopped || self.remaining == 0
    }

    /// Number of steps that may still be taken.
    pub fn remaining(&self) -> (r: usize)
        ensures
            r == self@.remaining,
    {
        self.remaining
    }

    /// The tokens that the next forward pass is to be run over.
    pub fn input(&self) -> (r: Vec<u32>)
        requires
            self@.wf(),
        ensures
            r@ == self@.input(),
    {
        let mut out: Vec<u32> = Vec::new();
        if self.tokens.len() - self.prompt_len == 1 {
            let mut i: usize = 0;
            while i < self.prompt_len
                invariant
                    i <= self.prompt_len < self.tokens@.len(),
                    out@ == self.tokens@.take(i as int),
                decreases self.prompt_len - i,
            {
                out.push(self.tokens[i]);
                proof {
                    assert(self.tokens@.take(i + 1) == self.tokens@.take(i as int).push(
                        self.tokens@[i as int],
                    ));
                }
                i += 1;
            }
        } else {
            out.push(self.tokens[self.tokens.len() - 1]);
            assert(out@ =~= seq![self.tokens@.last()]);
        }
        out
    }

    /// Takes the token that a step sampled. The end-of-sequence token ends
    /// the run and is not kept; any other token is appended to the result.
    pub fn accept(&mut self, sampled: u32)
        requires
            old(self)@.wf(),
            !old(self)@.done(),
            old(self)@.tokens.len() < usize::MAX,
        ensures
            final(self)@ == old(self)@.step(sampled),
            final(self)@.wf(),
    {
        self.remaining = self.remaining - 1;
        if sampled == self.eos {
            self.stopped = true;
        } else {
            self.tokens.push(sampled);
        }
    }

    /// The result so far: the prompt, the beginning-of-sequence token, and the
    /// tokens sampled and kept.
    pub fn tokens(&self) -> (r: &Vec<u32>)
        ensures
            r@ == self@.tokens,
    {
        &self.tokens
    }

    /// Ends the run and hands out its result.
    pub fn into_tokens(self) -> (r: Vec<u32>)
        ensures
            r@ == self@.tokens,
    {
        self.tokens
    }
}

} // verus!
