//! The decisions of the token-generation loop: which tokens to feed the model
//! at each step, where in the context they go, which sampled tokens to stream,
//! and when to stop. The forward pass and the sampling are made by the caller.
use vstd::prelude::*;
use vstd::string::*;

use crate::error::PocketError;

verus! {

/// The most tokens one generation samples.
pub const MAX_NEW_TOKENS: usize = 512;

/// The end-of-sequence token assumed when the vocabulary names none of the
/// markers (LLaMA's standard one).
pub const FALLBACK_EOS_TOKEN: u32 = 2;

/// The markers of end of sequence, looked up in the vocabulary in this order.
pub fn eos_markers() -> (r: Vec<String>)
    ensures
        r@.len() == 4,
        r@[0]@ == "</s>"@,
        r@[1]@ == "<|endoftext|>"@,
        r@[2]@ == "<|im_end|>"@,
        r@[3]@ == "<|end|>"@,
{
    let mut r: Vec<String> = Vec::new();
    r.push(String::from_str("</s>"));
    r.push(String::from_str("<|endoftext|>"));
    r.push(String::from_str("<|im_end|>"));
    r.push(String::from_str("<|end|>"));
    r
}

/// The end-of-sequence token: the id of the first marker that the vocabulary
/// knows, else the fallback.
pub open spec fn select_eos(lookups: Seq<Option<u32>>) -> u32
    decreases lookups.len(),
{
    if lookups.len() == 0 {
        FALLBACK_EOS_TOKEN
    } else {
        match lookups[0] {
            Some(id) => id,
            None => select_eos(lookups.drop_first()),
        }
    }
}

/// Picks the end-of-sequence token from the vocabulary lookups of the
/// markers, made in the order of `eos_markers`.
pub fn select_eos_token(lookups: &Vec<Option<u32>>) -> (r: u32)
    ensures
        r == select_eos(lookups@),
{
    let n = lookups.len();
    let mut i: usize = 0;
    assert(lookups@.skip(0) =~= lookups@);
    while i < n
        invariant
            n == lookups@.len(),
            i <= n,
            select_eos(lookups@) == select_eos(lookups@.skip(i as int)),
        decreases n - i,
    {
        assert(lookups@.skip(i as int)[0] == lookups@[i as int]);
        assert(lookups@.skip(i as int).drop_first() =~= lookups@.skip(i + 1));
        match lookups[i] {
            Some(id) => {
                return id;
            },
            None => {},
        }
        i = i + 1;
    }
    assert(lookups@.skip(n as int).len() == 0);
    FALLBACK_EOS_TOKEN
}

/// The state of one generation.
pub struct Generation {
    /// The prompt's tokens followed by the streamed ones.
    pub tokens: Vec<u32>,
    /// How many of `tokens` are the prompt's.
    pub prompt_len: usize,
    /// How many tokens the model has been fed: where the next input goes.
    pub pos: usize,
    /// How many forward passes have been made.
    pub steps: usize,
    /// The end-of-sequence token.
    pub eos: u32,
    /// Whether generation has stopped early (end of sequence, or nobody
    /// listens any more).
    pub finished: bool,
}

impl Generation {
    /// The tokens streamed so far.
    pub open spec fn emitted(&self) -> Seq<u32> {
        self.tokens@.skip(self.prompt_len as int)
    }

    /// The prompt's tokens.
    pub open spec fn prompt(&self) -> Seq<u32> {
        self.tokens@.take(self.prompt_len as int)
    }

    /// Whether no further forward pass is to be made.
    pub open spec fn done(&self) -> bool {
        self.finished || self.steps >= MAX_NEW_TOKENS
    }

    /// What every state of a generation satisfies.
    pub open spec fn wf(&self) -> bool {
        &&& 1 <= self.prompt_len <= self.tokens@.len()
        &&& self.prompt_len + MAX_NEW_TOKENS <= usize::MAX
        &&& self.steps <= MAX_NEW_TOKENS
        &&& self.emitted().len() <= self.steps <= self.emitted().len() + 1
        &&& !self.finished ==> self.emitted().len() == self.steps
        &&& self.pos == (if self.steps == 0 {
            0
        } else {
            self.prompt_len + self.steps - 1
        })
        &&& forall|i: int| 0 <= i < self.emitted().len() ==> #[trigger] self.emitted()[i] != self.eos
    }

    /// Starts a generation for a tokenized prompt; an empty prompt is refused.
    pub fn start(prompt_ids: Vec<u32>, eos: u32) -> (r: Result<Generation, PocketError>)
        requires
            prompt_ids@.len() + MAX_NEW_TOKENS <= usize::MAX,
        ensures
            prompt_ids@.len() == 0 ==> (r matches Err(PocketError::EngineError(m)) && m@
                == "Input prompt generated zero tokens"@),
            prompt_ids@.len() > 0 ==> (r matches Ok(g) && g.wf() && g.tokens@ == prompt_ids@
                && g.prompt_len == prompt_ids@.len() && g.pos == 0 && g.steps == 0 && g.eos == eos
                && !g.finished),
    {
        if prompt_ids.len() == 0 {
            return Err(PocketError::EngineError(String::from_str("Input prompt generated zero tokens")));
        }
        let prompt_len = prompt_ids.len();
        let g = Generation { tokens: prompt_ids, prompt_len, pos: 0, steps: 0, eos, finished: false };
        assert(g.emitted().len() == 0);
        Ok(g)
    }

    /// The tokens to feed the model next, or `None` once generation is over:
    /// the whole prompt first, then the last streamed token alone.
    pub fn next_input(&self) -> (r: Option<Vec<u32>>)
        requires
            self.wf(),
        ensures
            r is None <==> self.done(),
            r is None <==> (self.finished || self.steps >= 512),
            r matches Some(v) ==> v@ == (if self.steps == 0 {
                self.tokens@
            } else {
                seq![self.tokens@.last()]
            }),
    {
        if self.finished || self.steps >= MAX_NEW_TOKENS {
            return None;
        }
        if self.steps == 0 {
            Some(self.tokens.clone())
        } else {
            let last = self.tokens[self.tokens.len() - 1];
            let mut v: Vec<u32> = Vec::new();
            v.push(last);
            assert(v@ =~= seq![self.tokens@.last()]);
            Some(v)
        }
    }

    /// Takes the token sampled from the pass that fed `next_input` at `pos`.
    /// Returns the token to stream, or `None` when it ends the sequence.
    pub fn on_sampled(&mut self, token: u32) -> (r: Option<u32>)
        requires
            old(self).wf(),
            !old(self).done(),
        ensures
            final(self).wf(),
            final(self).steps == old(self).steps + 1,
            final(self).pos == old(self).pos + (if old(self).steps == 0 {
                old(self).tokens@.len()
            } else {
                1
            }),
            final(self).prompt_len == old(self).prompt_len,
            final(self).eos == old(self).eos,
            token == old(self).eos ==> r is None && final(self).finished && final(self).tokens@
                == old(self).tokens@,
            token != old(self).eos ==> r == Some(token) && !final(self).finished
                && final(self).tokens@ == old(self).tokens@.push(token),
    {
        let fed = if self.steps == 0 {
            self.tokens.len()
        } else {
            1
        };
        self.pos = self.pos + fed;
        self.steps = self.steps + 1;
        if token == self.eos {
            self.finished = true;
            None
        } else {
            self.tokens.push(token);
            proof {
                assert(self.emitted() =~= old(self).emitted().push(token));
            }
            Some(token)
        }
    }

    /// Records that a streamed token could not be delivered because nobody
    /// listens any more: generation stops.
    pub fn on_delivery_failed(&mut self)
        requires
            old(self).wf(),
        ensures
            final(self).wf(),
            final(self).finished,
            final(self).tokens@ == old(self).tokens@,
            final(self).steps == old(self).steps,
            final(self).pos == old(self).pos,
            final(self).prompt_len == old(self).prompt_len,
            final(self).eos == old(self).eos,
    {
        self.finished = true;
    }
}


/// In every state of a generation, at most `MAX_NEW_TOKENS` tokens have been
/// streamed, none of them is the end-of-sequence token, and the context is
/// the prompt followed by what was streamed.
pub proof fn lemma_generation_bounds(g: Generation)
    requires
        g.wf(),
    ensures
        g.emitted().len() <= 512,
        !g.emitted().contains(g.eos),
        !g.finished ==> g.emitted().len() == g.steps,
        g.tokens@ == g.prompt() + g.emitted(),
        g.pos <= g.tokens@.len(),
{
    assert(g.tokens@ =~= g.prompt() + g.emitted());
    if g.emitted().contains(g.eos) {
        let i = choose|i: int| 0 <= i < g.emitted().len() && g.emitted()[i] == g.eos;
        assert(g.emitted()[i] != g.eos);
    }
}

/// The end-of-sequence token is the id of the first marker the vocabulary
/// knows, whatever ids the later markers have; when it knows none, it is 2.
pub proof fn lemma_select_eos_first_known(lookups: Seq<Option<u32>>, i: int)
    requires
        0 <= i < lookups.len(),
        lookups[i] is Some,
        forall|j: int| 0 <= j < i ==> #[trigger] lookups[j] is None,
    ensures
        select_eos(lookups) == lookups[i]->0,
    decreases i,
{
    if i > 0 {
        assert(lookups[0] is None);
        let rest = lookups.drop_first();
        assert forall|j: int| 0 <= j < i - 1 implies #[trigger] rest[j] is None by {
            assert(rest[j] == lookups[j + 1]);
        }
        lemma_select_eos_first_known(rest, i - 1);
    }
}

/// When the vocabulary knows none of the markers, the end-of-sequence token
/// is LLaMA's 2.
pub proof fn lemma_select_eos_none_known(lookups: Seq<Option<u32>>)
    requires
        forall|j: int| 0 <= j < lookups.len() ==> #[trigger] lookups[j] is None,
    ensures
        select_eos(lookups) == 2,
    decreases lookups.len(),
{
    if lookups.len() > 0 {
        assert(lookups[0] is None);
        let rest = lookups.drop_first();
        assert forall|j: int| 0 <= j < rest.len() implies #[trigger] rest[j] is None by {
            assert(rest[j] == lookups[j + 1]);
        }
        lemma_select_eos_none_known(rest);
    }
}

} // verus!
