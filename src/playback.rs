//! The decisions of the playback scheduler: which decoded sample goes to each
//! output frame of the device, and when completion is signalled.
use vstd::prelude::*;
use vstd::arithmetic::div_mod::{
    lemma_fundamental_div_mod, lemma_fundamental_div_mod_converse, lemma_mod_pos_bound,
};

verus! {

/// What the audio callback does with one output frame.
#[derive(Clone, Copy, Debug, PartialEq, Eq, Structural)]
pub enum FrameAction {
    /// Write this sample to every channel of the frame.
    Sample(i16),
    /// The window is exhausted: signal completion to the waiting caller.
    Finished,
    /// Completion was already signalled: write nothing.
    Silent,
}

/// The mathematical state of one playback.
pub struct PlaybackView {
    pub samples: Seq<i16>,
    pub from: int,
    pub to: int,
    pub factor: int,
    /// The decoded sample that the next frames repeat.
    pub index: int,
    /// How many frames have repeated the sample at `index` so far.
    pub phase: int,
    pub done: bool,
}

impl PlaybackView {
    /// The state invariant.
    pub open spec fn wf(self) -> bool {
        &&& 0 <= self.from <= self.samples.len()
        &&& 0 <= self.to <= self.samples.len()
        &&& self.factor >= 1
        &&& self.from <= self.index
        &&& 0 <= self.phase < self.factor
    }

    /// The number of output frames that fresh samples have filled.
    pub open spec fn frames(self) -> int {
        (self.index - self.from) * self.factor + self.phase
    }
}

/// The state at the start of a playback of `samples[from..to]`, both ends
/// clamped to the buffer length.
pub open spec fn initial(samples: Seq<i16>, from: int, to: int, factor: int) -> PlaybackView {
    let f = if from < samples.len() {
        from
    } else {
        samples.len() as int
    };
    let t = if to < samples.len() {
        to
    } else {
        samples.len() as int
    };
    PlaybackView { samples, from: f, to: t, factor, index: f, phase: 0, done: false }
}

/// One output frame: the next state and what the callback does.
pub open spec fn step(v: PlaybackView) -> (PlaybackView, FrameAction) {
    if v.index < v.to {
        let next = if v.phase + 1 == v.factor {
            PlaybackView { index: v.index + 1, phase: 0, ..v }
        } else {
            PlaybackView { phase: v.phase + 1, ..v }
        };
        (next, FrameAction::Sample(v.samples[v.index]))
    } else if !v.done {
        (PlaybackView { done: true, ..v }, FrameAction::Finished)
    } else {
        (v, FrameAction::Silent)
    }
}

/// The state after `k` output frames.
pub open spec fn run(v: PlaybackView, k: nat) -> PlaybackView
    decreases k,
{
    if k == 0 {
        v
    } else {
        step(run(v, (k - 1) as nat)).0
    }
}

/// What the callback does with output frame number `k`.
pub open spec fn action_at(v: PlaybackView, k: nat) -> FrameAction {
    step(run(v, k)).1
}

/// The state after `k` frames of a window that is not yet exhausted.
proof fn lemma_run_prefix(v: PlaybackView, k: nat)
    requires
        v.wf(),
        v.index == v.from,
        v.phase == 0,
        !v.done,
        v.from < v.to,
        k <= (v.to - v.from) * v.factor,
    ensures
        run(v, k) == (PlaybackView {
            index: v.from + k as int / v.factor,
            phase: k as int % v.factor,
            ..v
        }),
    decreases k,
{
    let d = v.factor;
    if k > 0 {
        let j = (k - 1) as nat;
        lemma_run_prefix(v, j);
        lemma_fundamental_div_mod(j as int, d);
        lemma_mod_pos_bound(j as int, d);
        let q = j as int / d;
        let r = j as int % d;
        assert(q < v.to - v.from) by (nonlinear_arith)
            requires
                j < (v.to - v.from) * d,
                j == d * q + r,
                0 <= r,
                d >= 1,
        ;
        if r + 1 == d {
            assert(k == (q + 1) * d) by (nonlinear_arith)
                requires
                    k == d * q + r + 1,
                    r + 1 == d,
            ;
            lemma_fundamental_div_mod_converse(k as int, d, q + 1, 0);
        } else {
            assert(k == q * d + (r + 1)) by (nonlinear_arith)
                requires
                    k == d * q + r + 1,
            ;
            lemma_fundamental_div_mod_converse(k as int, d, q, r + 1);
        }
    } else {
        lemma_fundamental_div_mod_converse(0, d, 0, 0);
    }
}

/// Once completion is signalled, every later frame is silent.
proof fn lemma_run_after_done(v: PlaybackView, k: nat)
    requires
        v.index >= v.to,
        v.done,
    ensures
        run(v, k) == v,
    decreases k,
{
    if k > 0 {
        lemma_run_after_done(v, (k - 1) as nat);
    }
}

/// Runs of consecutive frames compose.
proof fn lemma_run_add(v: PlaybackView, a: nat, b: nat)
    ensures
        run(v, a + b) == run(run(v, a), b),
    decreases b,
{
    if b > 0 {
        lemma_run_add(v, a, (b - 1) as nat);
    }
}

/// A playback of `samples[from..to]`, both ends clamped to the buffer
/// length, writes the samples of the clamped window in order, each for
/// `factor` frames and each read inside the buffer; then it signals
/// completion exactly once, and stays silent afterwards.
pub proof fn lemma_playback_completes(samples: Seq<i16>, from: int, to: int, factor: int)
    requires
        from >= 0,
        to >= 0,
        factor >= 1,
    ensures
        ({
            let v = initial(samples, from, to, factor);
            let n = if v.from < v.to {
                (v.to - v.from) * factor
            } else {
                0
            };
            &&& v.to <= samples.len()
            &&& forall|k: nat|
                k < n ==> v.from + k as int / factor < v.to && #[trigger] action_at(v, k)
                    == FrameAction::Sample(samples[v.from + k as int / factor])
            &&& action_at(v, n as nat) == FrameAction::Finished
            &&& forall|k: nat| k > n ==> #[trigger] action_at(v, k) == FrameAction::Silent
        }),
{
    let v = initial(samples, from, to, factor);
    let n: nat = if v.from < v.to {
        ((v.to - v.from) * factor) as nat
    } else {
        0
    };
    if v.from < v.to {
        assert forall|k: nat| k < n implies v.from + k as int / factor < v.to && #[trigger] action_at(
            v,
            k,
        ) == FrameAction::Sample(samples[v.from + k as int / factor]) by {
            lemma_run_prefix(v, k);
            lemma_fundamental_div_mod(k as int, factor);
            lemma_mod_pos_bound(k as int, factor);
            let q = k as int / factor;
            assert(q < v.to - v.from) by (nonlinear_arith)
                requires
                    k < (v.to - v.from) * factor,
                    k == factor * q + k as int % factor,
                    0 <= k as int % factor,
                    factor >= 1,
            ;
        }
        lemma_run_prefix(v, n);
        lemma_fundamental_div_mod_converse(n as int, factor, v.to - v.from, 0);
    }
    let w = run(v, n);
    assert(w.index >= w.to && !w.done);
    assert forall|k: nat| k > n implies #[trigger] action_at(v, k) == FrameAction::Silent by {
        let rest = (k - n - 1) as nat;
        lemma_run_add(v, n, (k - n) as nat);
        lemma_run_add(w, 1, rest);
        assert(run(w, 0) == w);
        assert(run(w, 1) == step(w).0);
        lemma_run_after_done(step(w).0, rest);
    }
}

/// The playback of one window of an owned copy of the decoded buffer. Each
/// decoded sample is held for `factor` output frames.
pub struct PlaybackState {
    samples: Vec<i16>,
    from: usize,
    to: usize,
    factor: usize,
    index: usize,
    phase: usize,
    done: bool,
}

impl View for PlaybackState {
    type V = PlaybackView;

    closed spec fn view(&self) -> PlaybackView {
        PlaybackView {
            samples: self.samples@,
            from: self.from as int,
            to: self.to as int,
            factor: self.factor as int,
            index: self.index as int,
            phase: self.phase as int,
            done: self.done,
        }
    }
}

impl PlaybackState {
    /// Prepares the playback of `samples[from..to]`, with both ends clamped
    /// to the buffer length, at `factor` output frames per sample.
    pub fn new(samples: Vec<i16>, from: usize, to: usize, factor: usize) -> (r: PlaybackState)
        requires
            factor >= 1,
        ensures
            r@ == initial(samples@, from as int, to as int, factor as int),
            r@.wf(),
    {
        let len = samples.len();
        let f: usize = if from < len {
            from
        } else {
            len
        };
        let t: usize = if to < len {
            to
        } else {
            len
        };
        PlaybackState { samples, from: f, to: t, factor, index: f, phase: 0, done: false }
    }

    /// Decides the next output frame.
    pub fn next_frame(&mut self) -> (r: FrameAction)
        requires
            old(self)@.wf(),
        ensures
            final(self)@.wf(),
            (final(self)@, r) == step(old(self)@),
    {
        if self.index < self.to {
            let value = self.samples[self.index];
            if self.phase + 1 == self.factor {
                self.index = self.index + 1;
                self.phase = 0;
            } else {
                self.phase = self.phase + 1;
            }
            FrameAction::Sample(value)
        } else if !self.done {
            self.done = true;
            FrameAction::Finished
        } else {
            FrameAction::Silent
        }
    }

    /// Whether completion has been signalled.
    pub fn is_done(&self) -> (r: bool)
        ensures
            r == self@.done,
    {
        self.done
    }
}

} // verus!
