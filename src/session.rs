//! Decoding of a whole raw stream, and the session that owns the raw stream,
//! the configuration and the decoded buffer.
use vstd::prelude::*;
use vstd::arithmetic::div_mod::{
    lemma_fundamental_div_mod, lemma_fundamental_div_mod_converse, lemma_mod_pos_bound,
};
use crate::config::{Compression, DecodeConfig};
use crate::representation::{decode_one, decode_value};
use crate::predictor::{next_sample, Predictor};

verus! {

/// Why a configuration cannot be decoded.
#[derive(Clone, Copy, Debug, PartialEq, Eq, Structural)]
pub enum DecodeError {
    /// The stride is zero.
    ZeroStride,
    /// The window starts after it ends.
    InvalidWindow,
    /// The start offset lies at or past the end of the raw stream.
    StartOutOfBounds,
}

/// How many raw bytes a walk from `start` with step `stride` visits in a
/// stream of `n` bytes.
pub open spec fn addressed_count(n: int, start: int, stride: int) -> int {
    if start < n {
        (n - start - 1) / stride + 1
    } else {
        0
    }
}

/// The raw bytes at `start`, `start + stride`, ... that lie in the stream.
pub open spec fn addressed(input: Seq<u8>, start: int, stride: int) -> Seq<u8> {
    Seq::new(
        addressed_count(input.len() as int, start, stride) as nat,
        |i: int| input[start + i * stride],
    )
}

/// The `k`-th most recent sample of `s`, or 0 where there is none.
pub open spec fn back(s: Seq<i16>, k: int) -> int {
    if s.len() >= k {
        s[s.len() - k] as int
    } else {
        0
    }
}

/// The samples reconstructed from a sequence of raw bytes, starting from an
/// all-zero history.
pub open spec fn reconstruct(c: DecodeConfig, bytes: Seq<u8>) -> Seq<i16>
    decreases bytes.len(),
{
    if bytes.len() == 0 {
        Seq::empty()
    } else {
        let prev = reconstruct(c, bytes.drop_last());
        let b = bytes.last();
        prev.push(
            next_sample(
                c.compression,
                b,
                decode_value(b, c),
                back(prev, 1),
                back(prev, 2),
                back(prev, 3),
            ) as i16,
        )
    }
}

/// The decoded buffer of a raw stream under a configuration.
pub open spec fn decoded(input: Seq<u8>, c: DecodeConfig) -> Seq<i16> {
    reconstruct(c, addressed(input, c.start_offset as int, c.stride as int))
}

/// The error, if any, that keeps a configuration from being decoded over a
/// stream of `n` bytes.
pub open spec fn config_error(c: DecodeConfig, n: int) -> Option<DecodeError> {
    if c.stride == 0 {
        Some(DecodeError::ZeroStride)
    } else if c.window_start > c.window_end {
        Some(DecodeError::InvalidWindow)
    } else if c.start_offset >= n {
        Some(DecodeError::StartOutOfBounds)
    } else {
        None
    }
}

/// One sample per raw byte.
pub proof fn lemma_reconstruct_len(c: DecodeConfig, bytes: Seq<u8>)
    ensures
        reconstruct(c, bytes).len() == bytes.len(),
    decreases bytes.len(),
{
    if bytes.len() > 0 {
        lemma_reconstruct_len(c, bytes.drop_last());
    }
}

/// A walk position in the stream lies before the end of the walk, and the
/// first position whose successor leaves the stream is the last one.
proof fn lemma_walk_position(n: int, start: int, stride: int, k: int)
    requires
        stride >= 1,
        k >= 0,
        start >= 0,
        start + k * stride < n,
    ensures
        k < addressed_count(n, start, stride),
        start + (k + 1) * stride >= n ==> k + 1 == addressed_count(n, start, stride),
{
    let x = n - start - 1;
    lemma_fundamental_div_mod(x, stride);
    lemma_mod_pos_bound(x, stride);
    let q = x / stride;
    let r = x % stride;
    assert(k < q + 1) by (nonlinear_arith)
        requires
            k * stride <= x,
            x == stride * q + r,
            r < stride,
            stride >= 1,
    ;
    if start + (k + 1) * stride >= n {
        assert(q < k + 1) by (nonlinear_arith)
            requires
                x < (k + 1) * stride,
                x == stride * q + r,
                r >= 0,
                stride >= 1,
        ;
    }
}

/// Decodes the raw stream from `start_offset` with step `stride` until the
/// next step would leave the stream. Fails when the stride is zero or when
/// `start_offset` lies past the stream; the window plays no part here.
pub fn decode(input: &Vec<u8>, c: &DecodeConfig) -> (r: Result<Vec<i16>, DecodeError>)
    ensures
        c.stride == 0 ==> r == Err::<Vec<i16>, DecodeError>(DecodeError::ZeroStride),
        c.stride >= 1 && c.start_offset >= input.len() ==> r == Err::<Vec<i16>, DecodeError>(
            DecodeError::StartOutOfBounds,
        ),
        c.stride >= 1 && c.start_offset < input.len() ==> r is Ok && r.unwrap()@ == decoded(
            input@,
            *c,
        ),
{
    if c.stride == 0 {
        return Err(DecodeError::ZeroStride);
    }
    if c.start_offset >= input.len() {
        return Err(DecodeError::StartOutOfBounds);
    }
    let ghost n = input.len() as int;
    let ghost start = c.start_offset as int;
    let ghost stride = c.stride as int;
    let ghost bytes = addressed(input@, start, stride);
    let mut out: Vec<i16> = Vec::new();
    let mut p = Predictor::new(c.compression);
    let mut ix: usize = c.start_offset;
    proof {
        assert(0 * stride == 0) by (nonlinear_arith);
        lemma_walk_position(n, start, stride, 0);
        assert(bytes.take(0) =~= Seq::<u8>::empty());
    }
    loop
        invariant_except_break
            ix == start + out.len() * stride,
            ix < n,
            out.len() < bytes.len(),
        invariant
            n == input.len(),
            start == c.start_offset,
            stride == c.stride,
            stride >= 1,
            bytes.len() == addressed_count(n, start, stride),
            bytes == addressed(input@, start, stride),
            out@ == reconstruct(*c, bytes.take(out.len() as int)),
            p.compression == c.compression,
            p.h1 == back(out@, 1),
            p.h2 == back(out@, 2),
            p.h3 == back(out@, 3),
        ensures
            out@ == reconstruct(*c, bytes),
        decreases n - ix,
    {
        let b = input[ix];
        let d = decode_one(b, c);
        let s = p.step(b, d);
        let ghost k = out.len() as int;
        let ghost prev = out@;
        out.push(s);
        proof {
            assert(bytes.take(k + 1).drop_last() =~= bytes.take(k));
            assert(bytes.take(k + 1).last() == b);
            lemma_reconstruct_len(*c, bytes.take(k));
            assert(out@ == reconstruct(*c, bytes.take(k + 1)));
        }
        if c.stride >= input.len() - ix {
            proof {
                assert(start + (k + 1) * stride == ix + stride) by (nonlinear_arith)
                    requires
                        ix == start + k * stride,
                ;
                lemma_walk_position(n, start, stride, k);
                assert(bytes.take(k + 1) =~= bytes);
            }
            break;
        }
        ix = ix + c.stride;
        proof {
            assert(ix == start + (k + 1) * stride) by (nonlinear_arith)
                requires
                    ix == start + k * stride + stride,
            ;
            lemma_walk_position(n, start, stride, k + 1);
        }
    }
    Ok(out)
}

/// Checks a configuration against a stream of `n` bytes.
pub fn validate(c: &DecodeConfig, n: usize) -> (r: Result<(), DecodeError>)
    ensures
        match config_error(*c, n as int) {
            Some(e) => r == Err::<(), DecodeError>(e),
            None => r is Ok && c.wf(),
        },
{
    if c.stride == 0 {
        Err(DecodeError::ZeroStride)
    } else if c.window_start > c.window_end {
        Err(DecodeError::InvalidWindow)
    } else if c.start_offset >= n {
        Err(DecodeError::StartOutOfBounds)
    } else {
        Ok(())
    }
}

/// The raw stream, the configuration in force and the buffer decoded from
/// the two. The buffer is recomputed in full on every change of
/// configuration, and a configuration that cannot be decoded is refused.
pub struct DecodeSession {
    input: Vec<u8>,
    config: DecodeConfig,
    buffer: Vec<i16>,
}

impl DecodeSession {
    /// The raw stream.
    pub closed spec fn input_seq(&self) -> Seq<u8> {
        self.input@
    }

    /// The configuration in force.
    pub closed spec fn config_view(&self) -> DecodeConfig {
        self.config
    }

    /// The decoded buffer.
    pub closed spec fn buffer_seq(&self) -> Seq<i16> {
        self.buffer@
    }

    /// The session invariant: the configuration is valid for the stream and
    /// the buffer is what it decodes to.
    pub open spec fn wf(&self) -> bool {
        &&& config_error(self.config_view(), self.input_seq().len() as int) is None
        &&& self.config_view().wf()
        &&& self.buffer_seq() == decoded(self.input_seq(), self.config_view())
    }

    /// Opens a session on a raw stream, decoding it under `config`.
    pub fn new(input: Vec<u8>, config: DecodeConfig) -> (r: Result<DecodeSession, DecodeError>)
        ensures
            match config_error(config, input@.len() as int) {
                Some(e) => r is Err && r->Err_0 == e,
                None => r is Ok && r->Ok_0.wf() && r->Ok_0.input_seq() == input@
                    && r->Ok_0.config_view() == config,
            },
    {
        match validate(&config, input.len()) {
            Err(e) => Err(e),
            Ok(()) => {
                let buffer = match decode(&input, &config) {
                    Ok(b) => b,
                    Err(e) => {
                        return Err(e);
                    },
                };
                Ok(DecodeSession { input, config, buffer })
            },
        }
    }

    /// Replaces the configuration and recomputes the buffer. A configuration
    /// that cannot be decoded is refused and the session is left as it was.
    pub fn set_config(&mut self, config: DecodeConfig) -> (r: Result<(), DecodeError>)
        requires
            old(self).wf(),
        ensures
            final(self).wf(),
            final(self).input_seq() == old(self).input_seq(),
            match config_error(config, old(self).input_seq().len() as int) {
                Some(e) => r == Err::<(), DecodeError>(e) && final(self).config_view()
                    == old(self).config_view() && final(self).buffer_seq()
                    == old(self).buffer_seq(),
                None => r is Ok && final(self).config_view() == config,
            },
    {
        validate(&config, self.input.len())?;
        match decode(&self.input, &config) {
            Ok(b) => {
                self.config = config;
                self.buffer = b;
                Ok(())
            },
            Err(e) => Err(e),
        }
    }

    /// The configuration in force.
    pub fn config(&self) -> (r: DecodeConfig)
        ensures
            r == self.config_view(),
    {
        self.config
    }

    /// The decoded buffer.
    pub fn buffer(&self) -> (r: &Vec<i16>)
        ensures
            r@ == self.buffer_seq(),
    {
        &self.buffer
    }

    /// The raw stream.
    pub fn input(&self) -> (r: &Vec<u8>)
        ensures
            r@ == self.input_seq(),
    {
        &self.input
    }

    /// An independently owned copy of the decoded buffer, for playback.
    pub fn snapshot(&self) -> (r: Vec<i16>)
        ensures
            r@ == self.buffer_seq(),
    {
        self.buffer.clone()
    }
}

/// The number of decoded samples is the number of stride steps that fit in
/// the stream from the start offset, `ceil((n - start) / stride)`, and every
/// addressed byte lies inside the stream.
pub proof fn lemma_decoded_length(input: Seq<u8>, c: DecodeConfig)
    requires
        c.stride >= 1,
        c.start_offset < input.len(),
    ensures
        decoded(input, c).len() == (input.len() - c.start_offset + c.stride - 1) / (
        c.stride as int),
        forall|i: int|
            0 <= i < decoded(input, c).len() ==> #[trigger] (c.start_offset + i * c.stride)
                < input.len(),
{
    let n = input.len() as int;
    let start = c.start_offset as int;
    let stride = c.stride as int;
    let bytes = addressed(input, start, stride);
    lemma_reconstruct_len(c, bytes);
    let x = n - start - 1;
    lemma_fundamental_div_mod(x, stride);
    lemma_mod_pos_bound(x, stride);
    let q = x / stride;
    let r = x % stride;
    assert(x + stride == (q + 1) * stride + r) by (nonlinear_arith)
        requires
            x == stride * q + r,
    ;
    lemma_fundamental_div_mod_converse(x + stride, stride, q + 1, r);
    assert forall|i: int| 0 <= i < decoded(input, c).len() implies #[trigger] (c.start_offset + i
        * c.stride) < input.len() by {
        assert(i * stride <= q * stride) by (nonlinear_arith)
            requires
                0 <= i <= q,
                stride >= 1,
        ;
        assert(q * stride <= x) by (nonlinear_arith)
            requires
                x == stride * q + r,
                r >= 0,
        ;
    }
}

/// Under first-order prediction, a stream whose bytes all decode to zero
/// reconstructs to samples that all keep the initial history value, zero.
pub proof fn lemma_order1_zero_residuals(c: DecodeConfig, bytes: Seq<u8>)
    requires
        c.compression == Compression::Order1,
        forall|i: int| 0 <= i < bytes.len() ==> decode_value(#[trigger] bytes[i], c) == 0,
    ensures
        forall|i: int| 0 <= i < bytes.len() ==> #[trigger] reconstruct(c, bytes)[i] == 0,
{
    lemma_zero_residuals(c, bytes);
}

/// Under second- and third-order prediction, a stream whose bytes all decode
/// to zero reconstructs to all-zero samples: the saturating predictor does
/// not drift from a zero history.
pub proof fn lemma_order2_order3_zero_residuals(c: DecodeConfig, bytes: Seq<u8>)
    requires
        c.compression == Compression::Order2 || c.compression == Compression::Order3,
        forall|i: int| 0 <= i < bytes.len() ==> decode_value(#[trigger] bytes[i], c) == 0,
    ensures
        forall|i: int| 0 <= i < bytes.len() ==> #[trigger] reconstruct(c, bytes)[i] == 0,
{
    lemma_zero_residuals(c, bytes);
}

proof fn lemma_zero_residuals(c: DecodeConfig, bytes: Seq<u8>)
    requires
        c.compression == Compression::Order1 || c.compression == Compression::Order2
            || c.compression == Compression::Order3,
        forall|i: int| 0 <= i < bytes.len() ==> decode_value(#[trigger] bytes[i], c) == 0,
    ensures
        forall|i: int| 0 <= i < bytes.len() ==> #[trigger] reconstruct(c, bytes)[i] == 0,
    decreases bytes.len(),
{
    lemma_reconstruct_len(c, bytes);
    if bytes.len() > 0 {
        let prev_bytes = bytes.drop_last();
        assert forall|i: int| 0 <= i < prev_bytes.len() implies decode_value(
            #[trigger] prev_bytes[i],
            c,
        ) == 0 by {
            assert(prev_bytes[i] == bytes[i]);
        }
        lemma_zero_residuals(c, prev_bytes);
        lemma_reconstruct_len(c, prev_bytes);
        assert(decode_value(bytes.last(), c) == 0);
    }
}

} // verus!
