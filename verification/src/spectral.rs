use vstd::prelude::*;

verus! {

/// Frame layout of a short-time Fourier transform.
#[derive(Debug, Clone, Copy, PartialEq, Eq, Structural)]
pub struct StftConfig {
    pub n_fft: usize,
    pub hop_length: usize,
    pub win_length: usize,
    /// Reflect-pad the signal by `n_fft / 2` on each side first.
    pub center: bool,
}

/// The number of frames of a signal of `len` samples: none when the
/// (padded) signal is shorter than one frame.
pub open spec fn spec_frame_count(len: int, cfg: StftConfig) -> int {
    let padded = if cfg.center { len + 2 * (cfg.n_fft / 2) } else { len };
    if padded < cfg.n_fft {
        0
    } else {
        (padded - cfg.n_fft) / (cfg.hop_length as int) + 1
    }
}

/// The number of frames of the transform of `len` samples.
pub fn stft_frame_count(len: usize, cfg: &StftConfig) -> (r: usize)
    requires
        cfg.hop_length > 0,
        len + cfg.n_fft < usize::MAX,
    ensures
        r == spec_frame_count(len as int, *cfg),
{
    let padded = if cfg.center {
        len + 2 * (cfg.n_fft / 2)
    } else {
        len
    };
    if padded < cfg.n_fft {
        0
    } else {
        (padded - cfg.n_fft) / cfg.hop_length + 1
    }
}

/// The source index of the `j`-th sample of the leading reflection.
pub open spec fn front_index(j: int, len: int, pad: int) -> int {
    if pad - j <= len - 1 {
        pad - j
    } else {
        len - 1
    }
}

/// The source index of the `j`-th sample of the trailing reflection.
pub open spec fn back_index(j: int, len: int) -> int {
    if len >= 2 + j {
        len - 2 - j
    } else {
        0
    }
}

/// A signal reflected by `pad` samples at each end, mirroring around the
/// edge samples (which are not repeated); a signal shorter than the
/// padding repeats its edge samples instead.
pub open spec fn spec_reflect_pad<T>(s: Seq<T>, pad: int) -> Seq<T> {
    Seq::new(pad as nat, |j: int| s[front_index(j, s.len() as int, pad)]) + s + Seq::new(
        pad as nat,
        |j: int| s[back_index(j, s.len() as int)],
    )
}

/// Reflect-pads a signal by `pad` samples at each end.
pub fn reflect_pad<T: Copy>(signal: &[T], pad: usize) -> (r: Vec<T>)
    requires
        pad == 0 || signal@.len() >= 1,
        signal@.len() + 2 * pad <= usize::MAX,
    ensures
        r@ == spec_reflect_pad(signal@, pad as int),
{
    let len = signal.len();
    let mut out: Vec<T> = Vec::new();
    let ghost s = signal@;
    let mut i: usize = pad;
    while i >= 1
        invariant
            i <= pad,
            len == s.len(),
            s == signal@,
            pad == 0 || len >= 1,
            out@.len() == pad - i,
            forall|j: int| 0 <= j < pad - i ==> out@[j] == s[front_index(j, len as int, pad as int)],
        decreases i,
    {
        let idx = if i <= len - 1 {
            i
        } else {
            len - 1
        };
        proof {
            assert(idx == front_index(pad - i, len as int, pad as int));
        }
        out.push(signal[idx]);
        i = i - 1;
    }
    let ghost front = out@;
    let mut k: usize = 0;
    while k < len
        invariant
            k <= len,
            len == s.len(),
            s == signal@,
            out@ == front + s.take(k as int),
        decreases len - k,
    {
        out.push(signal[k]);
        k = k + 1;
        assert(out@ =~= front + s.take(k as int));
    }
    assert(s.take(len as int) =~= s);
    let ghost mid = out@;
    let mut j: usize = 1;
    while j <= pad
        invariant
            1 <= j <= pad + 1,
            len == s.len(),
            s == signal@,
            pad == 0 || len >= 1,
            len + 2 * pad <= usize::MAX,
            out@.len() == mid.len() + (j - 1),
            forall|t: int| 0 <= t < mid.len() ==> out@[t] == mid[t],
            forall|t: int| 0 <= t < j - 1 ==> out@[mid.len() + t] == s[back_index(t, len as int)],
        decreases pad + 1 - j,
    {
        let idx = if len >= 1 + j {
            len - (1 + j)
        } else {
            0
        };
        proof {
            assert(idx == back_index(j - 1, len as int));
        }
        out.push(signal[idx]);
        j = j + 1;
    }
    let ghost want = spec_reflect_pad(s, pad as int);
    assert(front.len() == pad);
    assert(mid == front + s);
    assert(out@.len() == want.len());
    assert forall|t: int| 0 <= t < want.len() implies out@[t] == want[t] by {
        if t < pad {
            assert(out@[t] == mid[t]);
            assert(mid[t] == front[t]);
        } else if t < pad + len {
            assert(out@[t] == mid[t]);
            assert(mid[t] == s[t - pad]);
        } else {
            let u = t - mid.len();
            assert(out@[mid.len() + u] == s[back_index(u, len as int)]);
        }
    }
    assert(out@ =~= want);
    out
}

} // verus!
