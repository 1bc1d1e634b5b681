//! Routing of interleaved samples to per-channel filter cascades, and the
//! cadence at which the cascades' coefficients are refreshed.
use vstd::prelude::*;
use vstd::arithmetic::div_mod::{
    lemma_div_of0, lemma_fundamental_div_mod, lemma_fundamental_div_mod_converse,
    lemma_mod_breakdown, lemma_small_mod,
};

verus! {

/// Number of full channel rotations between two coefficient refreshes.
pub const REFRESH_ROTATIONS: u32 = 500;

/// The channel that the sample at position `n` of an interleaved stream
/// with `channels` channels belongs to.
pub open spec fn channel_of(n: nat, channels: nat) -> nat
    recommends
        channels > 0,
{
    n % channels
}

/// Whether the coefficients are refreshed right after the sample at
/// position `n`: that sample completes a rotation whose count is a multiple
/// of the refresh period.
pub open spec fn refresh_after(n: nat, channels: nat) -> bool
    recommends
        channels > 0,
{
    (n + 1) % (channels * REFRESH_ROTATIONS as nat) == 0
}

/// Round-robin router over the channels of an interleaved stream.
pub struct ChannelRouter {
    channels: u16,
    current_channel: usize,
    update_counter: u32,
    routed: Ghost<nat>,
}

impl ChannelRouter {
    /// How many samples have been routed so far.
    pub closed spec fn routed(&self) -> nat {
        self.routed@
    }

    pub closed spec fn channel_count(&self) -> nat {
        self.channels as nat
    }

    /// The router's counters agree with the number of samples routed.
    pub closed spec fn wf(&self) -> bool {
        &&& self.channels > 0
        &&& self.current_channel as nat == self.routed@ % (self.channels as nat)
        &&& self.update_counter as nat == (self.routed@ / (self.channels as nat)) % (
        REFRESH_ROTATIONS as nat)
    }

    /// A router for a stream with `channels` interleaved channels, before its
    /// first sample.
    pub fn new(channels: u16) -> (r: Self)
        requires
            channels > 0,
        ensures
            r.wf(),
            r.channel_count() == channels as nat,
            r.routed() == 0,
    {
        proof {
            lemma_small_mod(0, channels as nat);
            lemma_div_of0(channels as int);
        }
        ChannelRouter { channels, current_channel: 0, update_counter: 0, routed: Ghost(0) }
    }

    pub fn channels(&self) -> (r: u16)
        ensures
            r as nat == self.channel_count(),
    {
        self.channels
    }

    /// The channel that the next sample belongs to.
    pub fn current_channel(&self) -> (r: usize)
        requires
            self.wf(),
        ensures
            r as nat == channel_of(self.routed(), self.channel_count()),
    {
        self.current_channel
    }

    /// Routes one sample: returns its channel, and whether the coefficients
    /// are to be refreshed once it has been processed.
    pub fn route(&mut self) -> (r: (usize, bool))
        requires
            old(self).wf(),
        ensures
            final(self).wf(),
            final(self).channel_count() == old(self).channel_count(),
            final(self).routed() == old(self).routed() + 1,
            r.0 as nat == channel_of(old(self).routed(), old(self).channel_count()),
            r.0 < old(self).channel_count(),
            r.1 == refresh_after(old(self).routed(), old(self).channel_count()),
    {
        let ghost n = self.routed@;
        let ghost c = self.channels as nat;
        let ch = self.current_channel;
        let mut refresh = false;
        proof {
            lemma_step(n, c);
            assert(REFRESH_ROTATIONS as nat == 500);
        }
        if self.current_channel + 1 == self.channels as usize {
            self.current_channel = 0;
            if self.update_counter + 1 == REFRESH_ROTATIONS {
                self.update_counter = 0;
                refresh = true;
            } else {
                self.update_counter = self.update_counter + 1;
            }
        } else {
            self.current_channel = self.current_channel + 1;
        }
        self.routed = Ghost(n + 1);
        (ch, refresh)
    }
}

proof fn lemma_step(n: nat, c: nat)
    requires
        c > 0,
    ensures
        n % c + 1 == c ==> (n + 1) % c == 0 && (n + 1) / c == n / c + 1,
        n % c + 1 != c ==> (n + 1) % c == n % c + 1 && (n + 1) / c == n / c,
        (n + 1) % (c * 500) == 0 <==> (n % c + 1 == c && (n / c) % 500 + 1 == 500),
        n % c + 1 == c && (n / c) % 500 + 1 == 500 ==> ((n + 1) / c) % 500 == 0,
        n % c + 1 == c && (n / c) % 500 + 1 != 500 ==> ((n + 1) / c) % 500 == (n / c) % 500
            + 1,
{
    let q: int = (n / c) as int;
    let r: int = (n % c) as int;
    lemma_fundamental_div_mod(n as int, c as int);
    if r + 1 == c {
        assert(n + 1 == (q + 1) * c) by (nonlinear_arith)
            requires
                n == c * q + r,
                r + 1 == c,
        ;
        lemma_fundamental_div_mod_converse((n + 1) as int, c as int, q + 1, 0);
    } else {
        lemma_fundamental_div_mod_converse((n + 1) as int, c as int, q, r + 1);
    }
    lemma_fundamental_div_mod(q, 500);
    let k: int = q / 500;
    let m: int = q % 500;
    if m + 1 == 500 {
        assert(q + 1 == (k + 1) * 500);
        lemma_fundamental_div_mod_converse(q + 1, 500, k + 1, 0);
    } else {
        lemma_fundamental_div_mod_converse(q + 1, 500, k, m + 1);
    }
    lemma_mod_breakdown((n + 1) as int, c as int, 500);
    let t = ((n + 1) / c) % 500;
    assert(c * t == 0 <==> t == 0) by (nonlinear_arith)
        requires
            c > 0,
            t >= 0,
    ;
}

/// How many of the first `n` samples of a stream with `channels` channels
/// are routed to channel `ch`.
pub open spec fn routed_count(n: nat, channels: nat, ch: nat) -> nat
    decreases n,
{
    if n == 0 {
        0
    } else {
        routed_count((n - 1) as nat, channels, ch) + if channel_of((n - 1) as nat, channels)
            == ch {
            1nat
        } else {
            0nat
        }
    }
}

/// In a stereo stream of an even number `n` of samples, the channels
/// alternate starting with channel 0, and each channel's cascade processes
/// exactly half of the samples.
pub proof fn lemma_stereo_round_robin(n: nat)
    requires
        n % 2 == 0,
    ensures
        forall|k: nat| k < n ==> #[trigger] channel_of(k, 2) == k % 2,
        forall|k: nat|
            k + 1 < n ==> channel_of(k, 2) != #[trigger] channel_of(k + 1, 2),
        channel_of(0, 2) == 0,
        routed_count(n, 2, 0) == n / 2,
        routed_count(n, 2, 1) == n / 2,
    decreases n,
{
    if n > 0 {
        let m = (n - 2) as nat;
        lemma_stereo_round_robin(m);
        assert(routed_count(m + 1, 2, 0) == routed_count(m, 2, 0) + 1);
        assert(routed_count(m + 1, 2, 1) == routed_count(m, 2, 1));
        assert(routed_count(m + 2, 2, 0) == routed_count(m + 1, 2, 0));
        assert(routed_count(m + 2, 2, 1) == routed_count(m + 1, 2, 1) + 1);
        assert(m + 2 == n);
    }
}

/// The rotation at which coefficients written when `p` rotations have been
/// completed first reach the filters: the next multiple of the refresh
/// period after `p`.
pub open spec fn effective_rotation(p: nat) -> nat {
    (p / REFRESH_ROTATIONS as nat) * REFRESH_ROTATIONS as nat + REFRESH_ROTATIONS as nat
}

/// Coefficients set once `p` full rotations have been processed take effect
/// exactly at the boundary `effective_rotation(p)`: no sample before the one
/// that completes that rotation triggers a refresh, and that one does.
pub proof fn lemma_refresh_cadence(p: nat, channels: nat)
    requires
        channels > 0,
    ensures
        effective_rotation(p) > p,
        effective_rotation(p) <= p + REFRESH_ROTATIONS as nat,
        effective_rotation(p) % REFRESH_ROTATIONS as nat == 0,
        refresh_after((effective_rotation(p) * channels - 1) as nat, channels),
        forall|n: nat|
            p * channels <= n < effective_rotation(p) * channels - 1 ==> !#[trigger] refresh_after(
                n,
                channels,
            ),
{
    let b = effective_rotation(p);
    let q: int = (p / 500) as int;
    lemma_fundamental_div_mod(p as int, 500);
    assert(b == 500 * (q + 1));
    lemma_fundamental_div_mod_converse(b as int, 500, q + 1, 0);
    assert(b * channels >= 1) by (nonlinear_arith)
        requires
            b >= 1,
            channels >= 1,
    ;
    let last = (b * channels - 1) as nat;
    assert(last + 1 == (channels * 500) * (q + 1)) by (nonlinear_arith)
        requires
            last + 1 == b * channels,
            b == 500 * (q + 1),
    ;
    lemma_fundamental_div_mod_converse((last + 1) as int, (channels * 500) as int, q + 1, 0);
    assert forall|n: nat| p * channels <= n < b * channels - 1 implies !#[trigger] refresh_after(
        n,
        channels,
    ) by {
        if (n + 1) % (channels * 500) == 0 {
            let d: int = (channels * 500) as int;
            lemma_fundamental_div_mod((n + 1) as int, d);
            let j: int = ((n + 1) as int) / d;
            assert(p < 500 * j < b) by (nonlinear_arith)
                requires
                    p * channels < n + 1,
                    n + 1 < b * channels,
                    n + 1 == d * j,
                    d == channels * 500,
                    channels > 0,
            ;
            assert(false) by (nonlinear_arith)
                requires
                    500 * q <= p,
                    p < 500 * j,
                    500 * j < 500 * (q + 1),
            ;
        }
    }
}

} // verus!
