use vstd::prelude::*;
use rand::Rng;

verus! {

#[verifier::external_type_specification]
#[verifier::external_body]
pub struct ExThreadRng(rand::rngs::ThreadRng);

/// `rand::rng()`: a handle to the thread-local random generator. Nothing is promised of it.
#[verifier::external_body]
fn thread_rng() -> rand::rngs::ThreadRng {
    rand::rng()
}

/// `Rng::random_range(0..=max)` on the thread-local generator: a uniformly drawn integer.
/// The draw rests on chance, so the contract says only that it lies in `0..=max`, as the
/// crate's source guarantees for a nonempty inclusive range (which `0..=max` always is).
#[verifier::external_body]
fn random_up_to(rng: &mut rand::rngs::ThreadRng, max: u8) -> (r: u8)
    ensures
        r <= max,
{
    rng.random_range(0..=max)
}

/// A square channel of the core APU.
pub struct SquareChannel {
    pub enabled: bool,
    pub frequency: u16,
    pub volume: u8,
    pub duty: u8,
    pub length: u8,
    pub envelope: u8,
}

/// A square channel with every field zero.
pub open spec fn square_off() -> SquareChannel {
    SquareChannel { enabled: false, frequency: 0, volume: 0, duty: 0, length: 0, envelope: 0 }
}

impl Default for SquareChannel {
    fn default() -> (r: SquareChannel)
        ensures
            r == square_off(),
    {
        SquareChannel { enabled: false, frequency: 0, volume: 0, duty: 0, length: 0, envelope: 0 }
    }
}

/// The wave channel of the core APU: 32 four-bit samples in 16 bytes.
pub struct WaveChannel {
    pub enabled: bool,
    pub frequency: u16,
    pub volume: u8,
    pub wave_ram: [u8; 16],
}

impl Default for WaveChannel {
    fn default() -> (r: WaveChannel)
        ensures
            !r.enabled,
            r.frequency == 0,
            r.volume == 0,
            r.wave_ram@ == Seq::new(16, |i: int| 0u8),
    {
        let r = WaveChannel { enabled: false, frequency: 0, volume: 0, wave_ram: [0u8; 16] };
        proof {
            assert(r.wave_ram@ =~= Seq::new(16, |i: int| 0u8));
        }
        r
    }
}

/// The noise channel of the core APU.
pub struct NoiseChannel {
    pub enabled: bool,
    pub frequency: u16,
    pub volume: u8,
    pub length: u8,
    pub envelope: u8,
}

impl Default for NoiseChannel {
    fn default() -> (r: NoiseChannel)
        ensures
            r == (NoiseChannel { enabled: false, frequency: 0, volume: 0, length: 0, envelope: 0 }),
    {
        NoiseChannel { enabled: false, frequency: 0, volume: 0, length: 0, envelope: 0 }
    }
}

/// The number of samples in `duration_ms` milliseconds at `sample_rate` samples per second.
pub open spec fn sample_count(sample_rate: u32, duration_ms: u32) -> nat {
    (sample_rate * duration_ms / 1000) as nat
}

impl NoiseChannel {
    /// Noise as 8-bit samples: silence when the channel is off or muted, else uniformly random
    /// samples in `0..=volume * 16`.
    pub fn generate_wave(&self, sample_rate: u32, duration_ms: u32) -> (r: Vec<u8>)
        requires
            sample_rate * duration_ms <= u32::MAX,
            self.enabled && self.volume != 0 ==> self.volume * 16 <= 255,
        ensures
            r.len() == sample_count(sample_rate, duration_ms),
            !self.enabled || self.volume == 0 ==> forall|i: int| 0 <= i < r.len() ==> r[i] == 0,
            forall|i: int| 0 <= i < r.len() ==> r[i] <= self.volume * 16,
    {
        let samples = (sample_rate * duration_ms / 1000) as usize;
        if !self.enabled || self.volume == 0 {
            return vec![0u8; samples];
        }
        let max = self.volume * 16;
        let mut buf: Vec<u8> = Vec::with_capacity(samples);
        let mut rng = thread_rng();
        let mut k: usize = 0;
        while k < samples
            invariant
                k <= samples,
                buf.len() == k,
                max == self.volume * 16,
                forall|i: int| 0 <= i < buf.len() ==> buf[i] <= max,
            decreases samples - k,
        {
            let v = random_up_to(&mut rng, max);
            buf.push(v);
            k = k + 1;
        }
        buf
    }
}

/// The core APU: four channels, their left/right routing bits and the master volume 0..=7.
pub struct APU {
    pub ch1: SquareChannel,
    pub ch2: SquareChannel,
    pub ch3: WaveChannel,
    pub ch4: NoiseChannel,
    pub left_enable: u8,
    pub right_enable: u8,
    pub master_volume: u8,
}

/// One channel's contribution to a side: its sample scaled by the master volume over 7, when
/// the side's routing bit `mask` is set.
pub open spec fn mix_term(enable: u8, mask: u8, sample: u8, master: u8) -> int {
    if enable & mask != 0 {
        (sample * master) / 7
    } else {
        0
    }
}

/// One output sample of a side: the sum of the routed contributions, capped at 255.
pub open spec fn mix_sample(enable: u8, master: u8, a: u8, b: u8, c: u8, d: u8) -> u8 {
    let s = mix_term(enable, 0x01, a, master) + mix_term(enable, 0x02, b, master) + mix_term(
        enable,
        0x04,
        c,
        master,
    ) + mix_term(enable, 0x08, d, master);
    if s > 255 {
        255
    } else {
        s as u8
    }
}

/// Whether a routed channel's samples fit an 8-bit product with the master volume.
pub open spec fn wave_fits(routed: bool, w: Seq<u8>, n: nat, master: u8) -> bool {
    routed ==> forall|i: int| 0 <= i < n ==> w[i] * master <= 255
}

impl APU {
    /// The power-on core APU: default channels, all routed to both sides, master volume 7.
    pub fn new() -> (r: APU)
        ensures
            r.left_enable == 0x0F,
            r.right_enable == 0x0F,
            r.master_volume == 7,
            r.ch1 == square_off(),
            r.ch2 == square_off(),
            !r.ch3.enabled && r.ch3.frequency == 0 && r.ch3.volume == 0,
            r.ch3.wave_ram@ == Seq::new(16, |i: int| 0u8),
            r.ch4 == (NoiseChannel { enabled: false, frequency: 0, volume: 0, length: 0, envelope: 0 }),
    {
        APU {
            ch1: SquareChannel::default(),
            ch2: SquareChannel::default(),
            ch3: WaveChannel::default(),
            ch4: NoiseChannel::default(),
            left_enable: 0x0F,
            right_enable: 0x0F,
            master_volume: 7,
        }
    }

    fn add_term(acc: u8, enable: u8, mask: u8, sample: u8, master: u8) -> (r: u8)
        requires
            enable & mask != 0 ==> sample * master <= 255,
        ensures
            r == if acc + mix_term(enable, mask, sample, master) > 255 {
                255
            } else {
                (acc + mix_term(enable, mask, sample, master)) as u8
            },
    {
        if enable & mask != 0 {
            acc.saturating_add(sample * master / 7)
        } else {
            acc
        }
    }

    /// Mixes the channel waves (each `sample_count` samples long, as the channels generate
    /// them) into the left and right outputs: each output sample is the sum of the routed
    /// channels' samples times the master volume over 7, capped at 255.
    pub fn mix(
        &self,
        ch1: &[u8],
        ch2: &[u8],
        ch3: &[u8],
        ch4: &[u8],
        sample_rate: u32,
        duration_ms: u32,
    ) -> (r: (Vec<u8>, Vec<u8>))
        requires
            sample_rate * duration_ms <= u32::MAX,
            ch1@.len() == sample_count(sample_rate, duration_ms),
            ch2@.len() == sample_count(sample_rate, duration_ms),
            ch3@.len() == sample_count(sample_rate, duration_ms),
            ch4@.len() == sample_count(sample_rate, duration_ms),
            wave_fits(
                (self.left_enable | self.right_enable) & 0x01 != 0,
                ch1@,
                sample_count(sample_rate, duration_ms),
                self.master_volume,
            ),
            wave_fits(
                (self.left_enable | self.right_enable) & 0x02 != 0,
                ch2@,
                sample_count(sample_rate, duration_ms),
                self.master_volume,
            ),
            wave_fits(
                (self.left_enable | self.right_enable) & 0x04 != 0,
                ch3@,
                sample_count(sample_rate, duration_ms),
                self.master_volume,
            ),
            wave_fits(
                (self.left_enable | self.right_enable) & 0x08 != 0,
                ch4@,
                sample_count(sample_rate, duration_ms),
                self.master_volume,
            ),
        ensures
            r.0.len() == sample_count(sample_rate, duration_ms),
            r.1.len() == sample_count(sample_rate, duration_ms),
            forall|i: int|
                0 <= i < r.0.len() ==> r.0[i] == mix_sample(
                    self.left_enable,
                    self.master_volume,
                    ch1[i],
                    ch2[i],
                    ch3[i],
                    ch4[i],
                ),
            forall|i: int|
                0 <= i < r.1.len() ==> r.1[i] == mix_sample(
                    self.right_enable,
                    self.master_volume,
                    ch1[i],
                    ch2[i],
                    ch3[i],
                    ch4[i],
                ),
    {
        let n = (sample_rate * duration_ms / 1000) as usize;
        let mv = self.master_volume;
        let le = self.left_enable;
        let re = self.right_enable;
        let mut left: Vec<u8> = Vec::with_capacity(n);
        let mut right: Vec<u8> = Vec::with_capacity(n);
        let mut i: usize = 0;
        while i < n
            invariant
                i <= n,
                n == sample_count(sample_rate, duration_ms),
                n == ch1@.len() && n == ch2@.len() && n == ch3@.len() && n == ch4@.len(),
                left.len() == i,
                right.len() == i,
                mv == self.master_volume,
                le == self.left_enable,
                re == self.right_enable,
                wave_fits((le | re) & 0x01 != 0, ch1@, n as nat, mv),
                wave_fits((le | re) & 0x02 != 0, ch2@, n as nat, mv),
                wave_fits((le | re) & 0x04 != 0, ch3@, n as nat, mv),
                wave_fits((le | re) & 0x08 != 0, ch4@, n as nat, mv),
                forall|j: int|
                    0 <= j < i ==> left[j] == mix_sample(le, mv, ch1[j], ch2[j], ch3[j], ch4[j]),
                forall|j: int|
                    0 <= j < i ==> right[j] == mix_sample(re, mv, ch1[j], ch2[j], ch3[j], ch4[j]),
            decreases n - i,
        {
            proof {
                lemma_route_bits(le, re);
            }
            let mut l: u8 = 0;
            l = Self::add_term(l, le, 0x01, ch1[i], mv);
            l = Self::add_term(l, le, 0x02, ch2[i], mv);
            l = Self::add_term(l, le, 0x04, ch3[i], mv);
            l = Self::add_term(l, le, 0x08, ch4[i], mv);
            let mut r: u8 = 0;
            r = Self::add_term(r, re, 0x01, ch1[i], mv);
            r = Self::add_term(r, re, 0x02, ch2[i], mv);
            r = Self::add_term(r, re, 0x04, ch3[i], mv);
            r = Self::add_term(r, re, 0x08, ch4[i], mv);
            left.push(l);
            right.push(r);
            i = i + 1;
        }
        (left, right)
    }
}

/// A routing bit set on either side is set in the union of the two sides.
proof fn lemma_route_bits(le: u8, re: u8)
    by (bit_vector)
    ensures
        le & 0x01 != 0 ==> (le | re) & 0x01 != 0,
        le & 0x02 != 0 ==> (le | re) & 0x02 != 0,
        le & 0x04 != 0 ==> (le | re) & 0x04 != 0,
        le & 0x08 != 0 ==> (le | re) & 0x08 != 0,
        re & 0x01 != 0 ==> (le | re) & 0x01 != 0,
        re & 0x02 != 0 ==> (le | re) & 0x02 != 0,
        re & 0x04 != 0 ==> (le | re) & 0x04 != 0,
        re & 0x08 != 0 ==> (le | re) & 0x08 != 0,
{
}

} // verus!
