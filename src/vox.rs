use vstd::prelude::*;

verus! {

/// Amount added to the step index for each of the sixteen nibbles.
const ADPCM_INDEX_TABLE: [i16; 16] = [-1, -1, -1, -1, 2, 4, 6, 8, -1, -1, -1, -1, 2, 4, 6, 8];

/// OKI/VOX step sizes, indexed by the step index.
const VOX_STEP_TABLE: [i16; 49] = [
    16, 17, 19, 21, 23, 25, 28, 31, 34, 37, 41, 45,
    50, 55, 60, 66, 73, 80, 88, 97, 107, 118, 130, 143,
    157, 173, 190, 209, 230, 253, 279, 307, 337, 371, 408, 449,
    494, 544, 598, 658, 724, 796, 876, 963, 1060, 1166, 1282, 1411, 1552,
];

pub open spec fn index_table() -> Seq<int> {
    seq![-1, -1, -1, -1, 2, 4, 6, 8, -1, -1, -1, -1, 2, 4, 6, 8]
}

pub open spec fn step_table() -> Seq<int> {
    seq![
        16, 17, 19, 21, 23, 25, 28, 31, 34, 37, 41, 45,
        50, 55, 60, 66, 73, 80, 88, 97, 107, 118, 130, 143,
        157, 173, 190, 209, 230, 253, 279, 307, 337, 371, 408, 449,
        494, 544, 598, 658, 724, 796, 876, 963, 1060, 1166, 1282, 1411, 1552,
    ]
}

/// Largest step index: the last entry of the step table.
pub open spec fn max_step_index() -> int {
    48
}

pub open spec fn clamp(x: int, lo: int, hi: int) -> int {
    if x < lo {
        lo
    } else if x > hi {
        hi
    } else {
        x
    }
}

/// The codec's state as mathematical integers.
pub struct AdpcmState {
    pub predictor: int,
    pub step_index: int,
}

impl AdpcmState {
    /// The predictor is a signed 12-bit value and the step index points into the step table.
    pub open spec fn in_range(self) -> bool {
        &&& -2048 <= self.predictor <= 2047
        &&& 0 <= self.step_index <= max_step_index()
    }
}

/// The state every stream starts from.
pub open spec fn initial_state() -> AdpcmState {
    AdpcmState { predictor: 0, step_index: 0 }
}

/// Difference added to (or taken from) the predictor for nibble `n` at step size `step`.
pub open spec fn nibble_diff(n: int, step: int) -> int {
    ((2 * (n % 8) + 1) * step) / 8
}

/// The state after decoding nibble `n` (0 to 15) from state `s`.
pub open spec fn next_state(s: AdpcmState, n: int) -> AdpcmState {
    let step = step_table()[s.step_index];
    let diff = nibble_diff(n, step);
    let p = if n >= 8 {
        s.predictor - diff
    } else {
        s.predictor + diff
    };
    AdpcmState {
        predictor: clamp(p, -2048, 2047),
        step_index: clamp(s.step_index + index_table()[n], 0, max_step_index()),
    }
}

/// The sample emitted in state `s`: the 12-bit predictor scaled to 16 bits.
pub open spec fn sample_of(s: AdpcmState) -> int {
    16 * s.predictor
}

/// The state reached after decoding the nibbles `ns` in order, starting from `s`.
pub open spec fn run_state(s: AdpcmState, ns: Seq<u8>) -> AdpcmState
    decreases ns.len(),
{
    if ns.len() == 0 {
        s
    } else {
        run_state(next_state(s, ns[0] as int), ns.drop_first())
    }
}

/// The samples emitted while decoding the nibbles `ns` in order, starting from `s`.
pub open spec fn run_samples(s: AdpcmState, ns: Seq<u8>) -> Seq<int>
    decreases ns.len(),
{
    if ns.len() == 0 {
        Seq::empty()
    } else {
        let s1 = next_state(s, ns[0] as int);
        seq![sample_of(s1)] + run_samples(s1, ns.drop_first())
    }
}

pub open spec fn all_nibbles(ns: Seq<u8>) -> bool {
    forall|i: int| 0 <= i < ns.len() ==> ns[i] < 16
}

/// Decoding is a pure function of the state and the nibbles: decoding a sequence
/// and then one more nibble from the state reached gives the same state and
/// samples as decoding the longer sequence in one go.
pub proof fn lemma_decode_continues(s: AdpcmState, ns: Seq<u8>, n: u8)
    ensures
        run_state(s, ns.push(n)) == next_state(run_state(s, ns), n as int),
        run_samples(s, ns.push(n)) == run_samples(s, ns).push(
            sample_of(next_state(run_state(s, ns), n as int)),
        ),
    decreases ns.len(),
{
    if ns.len() == 0 {
        assert(ns.push(n)[0] == n);
        assert(ns.push(n).drop_first() =~= Seq::<u8>::empty());
        assert(run_state(s, ns) == s);
        assert(run_samples(s, ns) =~= Seq::<int>::empty());
        let s1 = next_state(s, n as int);
        assert(run_state(s1, ns.push(n).drop_first()) == s1);
        assert(run_samples(s1, ns.push(n).drop_first()) =~= Seq::<int>::empty());
        assert(run_samples(s, ns.push(n)) =~= seq![sample_of(next_state(s, n as int))]);
    } else {
        let s1 = next_state(s, ns[0] as int);
        assert(ns.push(n)[0] == ns[0]);
        assert(ns.push(n).drop_first() =~= ns.drop_first().push(n));
        lemma_decode_continues(s1, ns.drop_first(), n);
        assert(run_samples(s, ns.push(n)) =~= run_samples(s, ns).push(
            sample_of(next_state(run_state(s, ns), n as int)),
        ));
    }
}

/// Decoding one nibble keeps the state in range.
pub proof fn lemma_next_state_in_range(s: AdpcmState, n: int)
    ensures
        next_state(s, n).in_range(),
{
}

/// Whatever nibbles are decoded from a state in range, the state stays in range
/// after every step.
pub proof fn lemma_state_stays_in_range(s: AdpcmState, ns: Seq<u8>)
    requires
        s.in_range(),
        all_nibbles(ns),
    ensures
        forall|k: int| 0 <= k <= ns.len() ==> #[trigger] run_state(s, ns.take(k)).in_range(),
    decreases ns.len(),
{
    assert forall|k: int| 0 <= k <= ns.len() implies #[trigger] run_state(s, ns.take(k)).in_range() by {
        if k > 0 {
            let s1 = next_state(s, ns[0] as int);
            lemma_next_state_in_range(s, ns[0] as int);
            lemma_state_stays_in_range(s1, ns.drop_first());
            assert(ns.take(k).drop_first() =~= ns.drop_first().take(k - 1));
            assert(run_state(s1, ns.drop_first().take(k - 1)).in_range());
        }
    }
}

/// Decoding state of one ADPCM stream.
pub struct VoxState {
    predictor: i16,
    step_index: i16,
}

impl View for VoxState {
    type V = AdpcmState;

    closed spec fn view(&self) -> AdpcmState {
        AdpcmState { predictor: self.predictor as int, step_index: self.step_index as int }
    }
}

impl VoxState {
    #[verifier::type_invariant]
    spec fn inv(self) -> bool {
        self@.in_range()
    }

    /// A codec at the start of a stream: predictor and step index both zero.
    pub fn new() -> (r: VoxState)
        ensures
            r@ == initial_state(),
            r@.in_range(),
    {
        VoxState { predictor: 0, step_index: 0 }
    }

    /// Decodes one nibble, updates the state and returns the 16-bit sample.
    pub fn vox_decode(&mut self, in_nibble: &u8) -> (r: i16)
        requires
            *in_nibble < 16,
        ensures
            final(self)@ == next_state(old(self)@, *in_nibble as int),
            final(self)@.in_range(),
            r as int == sample_of(final(self)@),
    {
        proof {
            use_type_invariant(&*self);
        }
        let n: u8 = *in_nibble;
        // step size from the current index, before it is updated
        let step_size: i16 = VOX_STEP_TABLE[self.step_index as usize];
        let mut step_index: i16 = self.step_index + ADPCM_INDEX_TABLE[n as usize];
        if step_index < 0 {
            step_index = 0;
        } else if step_index > 48 {
            step_index = 48;
        }
        // bit 3 is the sign, the low three bits the magnitude
        let sign: u8 = n & 8;
        let delta: u8 = n & 7;
        proof {
            assert(delta == n % 8 && (sign != 0) == (n >= 8)) by (bit_vector)
                requires
                    n < 16,
                    sign == n & 8,
                    delta == n & 7,
            ;
            assert(16 <= step_size <= 1552);
            assert(0 <= (2 * delta + 1) * step_size <= 15 * 1552) by (nonlinear_arith)
                requires
                    0 <= delta <= 7,
                    16 <= step_size <= 1552,
            ;
        }
        let scaled: i16 = (2 * (delta as i16) + 1) * step_size;
        let diff: i16 = scaled >> 3;
        proof {
            assert(diff == scaled / 8) by (bit_vector)
                requires
                    0 <= scaled,
                    diff == scaled >> 3,
            ;
        }
        let mut predictor: i16 = self.predictor;
        if sign != 0 {
            predictor -= diff;
        } else {
            predictor += diff;
        }
        if predictor < -2048 {
            predictor = -2048;
        } else if predictor > 2047 {
            predictor = 2047;
        }
        self.predictor = predictor;
        self.step_index = step_index;
        self.predictor * 16
    }
}

} // verus!
