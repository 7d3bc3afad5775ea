//! The decision rule: an intensity below the threshold means sleeping.
use crate::float_bits::{
    biased_exponent, float_bits_less, float_less, fraction, is_finite, is_nan, scaled_value,
};
use crate::nul_text::{
    contains_nul, lemma_until_nul_round_trip, nul_terminated, nul_terminated_bytes, until_nul,
};
use vstd::arithmetic::power2::{lemma2_to64, lemma_pow2_adds, pow2};
use vstd::prelude::*;
use vstd::string::StringSliceAdditionalSpecFns;

verus! {

/// Bit pattern of the single-precision value nearest to 0.2.
pub const SLEEP_THRESHOLD_BITS: u32 = 0x3e4c_cccd;

/// The two states an intensity is classified into.
#[derive(Clone, Copy, Debug, PartialEq, Eq, Structural)]
pub enum StateLabel {
    Sleeping,
    Awake,
}

/// The state of an intensity given by its bit pattern: sleeping exactly when
/// the intensity is less than the threshold by the float `<`.
pub open spec fn decide(intensity_bits: u32) -> StateLabel {
    if float_less(intensity_bits, SLEEP_THRESHOLD_BITS) {
        StateLabel::Sleeping
    } else {
        StateLabel::Awake
    }
}

/// The fixed text of each label.
pub open spec fn label_text(label: StateLabel) -> Seq<char> {
    match label {
        StateLabel::Sleeping => seq!['S', 'L', 'E', 'E', 'P', 'I', 'N', 'G'],
        StateLabel::Awake => seq!['A', 'W', 'A', 'K', 'E'],
    }
}

/// The bytes of ASCII text, one per character.
pub open spec fn ascii_bytes(s: Seq<char>) -> Seq<u8> {
    Seq::new(s.len(), |i: int| s[i] as u8)
}

/// The NUL-terminated buffer that carries a label's text.
pub open spec fn label_buffer(label: StateLabel) -> Seq<u8> {
    nul_terminated(ascii_bytes(label_text(label)))
}

impl StateLabel {
    /// The label's text, `"SLEEPING"` or `"AWAKE"`.
    pub fn as_str(&self) -> (r: &'static str)
        ensures
            r@ == label_text(*self),
    {
        proof {
            reveal_strlit("SLEEPING");
            reveal_strlit("AWAKE");
        }
        match self {
            StateLabel::Sleeping => "SLEEPING",
            StateLabel::Awake => "AWAKE",
        }
    }

    /// The label's text as a freshly allocated NUL-terminated buffer.
    pub fn to_nul_terminated(&self) -> (r: Vec<u8>)
        ensures
            r@ == label_buffer(*self),
    {
        let text = self.as_str();
        proof {
            let s = text@;
            assert(vstd::string::is_ascii(text));
            vstd::string::is_ascii_spec_bytes(text);
            assert(text.spec_bytes() =~= ascii_bytes(s));
            assert forall|i: int| 0 <= i < s.len() implies ascii_bytes(s)[i] != 0 by {
                assert(s[i] != '\0');
            }
        }
        match nul_terminated_bytes(text) {
            Some(buf) => buf,
            None => {
                // every label byte is a capital letter, so this arm is never taken
                Vec::new()
            },
        }
    }
}

/// Classifies an intensity given by its bit pattern (`f32::to_bits`).
pub fn detect_state(intensity_bits: u32) -> (r: StateLabel)
    ensures
        r == decide(intensity_bits),
{
    if float_bits_less(intensity_bits, SLEEP_THRESHOLD_BITS) {
        StateLabel::Sleeping
    } else {
        StateLabel::Awake
    }
}

/// The label text for an intensity, as a NUL-terminated buffer whose
/// ownership passes to the caller.
pub fn detect_sleep(intensity_bits: u32) -> (r: Vec<u8>)
    ensures
        r@ == label_buffer(decide(intensity_bits)),
{
    detect_state(intensity_bits).to_nul_terminated()
}

/// The label text for an intensity, to be handed to a managed runtime.
pub fn detect_sleep_internal(intensity_bits: u32) -> (r: &'static str)
    ensures
        r@ == label_text(decide(intensity_bits)),
{
    detect_state(intensity_bits).as_str()
}

/// The threshold is the single-precision value nearest to one fifth: five
/// times it exceeds one by `2^-26`, while its two neighbours miss one by
/// four and six times as much.
pub proof fn lemma_threshold_nearest_one_fifth()
    ensures
        5 * scaled_value(SLEEP_THRESHOLD_BITS) == pow2(149) + pow2(123),
        5 * scaled_value((SLEEP_THRESHOLD_BITS - 1) as u32) == pow2(149) - 4 * pow2(123),
        5 * scaled_value((SLEEP_THRESHOLD_BITS + 1) as u32) == pow2(149) + 6 * pow2(123),
{
    lemma2_to64();
    lemma_pow2_adds(26, 123);
    let t = SLEEP_THRESHOLD_BITS;
    assert(biased_exponent(t) == 124 && fraction(t) == 0x4c_cccd);
    assert(biased_exponent((t - 1) as u32) == 124 && fraction((t - 1) as u32) == 0x4c_cccc);
    assert(biased_exponent((t + 1) as u32) == 124 && fraction((t + 1) as u32) == 0x4c_ccce);
    let x = pow2(123);
    assert(pow2(149) == 0x400_0000 * x);
    assert(scaled_value(t) == 13421773 * x);
    assert(scaled_value((t - 1) as u32) == 13421772 * x);
    assert(scaled_value((t + 1) as u32) == 13421774 * x);
}

/// A finite intensity whose value is below the threshold is classified as
/// sleeping, by both the buffer and the text the library hands out.
pub proof fn lemma_below_threshold_sleeps(intensity_bits: u32)
    requires
        is_finite(intensity_bits),
        scaled_value(intensity_bits) < scaled_value(SLEEP_THRESHOLD_BITS),
    ensures
        decide(intensity_bits) == StateLabel::Sleeping,
        label_text(decide(intensity_bits)) == label_text(StateLabel::Sleeping),
        label_buffer(decide(intensity_bits)) == label_buffer(StateLabel::Sleeping),
{
    lemma2_to64();
}

/// A finite intensity whose value is at or above the threshold is classified
/// as awake, by both the buffer and the text the library hands out.
pub proof fn lemma_at_or_above_threshold_wakes(intensity_bits: u32)
    requires
        is_finite(intensity_bits),
        scaled_value(intensity_bits) >= scaled_value(SLEEP_THRESHOLD_BITS),
    ensures
        decide(intensity_bits) == StateLabel::Awake,
        label_text(decide(intensity_bits)) == label_text(StateLabel::Awake),
        label_buffer(decide(intensity_bits)) == label_buffer(StateLabel::Awake),
{
    lemma2_to64();
}

/// Every NaN, whatever its sign and payload, is classified as awake: a NaN is
/// never less than the threshold.
pub proof fn lemma_nan_wakes(intensity_bits: u32)
    requires
        is_nan(intensity_bits),
    ensures
        decide(intensity_bits) == StateLabel::Awake,
{
}

/// The buffer of every label reads back, up to its terminating zero byte, as
/// exactly the label's text, and that zero byte is its last and only one.
pub proof fn lemma_label_buffer_round_trip(label: StateLabel)
    ensures
        until_nul(label_buffer(label)) == ascii_bytes(label_text(label)),
        label_buffer(label).len() == label_text(label).len() + 1,
        label_buffer(label).last() == 0,
        !contains_nul(ascii_bytes(label_text(label))),
{
    let s = label_text(label);
    assert forall|i: int| 0 <= i < s.len() implies ascii_bytes(s)[i] != 0 by {
        assert(s[i] != '\0');
    }
    lemma_until_nul_round_trip(ascii_bytes(s));
}

} // verus!
