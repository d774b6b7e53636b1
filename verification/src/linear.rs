//! Linear interpolation between sample rates, for a stream that arrives
//! packet by packet.
//!
//! The converter carries its place in the stream and the last frame it has
//! seen from one packet to the next, so that the output does not depend on
//! where the packets were cut. Which input frames an output frame is made of,
//! and with what weight, is settled here in exact integer arithmetic; how two
//! samples are blended is left to the caller, who knows what a sample is.

use vstd::prelude::*;
use vstd::arithmetic::div_mod::lemma_fundamental_div_mod;
use vstd::arithmetic::div_mod::lemma_fundamental_div_mod_converse;
use vstd::arithmetic::div_mod::lemma_mod_pos_bound;
use vstd::arithmetic::div_mod::lemma_div_pos_is_pos;

verus! {

/// Where one output frame comes from: between the input frame `first` and
/// the one behind it, `weight` parts of the target rate away from `first`.
/// Frames are counted within the packet at hand; `-1` is the last frame of
/// the packet before.
pub struct Tap {
    pub first: int,
    pub weight: nat,
}

/// How far `place` lies before `limit`.
pub open spec fn gap(limit: nat, place: nat) -> nat {
    if place < limit {
        (limit - place) as nat
    } else {
        0
    }
}

/// The output frames that a packet of `frames` frames yields, in order.
///
/// `place` is where the next output frame lies, in parts of `to_rate` of an
/// input frame, counted from the last frame of the packet before. Output
/// frames lie `from_rate` parts apart. One is yielded as long as the frame
/// behind its place is inside the packet.
pub open spec fn planned(place: nat, frames: nat, from_rate: nat, to_rate: nat) -> Seq<Tap>
    decreases gap(frames * to_rate, place),
{
    if from_rate == 0 || to_rate == 0 || place >= frames * to_rate {
        Seq::empty()
    } else {
        seq![Tap { first: place as int / to_rate as int - 1, weight: place % to_rate }] + planned(
            place + from_rate,
            frames,
            from_rate,
            to_rate,
        )
    }
}

/// The place of the next output frame once a packet of `frames` frames has
/// been used, counted from the last frame of that packet.
pub open spec fn place_after(place: nat, frames: nat, from_rate: nat, to_rate: nat) -> nat
    decreases gap(frames * to_rate, place),
{
    if from_rate == 0 || to_rate == 0 {
        place
    } else if place >= frames * to_rate {
        (place - frames * to_rate) as nat
    } else {
        place_after(place + from_rate, frames, from_rate, to_rate)
    }
}

/// Output frames that stand on the very last frame of a stream: they have
/// nothing behind them to blend with and repeat that frame.
pub open spec fn held(place: nat, from_rate: nat, to_rate: nat) -> nat
    decreases gap(to_rate, place),
{
    if from_rate == 0 || place >= to_rate {
        0
    } else {
        1 + held(place + from_rate, from_rate, to_rate)
    }
}

/// `taps` with every frame counted `by` frames further on.
pub open spec fn shifted(taps: Seq<Tap>, by: nat) -> Seq<Tap> {
    Seq::new(taps.len(), |k: int| Tap { first: taps[k].first + by, weight: taps[k].weight })
}

/// A converter, as plain values.
pub struct LinearView<T> {
    /// The last frame seen, or nothing before the first.
    pub carry: Seq<T>,
    /// Where the next output frame lies, in parts of `to_rate` of a frame,
    /// counted from the carried frame.
    pub place: nat,
    pub from_rate: u32,
    pub to_rate: u32,
    /// Samples per frame.
    pub channels: nat,
}

/// Whole frames in a packet.
pub open spec fn frames_in(len: nat, channels: nat) -> nat {
    len / channels
}

/// The sample of channel `ch` in frame `frame` of a packet, where frame `-1`
/// is the carried one.
pub open spec fn sample_at<T>(carry: Seq<T>, input: Seq<T>, channels: nat, frame: int, ch: int) -> T {
    if frame < 0 {
        carry[ch]
    } else {
        input[frame * channels + ch]
    }
}

/// The converter after a packet: it carries the packet's last whole frame,
/// and stands where the packet's output left off. Between equal rates
/// nothing is converted, and the converter stays as it is.
pub open spec fn fed<T>(v: LinearView<T>, input: Seq<T>) -> LinearView<T> {
    if v.from_rate == v.to_rate {
        v
    } else {
        let frames = frames_in(input.len(), v.channels);
        LinearView {
            carry: if frames > 0 {
                input.subrange((frames - 1) * v.channels, (frames * v.channels) as int)
            } else {
                v.carry
            },
            place: place_after(v.place, frames, v.from_rate as nat, v.to_rate as nat),
            ..v
        }
    }
}

/// Whether `output` is what a packet becomes. Between equal rates it is the
/// packet itself, sample for sample, whatever its length. Otherwise it is,
/// frame by frame and channel by channel, what `blend` makes of the two input
/// samples that [`planned`] names, their weight, and the target rate.
pub open spec fn streamed<T, F: Fn(T, T, u32, u32) -> T>(
    v: LinearView<T>,
    input: Seq<T>,
    blend: F,
    output: Seq<T>,
) -> bool {
    if v.from_rate == v.to_rate {
        output == input
    } else {
        blended(v, input, blend, output)
    }
}

/// Whether `output` is, frame by frame and channel by channel, what `blend`
/// makes of the two input samples that [`planned`] names, their weight, and
/// the target rate.
pub open spec fn blended<T, F: Fn(T, T, u32, u32) -> T>(
    v: LinearView<T>,
    input: Seq<T>,
    blend: F,
    output: Seq<T>,
) -> bool {
    let taps = planned(
        v.place,
        frames_in(input.len(), v.channels),
        v.from_rate as nat,
        v.to_rate as nat,
    );
    &&& output.len() == taps.len() * v.channels
    &&& forall|k: int|
        0 <= k < output.len() ==> call_ensures(
            blend,
            (
                sample_at(
                    v.carry,
                    input,
                    v.channels,
                    taps[k / (v.channels as int)].first,
                    k % (v.channels as int),
                ),
                sample_at(
                    v.carry,
                    input,
                    v.channels,
                    taps[k / (v.channels as int)].first + 1,
                    k % (v.channels as int),
                ),
                taps[k / (v.channels as int)].weight as u32,
                v.to_rate,
            ),
            #[trigger] output[k],
        )
}

/// What the end of the stream adds: the carried frame, once for every output
/// frame that stands on it. Between equal rates, nothing.
pub open spec fn finished_with<T>(v: LinearView<T>) -> Seq<T> {
    if v.from_rate == v.to_rate {
        Seq::empty()
    } else {
        Seq::new(
            held(v.place, v.from_rate as nat, v.to_rate as nat) * v.channels,
            |k: int| v.carry[k % (v.channels as int)],
        )
    }
}

/// A converter before the first packet, or after the end of a stream.
pub open spec fn fresh<T>(from_rate: u32, to_rate: u32, channels: nat) -> LinearView<T> {
    LinearView { carry: Seq::empty(), place: to_rate as nat, from_rate, to_rate, channels }
}

/// Frames that `input_frames` frames at `from_rate` become at `to_rate`: the
/// quotient `input_frames * to_rate / from_rate`, rounded up.
pub open spec fn output_frames(input_frames: nat, from_rate: nat, to_rate: nat) -> nat {
    if from_rate == 0 {
        0
    } else {
        ((input_frames * to_rate + from_rate - 1) / (from_rate as int)) as nat
    }
}

proof fn lemma_place_split(place: nat, to_rate: nat, by: nat)
    requires
        to_rate > 0,
    ensures
        (place + by * to_rate) as int / to_rate as int == place as int / to_rate as int + by,
        (place + by * to_rate) % to_rate == place % to_rate,
{
    let t = to_rate as int;
    lemma_fundamental_div_mod(place as int, t);
    lemma_mod_pos_bound(place as int, t);
    assert(place + by * t == (place as int / t + by) * t + place as int % t) by (nonlinear_arith)
        requires
            place == t * (place as int / t) + place as int % t,
    ;
    lemma_fundamental_div_mod_converse(
        place + by * t,
        t,
        place as int / t + by,
        place as int % t,
    );
}

/// A packet that begins `by` frames further on yields the same output, with
/// every frame counted `by` further on.
proof fn lemma_planned_shift(place: nat, frames: nat, from_rate: nat, to_rate: nat, by: nat)
    requires
        from_rate > 0,
        to_rate > 0,
    ensures
        planned(place + by * to_rate, frames + by, from_rate, to_rate) == shifted(
            planned(place, frames, from_rate, to_rate),
            by,
        ),
        place_after(place + by * to_rate, frames + by, from_rate, to_rate) == place_after(
            place,
            frames,
            from_rate,
            to_rate,
        ),
    decreases gap(frames * to_rate, place),
{
    assert((frames + by) * to_rate == frames * to_rate + by * to_rate) by (nonlinear_arith);
    let moved = planned(place + by * to_rate, frames + by, from_rate, to_rate);
    let base = planned(place, frames, from_rate, to_rate);
    if place >= frames * to_rate {
        assert(moved =~= shifted(base, by));
    } else {
        lemma_planned_shift(place + from_rate, frames, from_rate, to_rate, by);
        lemma_place_split(place, to_rate, by);
        let rest = planned(place + from_rate, frames, from_rate, to_rate);
        assert(place + by * to_rate + from_rate == place + from_rate + by * to_rate);
        assert(moved =~= shifted(base, by)) by {
            assert forall|k: int| 0 <= k < moved.len() implies moved[k] == shifted(base, by)[k] by {
                if k > 0 {
                    assert(moved[k] == shifted(rest, by)[k - 1]);
                    assert(base[k] == rest[k - 1]);
                }
            }
        }
    }
}

/// Where packets are cut makes no difference: a run of `a + b` frames yields
/// the output of its first `a` frames followed by the output of the other
/// `b`, taken up where the first left off, and the converter ends in the same
/// place either way.
pub proof fn law_streaming_joins(place: nat, a: nat, b: nat, from_rate: nat, to_rate: nat)
    requires
        from_rate > 0,
        to_rate > 0,
    ensures
        planned(place, a + b, from_rate, to_rate) == planned(place, a, from_rate, to_rate)
            + shifted(planned(place_after(place, a, from_rate, to_rate), b, from_rate, to_rate), a),
        place_after(place, a + b, from_rate, to_rate) == place_after(
            place_after(place, a, from_rate, to_rate),
            b,
            from_rate,
            to_rate,
        ),
    decreases gap(a * to_rate, place),
{
    assert((a + b) * to_rate == a * to_rate + b * to_rate) by (nonlinear_arith);
    assert(0 <= b * to_rate) by (nonlinear_arith);
    let whole = planned(place, a + b, from_rate, to_rate);
    let head = planned(place, a, from_rate, to_rate);
    if place >= a * to_rate {
        let rest = (place - a * to_rate) as nat;
        lemma_planned_shift(rest, b, from_rate, to_rate, a);
        assert(rest + a * to_rate == place);
        assert(b + a == a + b);
        assert(head + shifted(planned(rest, b, from_rate, to_rate), a) =~= whole);
    } else {
        law_streaming_joins(place + from_rate, a, b, from_rate, to_rate);
        let tail = shifted(
            planned(place_after(place, a, from_rate, to_rate), b, from_rate, to_rate),
            a,
        );
        let tap = Tap { first: place as int / to_rate as int - 1, weight: place % to_rate };
        assert(whole =~= seq![tap] + planned(place + from_rate, a + b, from_rate, to_rate));
        assert(seq![tap] + (planned(place + from_rate, a, from_rate, to_rate) + tail) =~= head
            + tail);
    }
}

/// Every output frame of a packet has its two input frames at hand: the
/// first is the carried frame or a frame of the packet, the second a frame of
/// the packet; and its weight is less than the target rate.
pub proof fn law_taps_lie_in_packet(place: nat, frames: nat, from_rate: nat, to_rate: nat, k: int)
    requires
        0 <= k < planned(place, frames, from_rate, to_rate).len(),
    ensures
        -1 <= planned(place, frames, from_rate, to_rate)[k].first < frames - 1,
        planned(place, frames, from_rate, to_rate)[k].weight < to_rate,
        planned(place, frames, from_rate, to_rate)[k].first == -1 ==> place < to_rate,
    decreases gap(frames * to_rate, place),
{
    let t = to_rate as int;
    if k == 0 {
        lemma_fundamental_div_mod(place as int, t);
        lemma_mod_pos_bound(place as int, t);
        lemma_div_pos_is_pos(place as int, t);
        let lead = place as int / t;
        assert(lead < frames) by (nonlinear_arith)
            requires
                place == t * lead + place as int % t,
                0 <= place as int % t,
                place < frames * t,
                t > 0,
        ;
        if lead == 0 {
            assert(t * lead == 0) by (nonlinear_arith)
                requires
                    lead == 0,
            ;
        }
    } else {
        let rest = planned(place + from_rate, frames, from_rate, to_rate);
        assert(planned(place, frames, from_rate, to_rate)[k] == rest[k - 1]);
        law_taps_lie_in_packet(place + from_rate, frames, from_rate, to_rate, k - 1);
    }
}

/// After a packet the next output frame lies on the packet's last frame or
/// behind it, and less than one step behind where the packet ended.
pub proof fn lemma_place_bounded(place: nat, frames: nat, from_rate: nat, to_rate: nat)
    requires
        from_rate > 0,
        to_rate > 0,
    ensures
        place_after(place, frames, from_rate, to_rate) <= if place < from_rate {
            from_rate
        } else {
            place
        },
        frames > 0 || place_after(place, frames, from_rate, to_rate) == place,
    decreases gap(frames * to_rate, place),
{
    assert(0 <= frames * to_rate) by (nonlinear_arith);
    if place < frames * to_rate {
        lemma_place_bounded(place + from_rate, frames, from_rate, to_rate);
        lemma_place_step(place + from_rate, frames, from_rate, to_rate);
    }
}

proof fn lemma_place_step(place: nat, frames: nat, from_rate: nat, to_rate: nat)
    requires
        from_rate > 0,
        to_rate > 0,
        place < frames * to_rate + from_rate,
    ensures
        place_after(place, frames, from_rate, to_rate) < from_rate,
    decreases gap(frames * to_rate, place),
{
    if place < frames * to_rate {
        lemma_place_step(place + from_rate, frames, from_rate, to_rate);
    }
}

/// Output frames that lie before `limit`, from `place` on.
pub open spec fn steps(place: nat, limit: nat, from_rate: nat) -> nat
    decreases gap(limit, place),
{
    if from_rate == 0 || place >= limit {
        0
    } else {
        1 + steps(place + from_rate, limit, from_rate)
    }
}

proof fn lemma_held_steps(place: nat, by: nat, from_rate: nat, to_rate: nat)
    requires
        from_rate > 0,
    ensures
        held(place, from_rate, to_rate) == steps(place + by, to_rate + by, from_rate),
    decreases gap(to_rate, place),
{
    if place < to_rate {
        lemma_held_steps(place + from_rate, by, from_rate, to_rate);
        assert(place + from_rate + by == place + by + from_rate);
    }
}

proof fn lemma_all_steps(place: nat, frames: nat, from_rate: nat, to_rate: nat)
    requires
        from_rate > 0,
        to_rate > 0,
    ensures
        planned(place, frames, from_rate, to_rate).len() + held(
            place_after(place, frames, from_rate, to_rate),
            from_rate,
            to_rate,
        ) == steps(place, frames * to_rate + to_rate, from_rate),
    decreases gap(frames * to_rate, place),
{
    assert(0 <= frames * to_rate) by (nonlinear_arith);
    if place < frames * to_rate {
        lemma_all_steps(place + from_rate, frames, from_rate, to_rate);
    } else {
        lemma_held_steps((place - frames * to_rate) as nat, frames * to_rate, from_rate, to_rate);
    }
}

proof fn lemma_steps_round_up(place: nat, limit: nat, from_rate: nat)
    requires
        from_rate > 0,
    ensures
        steps(place, limit, from_rate) == (gap(limit, place) + from_rate - 1) / (from_rate as int),
    decreases gap(limit, place),
{
    let f = from_rate as int;
    let g = gap(limit, place) as int;
    if place >= limit {
        lemma_fundamental_div_mod_converse(f - 1, f, 0, f - 1);
    } else {
        lemma_steps_round_up(place + from_rate, limit, from_rate);
        if g > f {
            let q = (g - 1) / f;
            lemma_fundamental_div_mod(g - 1, f);
            lemma_mod_pos_bound(g - 1, f);
            assert(g - 1 + f == (q + 1) * f + (g - 1) % f) by (nonlinear_arith)
                requires
                    g - 1 == f * q + (g - 1) % f,
            ;
            lemma_fundamental_div_mod_converse(g - 1 + f, f, q + 1, (g - 1) % f);
        } else {
            lemma_fundamental_div_mod_converse(f - 1, f, 0, f - 1);
            lemma_fundamental_div_mod_converse(g + f - 1, f, 1, g - 1);
        }
    }
}

/// A whole stream comes out at the length that the rates ask for: from the
/// first packet to the end of the stream, however it is cut into packets of
/// whole frames, the plan of a conversion gives `frames` input frames
/// `frames * to_rate / from_rate` output frames, rounded up. (Between equal
/// rates no plan is followed, and every packet comes back as long as it is.)
pub proof fn law_stream_length(frames: nat, from_rate: nat, to_rate: nat)
    requires
        from_rate > 0,
        to_rate > 0,
    ensures
        planned(to_rate, frames, from_rate, to_rate).len() + held(
            place_after(to_rate, frames, from_rate, to_rate),
            from_rate,
            to_rate,
        ) == output_frames(frames, from_rate, to_rate),
{
    assert(0 <= frames * to_rate) by (nonlinear_arith);
    lemma_all_steps(to_rate, frames, from_rate, to_rate);
    lemma_steps_round_up(to_rate, frames * to_rate + to_rate, from_rate);
}

/// Whether a converter's numbers fit together. Every converter's do: it is
/// one between equal rates, which converts nothing, or one between two rates
/// above zero for a number of channels above zero.
pub open spec fn ready<T>(v: LinearView<T>) -> bool {
    v.from_rate == v.to_rate || {
        &&& v.from_rate > 0
        &&& v.to_rate > 0
        &&& v.channels > 0
        &&& v.place < v.to_rate ==> v.carry.len() == v.channels
    }
}

proof fn lemma_sample_in_first<T>(carry: Seq<T>, a: Seq<T>, b: Seq<T>, c: nat, frame: int, ch: int)
    requires
        c > 0,
        0 <= ch < c,
        -1 <= frame,
        (frame + 1) * c <= a.len(),
    ensures
        sample_at(carry, a + b, c, frame, ch) == sample_at(carry, a, c, frame, ch),
{
    if frame >= 0 {
        lemma_cell(frame, ch, frame + 1, c as int);
    }
}

proof fn lemma_sample_in_second<T>(
    carry: Seq<T>,
    a: Seq<T>,
    b: Seq<T>,
    c: nat,
    frames: nat,
    frame: int,
    ch: int,
)
    requires
        c > 0,
        0 <= ch < c,
        a.len() == frames * c,
        -1 <= frame,
        (frame + 1) * c <= b.len(),
        frame == -1 ==> frames > 0 || carry.len() == c,
    ensures
        sample_at(carry, a + b, c, frame + frames, ch) == sample_at(
            fed_carry(carry, a, c),
            b,
            c,
            frame,
            ch,
        ),
{
    let cc = c as int;
    lemma_place_split(0, c, frames);
    assert(frames_in(a.len(), c) == frames);
    if frame >= 0 {
        lemma_cell(frame, ch, frame + 1, cc);
        assert((frame + frames) * cc + ch == frames * cc + (frame * cc + ch)) by (nonlinear_arith);
    } else if frames > 0 {
        lemma_cell(frames - 1, ch, frames as int, cc);
        assert((frames - 1) * cc + cc == frames * cc) by (nonlinear_arith);
    }
}

/// The frame that a converter carries after a packet.
pub open spec fn fed_carry<T>(carry: Seq<T>, input: Seq<T>, channels: nat) -> Seq<T> {
    let frames = frames_in(input.len(), channels);
    if frames > 0 {
        input.subrange((frames - 1) * channels, (frames * channels) as int)
    } else {
        carry
    }
}

/// Converting packet by packet is converting the stream: where `a` is a run
/// of whole frames, or the rates are equal, what a converter makes of `a`
/// followed by what it then makes of `b` is what it makes of `a` and `b` as
/// one packet, and it is left in the same state. There is no seam where the
/// packets meet: the output frames between the last frame of `a` and the
/// first of `b` are blended from those two.
pub proof fn law_packets_join<T, F: Fn(T, T, u32, u32) -> T>(
    v: LinearView<T>,
    a: Seq<T>,
    b: Seq<T>,
    blend: F,
    out_a: Seq<T>,
    out_b: Seq<T>,
)
    requires
        ready(v),
        v.from_rate == v.to_rate || a.len() % v.channels == 0,
        streamed(v, a, blend, out_a),
        streamed(fed(v, a), b, blend, out_b),
    ensures
        streamed(v, a + b, blend, out_a + out_b),
        fed(fed(v, a), b) == fed(v, a + b),
        ready(fed(v, a)),
{
    if v.from_rate != v.to_rate {
        lemma_packets_join(v, a, b, blend, out_a, out_b);
    }
}

proof fn lemma_packets_join<T, F: Fn(T, T, u32, u32) -> T>(
    v: LinearView<T>,
    a: Seq<T>,
    b: Seq<T>,
    blend: F,
    out_a: Seq<T>,
    out_b: Seq<T>,
)
    requires
        ready(v),
        v.from_rate != v.to_rate,
        a.len() % v.channels == 0,
        streamed(v, a, blend, out_a),
        streamed(fed(v, a), b, blend, out_b),
    ensures
        streamed(v, a + b, blend, out_a + out_b),
        fed(fed(v, a), b) == fed(v, a + b),
        ready(fed(v, a)),
{
    let c = v.channels;
    let cc = c as int;
    let from = v.from_rate as nat;
    let to = v.to_rate as nat;
    let fa = frames_in(a.len(), c);
    let fb = frames_in(b.len(), c);
    lemma_fundamental_div_mod(a.len() as int, cc);
    let fai = a.len() as int / cc;
    let fbi = b.len() as int / cc;
    assert(fa == fai && fb == fbi);
    assert(a.len() as int % cc == 0);
    assert(a.len() == fai * cc) by (nonlinear_arith)
        requires
            a.len() == cc * fai + 0,
    ;
    lemma_fundamental_div_mod(b.len() as int, cc);
    lemma_mod_pos_bound(b.len() as int, cc);
    assert(fbi * cc <= b.len()) by (nonlinear_arith)
        requires
            b.len() == cc * fbi + b.len() as int % cc,
            0 <= b.len() as int % cc,
    ;
    lemma_place_split(b.len(), c, fa);
    assert(frames_in((a + b).len(), c) == fa + fb);
    let pa = place_after(v.place, fa, from, to);
    law_streaming_joins(v.place, fa, fb, from, to);
    lemma_place_bounded(v.place, fa, from, to);
    if fa > 0 && pa < to {
        assert(fed(v, a).carry.len() == c) by {
            assert((fa - 1) * cc + cc == fa * cc) by (nonlinear_arith);
        }
    }
    let taps_a = planned(v.place, fa, from, to);
    let taps_b = planned(pa, fb, from, to);
    let taps = planned(v.place, fa + fb, from, to);
    let out = out_a + out_b;
    assert(out.len() == taps.len() * c) by (nonlinear_arith)
        requires
            out.len() == out_a.len() + out_b.len(),
            out_a.len() == taps_a.len() * c,
            out_b.len() == taps_b.len() * c,
            taps.len() == taps_a.len() + taps_b.len(),
    ;
    assert(fed(v, a).carry == fed_carry(v.carry, a, c));
    assert forall|k: int| 0 <= k < out.len() implies call_ensures(
        blend,
        (
            sample_at(v.carry, a + b, c, taps[k / cc].first, k % cc),
            sample_at(v.carry, a + b, c, taps[k / cc].first + 1, k % cc),
            taps[k / cc].weight as u32,
            v.to_rate,
        ),
        #[trigger] out[k],
    ) by {
        lemma_fundamental_div_mod(k, cc);
        lemma_mod_pos_bound(k, cc);
        let ch = k % cc;
        if k < out_a.len() {
            let n = k / cc;
            assert(0 <= n < taps_a.len()) by (nonlinear_arith)
                requires
                    k == cc * n + ch,
                    0 <= ch < cc,
                    0 <= k < taps_a.len() * cc,
            ;
            law_taps_lie_in_packet(v.place, fa, from, to, n);
            let tap = taps_a[n];
            assert(taps[n] == tap);
            assert((tap.first + 2) * cc <= a.len()) by (nonlinear_arith)
                requires
                    tap.first + 2 <= fa,
                    a.len() == fa * cc,
                    cc > 0,
            ;
            assert((tap.first + 1) * cc <= (tap.first + 2) * cc) by (nonlinear_arith)
                requires
                    cc > 0,
            ;
            lemma_sample_in_first(v.carry, a, b, c, tap.first, ch);
            lemma_sample_in_first(v.carry, a, b, c, tap.first + 1, ch);
            assert(out[k] == out_a[k]);
        } else {
            let j = k - out_a.len();
            lemma_fundamental_div_mod(j, cc);
            lemma_mod_pos_bound(j, cc);
            lemma_place_split(j as nat, c, taps_a.len());
            let n = j / cc;
            assert(0 <= n < taps_b.len()) by (nonlinear_arith)
                requires
                    j == cc * n + j % cc,
                    0 <= j % cc < cc,
                    0 <= j < taps_b.len() * cc,
            ;
            assert(k / cc == taps_a.len() + n && k % cc == j % cc);
            law_taps_lie_in_packet(pa, fb, from, to, n);
            let tap = taps_b[n];
            assert(taps[taps_a.len() + n] == shifted(taps_b, fa)[n]);
            assert((tap.first + 2) * cc <= b.len()) by (nonlinear_arith)
                requires
                    tap.first + 2 <= fb,
                    fb * cc <= b.len(),
                    cc > 0,
            ;
            assert((tap.first + 1) * cc <= (tap.first + 2) * cc) by (nonlinear_arith)
                requires
                    cc > 0,
            ;
            lemma_sample_in_second(v.carry, a, b, c, fa, tap.first, ch);
            lemma_sample_in_second(v.carry, a, b, c, fa, tap.first + 1, ch);
            assert(out[k] == out_b[j]);
            assert(tap.first + fa + 1 == tap.first + 1 + fa);
        }
    }
    assert(fed(fed(v, a), b).carry =~= fed(v, a + b).carry) by {
        if fb > 0 {
            assert((fa + fb - 1) * cc == fa * cc + (fb - 1) * cc && (fa + fb) * cc == fa * cc + fb
                * cc && (fb - 1) * cc + cc == fb * cc && 0 <= (fb - 1) * cc) by (nonlinear_arith)
                requires
                    fb > 0,
                    cc > 0,
            ;
        } else if fa > 0 {
            assert((fa - 1) * cc + cc == fa * cc && 0 <= (fa - 1) * cc) by (nonlinear_arith)
                requires
                    fa > 0,
                    cc > 0,
            ;
        }
    }
}

proof fn lemma_cell(frame: int, ch: int, frames: int, channels: int)
    requires
        0 <= frame < frames,
        0 <= ch < channels,
    ensures
        0 <= frame * channels + ch < frames * channels,
        (frame * channels + ch) / channels == frame,
        (frame * channels + ch) % channels == ch,
        frame * channels + channels == (frame + 1) * channels,
{
    assert(0 <= frame * channels + ch < frames * channels) by (nonlinear_arith)
        requires
            0 <= frame < frames,
            0 <= ch < channels,
    ;
    assert(frame * channels + channels == (frame + 1) * channels) by (nonlinear_arith);
    lemma_fundamental_div_mod_converse(frame * channels + ch, channels, frame, ch);
}

/// A linear converter from one rate to another, for interleaved frames of a
/// fixed number of channels.
pub struct LinearResampler<T: Copy> {
    from_rate: u32,
    to_rate: u32,
    channels: usize,
    place: u64,
    carry: Vec<T>,
}

impl<T: Copy> View for LinearResampler<T> {
    type V = LinearView<T>;

    closed spec fn view(&self) -> LinearView<T> {
        LinearView {
            carry: self.carry@,
            place: self.place as nat,
            from_rate: self.from_rate,
            to_rate: self.to_rate,
            channels: self.channels as nat,
        }
    }
}

impl<T: Copy> LinearResampler<T> {
    #[verifier::type_invariant]
    closed spec fn inv(self) -> bool {
        if self.from_rate == self.to_rate {
            self.place == self.to_rate && self.carry@.len() == 0
        } else {
            &&& self.from_rate > 0
            &&& self.to_rate > 0
            &&& self.channels > 0
            &&& self.place <= self.from_rate + self.to_rate
            &&& self.carry@.len() == 0 || self.carry@.len() == self.channels
            &&& self.place < self.to_rate ==> self.carry@.len() == self.channels
        }
    }

    /// A converter before the first packet. Between equal rates there is
    /// always one, and it converts nothing. Between different rates there is
    /// none where a rate or the number of channels is zero.
    pub fn new(from_rate: u32, to_rate: u32, channels: usize) -> (converter: Option<Self>)
        ensures
            converter is Some <==> from_rate == to_rate || (from_rate > 0 && to_rate > 0
                && channels > 0),
            converter is Some ==> converter->0@ == fresh::<T>(from_rate, to_rate, channels as nat),
    {
        if from_rate != to_rate && (from_rate == 0 || to_rate == 0 || channels == 0) {
            return None;
        }
        Some(
            LinearResampler { from_rate, to_rate, channels, place: to_rate as u64, carry: Vec::new() },
        )
    }

    /// The rate that the output is at.
    pub fn to_rate(&self) -> (rate: u32)
        ensures
            rate == self@.to_rate,
            ready(self@),
    {
        proof {
            use_type_invariant(self);
        }
        self.to_rate
    }

    /// Converts the next packet of the stream.
    ///
    /// Between equal rates no conversion is made: the packet comes back as it
    /// is, whatever its length, `blend` is not called, and the converter does
    /// not change.
    ///
    /// Otherwise the output takes up where the packet before left off: its
    /// first frames are blended from that packet's last frame and this
    /// packet's first. Output frames that need a frame behind this packet
    /// wait for the next. Samples behind the last whole frame of the packet
    /// are passed over.
    pub fn resample_linear<F: Fn(T, T, u32, u32) -> T>(&mut self, input: &[T], blend: &F) -> (output:
        Vec<T>)
        requires
            old(self)@.from_rate != old(self)@.to_rate ==> forall|a: T, b: T, weight: u32|
                weight < old(self)@.to_rate ==> call_requires(
                    *blend,
                    (a, b, weight, old(self)@.to_rate),
                ),
        ensures
            final(self)@ == fed(old(self)@, input@),
            streamed(old(self)@, input@, *blend, output@),
            ready(old(self)@),
            old(self)@.from_rate == old(self)@.to_rate ==> output@ == input@ && final(self)@
                == old(self)@,
    {
        proof {
            use_type_invariant(&*self);
        }
        if self.from_rate == self.to_rate {
            let mut same: Vec<T> = Vec::new();
            let mut i: usize = 0;
            while i < input.len()
                invariant
                    i <= input@.len(),
                    same@ == input@.take(i as int),
                decreases input@.len() - i,
            {
                same.push(input[i]);
                i = i + 1;
                assert(input@.take(i - 1).push(input@[i - 1]) =~= input@.take(i as int));
            }
            assert(input@.take(input@.len() as int) =~= input@);
            return same;
        }
        let ghost before = self@;
        let channels = self.channels;
        let to_rate = self.to_rate;
        let from_rate = self.from_rate;
        let frames = input.len() / channels;
        let ghost taps = planned(before.place, frames as nat, from_rate as nat, to_rate as nat);
        proof {
            lemma_fundamental_div_mod(input@.len() as int, channels as int);
            lemma_mod_pos_bound(input@.len() as int, channels as int);
            assert(frames * channels <= input@.len()) by (nonlinear_arith)
                requires
                    input@.len() == channels * frames + input@.len() % (channels as nat),
                    0 <= input@.len() % (channels as nat),
            ;
            assert(frames * to_rate <= 0xffff_ffff_ffff_ffff * 0xffff_ffff) by (nonlinear_arith)
                requires
                    0 <= frames <= 0xffff_ffff_ffff_ffff,
                    0 <= to_rate <= 0xffff_ffff,
            ;
            lemma_place_bounded(before.place, frames as nat, from_rate as nat, to_rate as nat);
        }
        let limit: u128 = frames as u128 * to_rate as u128;
        let mut place: u128 = self.place as u128;
        let mut output: Vec<T> = Vec::new();
        let ghost mut done: nat = 0;
        let len = input.len();
        assert(taps.skip(0) =~= taps);
        assert(to_rate == before.to_rate && before == old(self)@);
        while place < limit
            invariant
                channels > 0,
                to_rate > 0,
                from_rate > 0,
                self@ == before,
                before.channels == channels,
                before.to_rate == to_rate,
                before.place < to_rate ==> before.carry.len() == channels,
                frames * channels <= len == input@.len(),
                limit == frames * to_rate,
                limit <= 0xffff_ffff_ffff_ffff * 0xffff_ffff,
                place <= limit + from_rate + to_rate,
                before.place < to_rate || place >= to_rate,
                taps == planned(before.place, frames as nat, from_rate as nat, to_rate as nat),
                done <= taps.len(),
                taps.skip(done as int) == planned(
                    place as nat,
                    frames as nat,
                    from_rate as nat,
                    to_rate as nat,
                ),
                place_after(place as nat, frames as nat, from_rate as nat, to_rate as nat)
                    == place_after(before.place, frames as nat, from_rate as nat, to_rate as nat),
                output@.len() == done * channels,
                forall|a: T, b: T, weight: u32|
                    weight < to_rate ==> call_requires(*blend, (a, b, weight, to_rate)),
                forall|k: int|
                    0 <= k < output@.len() ==> call_ensures(
                        *blend,
                        (
                            sample_at(
                                before.carry,
                                input@,
                                channels as nat,
                                taps[k / (channels as int)].first,
                                k % (channels as int),
                            ),
                            sample_at(
                                before.carry,
                                input@,
                                channels as nat,
                                taps[k / (channels as int)].first + 1,
                                k % (channels as int),
                            ),
                            taps[k / (channels as int)].weight as u32,
                            to_rate,
                        ),
                        #[trigger] output@[k],
                    ),
            decreases gap(limit as nat, place as nat),
        {
            let lead = place / (to_rate as u128);
            let weight = (place % (to_rate as u128)) as u32;
            let ghost tap = Tap { first: lead as int - 1, weight: weight as nat };
            proof {
                let rest = planned(place as nat, frames as nat, from_rate as nat, to_rate as nat);
                assert(rest.len() > 0);
                assert(rest[0] == tap);
                assert(taps.skip(done as int)[0] == taps[done as int]);
                assert(taps.skip(done as int).skip(1) =~= taps.skip(done as int + 1));
                assert(rest.skip(1) =~= planned(
                    (place + from_rate) as nat,
                    frames as nat,
                    from_rate as nat,
                    to_rate as nat,
                ));
                law_taps_lie_in_packet(
                    place as nat,
                    frames as nat,
                    from_rate as nat,
                    to_rate as nat,
                    0,
                );
                assert(done * channels + channels == (done + 1) * channels) by (nonlinear_arith);
            }
            let second = lead as usize;
            let mut ch: usize = 0;
            while ch < channels
                invariant
                    ch <= channels,
                    channels > 0,
                    to_rate > 0,
                    self@ == before,
                    weight < to_rate,
                    0 <= second < frames,
                    second == lead,
                    lead == 0 ==> before.carry.len() == channels,
                    frames * channels <= len == input@.len(),
                    done < taps.len(),
                    taps[done as int] == tap,
                    tap.first == lead - 1,
                    tap.weight == weight,
                    output@.len() == done * channels + ch,
                    forall|a: T, b: T, weight: u32|
                        weight < to_rate ==> call_requires(*blend, (a, b, weight, to_rate)),
                    forall|k: int|
                        0 <= k < output@.len() ==> call_ensures(
                            *blend,
                            (
                                sample_at(
                                    before.carry,
                                    input@,
                                    channels as nat,
                                    taps[k / (channels as int)].first,
                                    k % (channels as int),
                                ),
                                sample_at(
                                    before.carry,
                                    input@,
                                    channels as nat,
                                    taps[k / (channels as int)].first + 1,
                                    k % (channels as int),
                                ),
                                taps[k / (channels as int)].weight as u32,
                                to_rate,
                            ),
                            #[trigger] output@[k],
                        ),
                decreases channels - ch,
            {
                proof {
                    lemma_cell(second as int, ch as int, frames as int, channels as int);
                    lemma_cell(done as int, ch as int, taps.len() as int, channels as int);
                    if second > 0 {
                        lemma_cell(second - 1, ch as int, frames as int, channels as int);
                    }
                }
                let a = if second == 0 {
                    self.carry[ch]
                } else {
                    input[(second - 1) * channels + ch]
                };
                let b = input[second * channels + ch];
                let sample = blend(a, b, weight, to_rate);
                output.push(sample);
                ch = ch + 1;
            }
            proof {
                done = done + 1;
            }
            place = place + from_rate as u128;
        }
        proof {
            assert(taps.skip(done as int).len() == 0);
        }
        if frames > 0 {
            proof {
                lemma_cell(frames - 1, 0, frames as int, channels as int);
            }
            let start = (frames - 1) * channels;
            let mut carry: Vec<T> = Vec::new();
            let mut ch: usize = 0;
            while ch < channels
                invariant
                    ch <= channels,
                    start + channels <= len == input@.len(),
                    carry@ == input@.subrange(start as int, start + ch),
                decreases channels - ch,
            {
                carry.push(input[start + ch]);
                ch = ch + 1;
                assert(input@.subrange(start as int, start + ch - 1).push(input@[start + ch - 1])
                    =~= input@.subrange(start as int, start + ch));
            }
            self.carry = carry;
        }
        self.place = (place - limit) as u64;
        output
    }

    /// Ends the stream: hands out the output frames that stand on its last
    /// frame, and makes the converter ready for another stream. Between equal
    /// rates there are none, and nothing changes.
    pub fn finish(&mut self) -> (output: Vec<T>)
        ensures
            output@ == finished_with(old(self)@),
            final(self)@ == fresh::<T>(
                old(self)@.from_rate,
                old(self)@.to_rate,
                old(self)@.channels,
            ),
            old(self)@.from_rate == old(self)@.to_rate ==> output@.len() == 0 && final(self)@
                == old(self)@,
    {
        proof {
            use_type_invariant(&*self);
        }
        if self.from_rate == self.to_rate {
            assert(self@ =~= fresh::<T>(self@.from_rate, self@.to_rate, self@.channels)) by {
                assert(self@.carry =~= Seq::<T>::empty());
            }
            return Vec::new();
        }
        let ghost before = self@;
        let channels = self.channels;
        let to_rate = self.to_rate as u64;
        let from_rate = self.from_rate as u64;
        let mut place = self.place;
        let mut output: Vec<T> = Vec::new();
        let ghost mut done: nat = 0;
        while place < to_rate
            invariant
                channels > 0,
                from_rate > 0,
                from_rate == before.from_rate,
                to_rate == before.to_rate,
                channels == before.channels,
                self@ == before,
                place <= to_rate + from_rate,
                before.carry.len() == channels || place >= to_rate,
                done + held(place as nat, from_rate as nat, to_rate as nat) == held(
                    before.place,
                    from_rate as nat,
                    to_rate as nat,
                ),
                output@.len() == done * channels,
                forall|k: int|
                    0 <= k < output@.len() ==> #[trigger] output@[k] == before.carry[k % (
                    channels as int)],
            decreases gap(to_rate as nat, place as nat),
        {
            let mut ch: usize = 0;
            proof {
                assert(done * channels + channels == (done + 1) * channels) by (nonlinear_arith);
            }
            while ch < channels
                invariant
                    ch <= channels,
                    channels > 0,
                    self@ == before,
                    before.carry.len() == channels,
                    output@.len() == done * channels + ch,
                    forall|k: int|
                        0 <= k < output@.len() ==> #[trigger] output@[k] == before.carry[k % (
                        channels as int)],
                decreases channels - ch,
            {
                proof {
                    lemma_cell(done as int, ch as int, done as int + 1, channels as int);
                }
                output.push(self.carry[ch]);
                ch = ch + 1;
            }
            proof {
                done = done + 1;
            }
            place = place + from_rate;
        }
        self.place = self.to_rate as u64;
        self.carry = Vec::new();
        assert(output@ =~= finished_with(before));
        output
    }
}

} // verus!
