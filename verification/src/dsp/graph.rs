//! Mixing plan of the stereo synthesizer: the same routing as the ambisonic
//! one, with the two submixers fed into the master mixer channel by channel.

use vstd::prelude::*;
use bbx_dsp::block::BlockId;
use crate::graph::{
    push_master_to_decoder, push_voices_to_submixer, spec_master_to_decoder, spec_voices_to_submixer,
    submix_connection, Connection, BFORMAT_CHANNELS,
};

verus! {

/// The two submixers into the master mixer, channel by channel: channel `c`
/// of submixer A into input `c`, then channel `c` of submixer B into input
/// `4 + c`.
pub open spec fn spec_submixers_to_master_interleaved(a: BlockId, b: BlockId, master: BlockId) -> Seq<Connection> {
    Seq::new(
        8,
        |k: int|
            if k % 2 == 0 {
                Connection { from: a, from_output: (k / 2) as usize, to: master, to_input: (k / 2) as usize }
            } else {
                Connection { from: b, from_output: (k / 2) as usize, to: master, to_input: (4 + k / 2) as usize }
            },
    )
}

/// The whole mixing plan: voices 0 to 3 into submixer A, voices 4 to 7 into
/// submixer B, the submixers into the master mixer channel by channel, the
/// master mixer into the decoder.
pub open spec fn spec_mixer_routing(
    outputs: Seq<BlockId>,
    a: BlockId,
    b: BlockId,
    master: BlockId,
    decoder: BlockId,
) -> Seq<Connection> {
    spec_voices_to_submixer(outputs, 0, a) + spec_voices_to_submixer(outputs, 4, b)
        + spec_submixers_to_master_interleaved(a, b, master) + spec_master_to_decoder(master, decoder)
}

/// The connections that mix the voices down to the decoder's input. Only
/// the first eight voice outputs are routed: every voice of a pool of
/// `NUM_VOICES` voices.
pub fn mixer_routing(
    voice_outputs: &Vec<BlockId>,
    submixer_a: BlockId,
    submixer_b: BlockId,
    master: BlockId,
    decoder: BlockId,
) -> (r: Vec<Connection>)
    requires
        voice_outputs@.len() >= 8,
    ensures
        r@ == spec_mixer_routing(voice_outputs@, submixer_a, submixer_b, master, decoder),
{
    let mut r: Vec<Connection> = Vec::new();
    push_voices_to_submixer(&mut r, voice_outputs, 0, submixer_a);
    push_voices_to_submixer(&mut r, voice_outputs, 4, submixer_b);
    let ghost before_master = r@;
    let ghost plan = spec_submixers_to_master_interleaved(submixer_a, submixer_b, master);
    let mut ch: usize = 0;
    while ch < BFORMAT_CHANNELS
        invariant
            ch <= 4,
            plan == spec_submixers_to_master_interleaved(submixer_a, submixer_b, master),
            r@ =~= before_master + plan.take(2 * ch),
        decreases 4 - ch,
    {
        r.push(Connection { from: submixer_a, from_output: ch, to: master, to_input: ch });
        assert(plan.take(2 * ch + 1) =~= plan.take(2 * ch).push(plan[2 * ch]));
        r.push(Connection { from: submixer_b, from_output: ch, to: master, to_input: 4 + ch });
        assert(plan.take(2 * ch + 2) =~= plan.take(2 * ch + 1).push(plan[2 * ch + 1]));
        ch = ch + 1;
    }
    assert(plan.take(8) =~= plan);
    push_master_to_decoder(&mut r, master, decoder);
    r
}

} // verus!

verus! {

/// Where the `i`-th connection of this mixing plan ends: block and input.
pub open spec fn routing_target(a: BlockId, b: BlockId, master: BlockId, decoder: BlockId, i: int) -> (BlockId, usize) {
    if i < 16 {
        (a, i as usize)
    } else if i < 32 {
        (b, (i - 16) as usize)
    } else if i < 40 {
        if (i - 32) % 2 == 0 {
            (master, ((i - 32) / 2) as usize)
        } else {
            (master, (4 + (i - 32) / 2) as usize)
        }
    } else {
        (decoder, (i - 40) as usize)
    }
}

/// The mixing plan has 44 connections, and the `i`-th one ends where
/// `routing_target` says.
pub proof fn lemma_routing_targets(
    outputs: Seq<BlockId>,
    a: BlockId,
    b: BlockId,
    master: BlockId,
    decoder: BlockId,
)
    ensures
        spec_mixer_routing(outputs, a, b, master, decoder).len() == 44,
        forall|i: int|
            0 <= i < 44 ==> ((#[trigger] spec_mixer_routing(outputs, a, b, master, decoder)[i]).to,
            spec_mixer_routing(outputs, a, b, master, decoder)[i].to_input) == routing_target(
                a,
                b,
                master,
                decoder,
                i,
            ),
{
    let plan = spec_mixer_routing(outputs, a, b, master, decoder);
    let s1 = spec_voices_to_submixer(outputs, 0, a);
    let s2 = spec_voices_to_submixer(outputs, 4, b);
    let s3 = spec_submixers_to_master_interleaved(a, b, master);
    let s4 = spec_master_to_decoder(master, decoder);
    assert forall|i: int| 0 <= i < 44 implies ((#[trigger] plan[i]).to, plan[i].to_input) == routing_target(
        a,
        b,
        master,
        decoder,
        i,
    ) by {
        if i < 16 {
            assert(plan[i] == s1[i]);
        } else if i < 32 {
            assert(plan[i] == s2[i - 16]);
        } else if i < 40 {
            assert(plan[i] == s3[i - 32]);
        } else {
            assert(plan[i] == s4[i - 40]);
        }
    }
}

/// Every connection of the plan goes to an input below `MAX_BLOCK_INPUTS`,
/// and no two connections end at the same input of the same block (given
/// that the submixers, the master mixer and the decoder are different
/// blocks).
pub proof fn lemma_routing_inputs_distinct(
    outputs: Seq<BlockId>,
    a: BlockId,
    b: BlockId,
    master: BlockId,
    decoder: BlockId,
)
    requires
        a != b,
        a != master,
        a != decoder,
        b != master,
        b != decoder,
        master != decoder,
    ensures
        forall|i: int|
            0 <= i < spec_mixer_routing(outputs, a, b, master, decoder).len() ==> (#[trigger] spec_mixer_routing(
                outputs,
                a,
                b,
                master,
                decoder,
            )[i]).to_input < crate::graph::MAX_BLOCK_INPUTS,
        forall|i: int, j: int|
            0 <= i < j < spec_mixer_routing(outputs, a, b, master, decoder).len() ==> ((#[trigger] spec_mixer_routing(
                outputs,
                a,
                b,
                master,
                decoder,
            )[i]).to, spec_mixer_routing(outputs, a, b, master, decoder)[i].to_input) != ((
            #[trigger] spec_mixer_routing(outputs, a, b, master, decoder)[j]).to, spec_mixer_routing(
                outputs,
                a,
                b,
                master,
                decoder,
            )[j].to_input),
{
    lemma_routing_targets(outputs, a, b, master, decoder);
}

/// Every voice of the pool is heard: every B-format channel of each of the
/// `NUM_VOICES` droplet voices is routed, channel `ch` of voice `v` into
/// input `(v % 4) * 4 + ch` of submixer A for voices 0 to 3, of submixer B
/// for voices 4 to 7.
pub proof fn lemma_every_voice_channel_routed(
    outputs: Seq<BlockId>,
    a: BlockId,
    b: BlockId,
    master: BlockId,
    decoder: BlockId,
    v: int,
    ch: int,
)
    requires
        outputs.len() == crate::dsp::droplet::NUM_VOICES,
        0 <= v < crate::dsp::droplet::NUM_VOICES,
        0 <= ch < BFORMAT_CHANNELS,
    ensures
        spec_mixer_routing(outputs, a, b, master, decoder).contains(
            Connection {
                from: outputs[v],
                from_output: ch as usize,
                to: if v < 4 { a } else { b },
                to_input: ((v % 4) * 4 + ch) as usize,
            },
        ),
{
    let plan = spec_mixer_routing(outputs, a, b, master, decoder);
    let k = (v % 4) * 4 + ch;
    assert(k / 4 == v % 4 && k % 4 == ch) by (nonlinear_arith)
        requires
            k == (v % 4) * 4 + ch,
            0 <= ch < 4,
            0 <= v,
    ;
    if v < 4 {
        assert(plan[k] == spec_voices_to_submixer(outputs, 0, a)[k]);
        assert(plan[k] == submix_connection(outputs, 0, a, k));
    } else {
        assert(plan[16 + k] == spec_voices_to_submixer(outputs, 4, b)[k]);
        assert(plan[16 + k] == submix_connection(outputs, 4, b, k));
    }
}

/// Every channel of both submixers reaches the master mixer, each on its
/// own input: channel `c` of submixer A into input `c`, channel `c` of
/// submixer B into input `4 + c`.
pub proof fn lemma_submixers_reach_master(
    outputs: Seq<BlockId>,
    a: BlockId,
    b: BlockId,
    master: BlockId,
    decoder: BlockId,
    c: int,
)
    requires
        0 <= c < BFORMAT_CHANNELS,
    ensures
        spec_mixer_routing(outputs, a, b, master, decoder).contains(
            Connection { from: a, from_output: c as usize, to: master, to_input: c as usize },
        ),
        spec_mixer_routing(outputs, a, b, master, decoder).contains(
            Connection { from: b, from_output: c as usize, to: master, to_input: (4 + c) as usize },
        ),
{
    let plan = spec_mixer_routing(outputs, a, b, master, decoder);
    let sm = spec_submixers_to_master_interleaved(a, b, master);
    assert(plan[32 + 2 * c] == sm[2 * c]);
    assert(plan[32 + (2 * c + 1)] == sm[(2 * c + 1)]);
}

/// The decoder receives each B-format channel of the master mixer on the
/// input of the same channel: channel `c` of the master into input `c` of
/// the decoder.
pub proof fn lemma_master_reaches_decoder(
    outputs: Seq<BlockId>,
    a: BlockId,
    b: BlockId,
    master: BlockId,
    decoder: BlockId,
    c: int,
)
    requires
        0 <= c < BFORMAT_CHANNELS,
    ensures
        spec_mixer_routing(outputs, a, b, master, decoder).contains(
            Connection { from: master, from_output: c as usize, to: decoder, to_input: c as usize },
        ),
{
    let plan = spec_mixer_routing(outputs, a, b, master, decoder);
    assert(plan[40 + c] == spec_master_to_decoder(master, decoder)[c]);
}

} // verus!
