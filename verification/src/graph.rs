//! The wiring of the DSP graph: which block output feeds which block input.
//! The plan is computed here; the graph builder carries it out.

use vstd::prelude::*;
use bbx_dsp::block::BlockId;

verus! {

/// A connection from one block's output to another block's input.
#[derive(Clone, Copy)]
pub struct Connection {
    pub from: BlockId,
    pub from_output: usize,
    pub to: BlockId,
    pub to_input: usize,
}

} // verus!

verus! {

/// Number of voices mixed by each submixer.
pub const SUBMIXER_SOURCES: usize = 4;

/// Number of submixers feeding the master mixer.
pub const MASTER_SOURCES: usize = 2;

/// Channels of a first-order ambisonic (B-format) signal.
pub const BFORMAT_CHANNELS: usize = 4;

/// Channels of the final stereo output.
pub const OUTPUT_CHANNELS: usize = 2;

/// Most inputs a block of the graph can have.
pub const MAX_BLOCK_INPUTS: usize = 16;

/// The `k`-th connection from the voices starting at `first` into a
/// submixer. A mixer's inputs are laid out as `source * channels + channel`,
/// so the `k`-th connection goes into input `k`.
pub open spec fn submix_connection(outputs: Seq<BlockId>, first: int, submixer: BlockId, k: int) -> Connection {
    Connection {
        from: outputs[first + k / 4],
        from_output: (k % 4) as usize,
        to: submixer,
        to_input: k as usize,
    }
}

/// Every B-format channel of four voices into one submixer, voice by voice.
pub open spec fn spec_voices_to_submixer(outputs: Seq<BlockId>, first: int, submixer: BlockId) -> Seq<Connection> {
    Seq::new(16, |k: int| submix_connection(outputs, first, submixer, k))
}

/// The two submixers into the master mixer: all channels of the first
/// submixer (inputs 0 to 3), then all channels of the second (inputs 4 to 7).
pub open spec fn spec_submixers_to_master(a: BlockId, b: BlockId, master: BlockId) -> Seq<Connection> {
    Seq::new(
        8,
        |k: int|
            if k < 4 {
                Connection { from: a, from_output: k as usize, to: master, to_input: k as usize }
            } else {
                Connection { from: b, from_output: (k - 4) as usize, to: master, to_input: k as usize }
            },
    )
}

/// Every B-format channel of the master mixer into the binaural decoder.
pub open spec fn spec_master_to_decoder(master: BlockId, decoder: BlockId) -> Seq<Connection> {
    Seq::new(
        4,
        |k: int| Connection { from: master, from_output: k as usize, to: decoder, to_input: k as usize },
    )
}

/// The whole mixing plan: voices 0 to 3 into submixer A, voices 4 to 7 into
/// submixer B, both submixers into the master mixer, the master mixer into
/// the decoder.
pub open spec fn spec_mixer_routing(
    outputs: Seq<BlockId>,
    a: BlockId,
    b: BlockId,
    master: BlockId,
    decoder: BlockId,
) -> Seq<Connection> {
    spec_voices_to_submixer(outputs, 0, a) + spec_voices_to_submixer(outputs, 4, b)
        + spec_submixers_to_master(a, b, master) + spec_master_to_decoder(master, decoder)
}

/// Append the connections of four voices, starting at `first`, into a submixer.
pub(crate) fn push_voices_to_submixer(out: &mut Vec<Connection>, outputs: &Vec<BlockId>, first: usize, submixer: BlockId)
    requires
        first + 4 <= outputs.len(),
    ensures
        final(out)@ == old(out)@ + spec_voices_to_submixer(outputs@, first as int, submixer),
{
    let ghost start = old(out)@;
    let mut source_idx: usize = 0;
    while source_idx < SUBMIXER_SOURCES
        invariant
            first + 4 <= outputs.len(),
            source_idx <= 4,
            out@ =~= start + spec_voices_to_submixer(outputs@, first as int, submixer).take(4 * source_idx),
        decreases 4 - source_idx,
    {
        let mut ch: usize = 0;
        while ch < BFORMAT_CHANNELS
            invariant
                first + 4 <= outputs.len(),
                source_idx < 4,
                ch <= 4,
                out@ =~= start + spec_voices_to_submixer(outputs@, first as int, submixer).take(
                    4 * source_idx + ch,
                ),
            decreases 4 - ch,
        {
            let input_idx = source_idx * 4 + ch;
            let ghost k = 4 * source_idx + ch;
            assert(k / 4 == source_idx && k % 4 == ch) by (nonlinear_arith)
                requires
                    k == 4 * source_idx + ch,
                    ch < 4,
            ;
            out.push(
                Connection { from: outputs[first + source_idx], from_output: ch, to: submixer, to_input: input_idx },
            );
            assert(spec_voices_to_submixer(outputs@, first as int, submixer).take(k + 1) =~= spec_voices_to_submixer(
                outputs@,
                first as int,
                submixer,
            ).take(k).push(submix_connection(outputs@, first as int, submixer, k)));
            ch = ch + 1;
        }
        source_idx = source_idx + 1;
    }
    assert(spec_voices_to_submixer(outputs@, first as int, submixer).take(16) =~= spec_voices_to_submixer(
        outputs@,
        first as int,
        submixer,
    ));
}

/// Append the connections of the master mixer into the decoder.
pub(crate) fn push_master_to_decoder(out: &mut Vec<Connection>, master: BlockId, decoder: BlockId)
    ensures
        final(out)@ == old(out)@ + spec_master_to_decoder(master, decoder),
{
    let ghost before_decoder = old(out)@;
    let mut ch: usize = 0;
    while ch < BFORMAT_CHANNELS
        invariant
            ch <= 4,
            out@ =~= before_decoder + spec_master_to_decoder(master, decoder).take(ch as int),
        decreases 4 - ch,
    {
        out.push(Connection { from: master, from_output: ch, to: decoder, to_input: ch });
        assert(spec_master_to_decoder(master, decoder).take(ch + 1) =~= spec_master_to_decoder(master, decoder).take(
            ch as int,
        ).push(spec_master_to_decoder(master, decoder)[ch as int]));
        ch = ch + 1;
    }
    assert(spec_master_to_decoder(master, decoder).take(4) =~= spec_master_to_decoder(master, decoder));
}

/// The connections that mix the voices down to the decoder's input:
/// voices 0 to 3 into submixer A, voices 4 to 7 into submixer B (each mixer
/// takes 4 sources of 4 channels, 16 inputs), both submixers into the
/// master mixer (2 sources of 4 channels), and the master mixer into the
/// binaural decoder. Only the first eight voice outputs are routed: every
/// voice of a pool of `NUM_VOICES` voices.
pub fn mixer_routing(
    voice_outputs: &Vec<BlockId>,
    submixer_a: BlockId,
    submixer_b: BlockId,
    master: BlockId,
    decoder: BlockId,
) -> (r: Vec<Connection>)
    requires
        voice_outputs@.len() >= 8,
    ensures
        r@ == spec_mixer_routing(voice_outputs@, submixer_a, submixer_b, master, decoder),
{
    let mut r: Vec<Connection> = Vec::new();
    push_voices_to_submixer(&mut r, voice_outputs, 0, submixer_a);
    push_voices_to_submixer(&mut r, voice_outputs, 4, submixer_b);
    let ghost before_master = r@;
    let mut ch: usize = 0;
    while ch < BFORMAT_CHANNELS
        invariant
            ch <= 4,
            r@ =~= before_master + spec_submixers_to_master(submixer_a, submixer_b, master).take(ch as int),
        decreases 4 - ch,
    {
        r.push(Connection { from: submixer_a, from_output: ch, to: master, to_input: ch });
        assert(spec_submixers_to_master(submixer_a, submixer_b, master).take(ch + 1) =~= spec_submixers_to_master(
            submixer_a,
            submixer_b,
            master,
        ).take(ch as int).push(spec_submixers_to_master(submixer_a, submixer_b, master)[ch as int]));
        ch = ch + 1;
    }
    let mut ch: usize = 0;
    while ch < BFORMAT_CHANNELS
        invariant
            ch <= 4,
            r@ =~= before_master + spec_submixers_to_master(submixer_a, submixer_b, master).take(4 + ch),
        decreases 4 - ch,
    {
        r.push(Connection { from: submixer_b, from_output: ch, to: master, to_input: 4 + ch });
        assert(spec_submixers_to_master(submixer_a, submixer_b, master).take(4 + ch + 1) =~= spec_submixers_to_master(
            submixer_a,
            submixer_b,
            master,
        ).take(4 + ch).push(spec_submixers_to_master(submixer_a, submixer_b, master)[4 + ch]));
        ch = ch + 1;
    }
    assert(spec_submixers_to_master(submixer_a, submixer_b, master).take(8) =~= spec_submixers_to_master(
        submixer_a,
        submixer_b,
        master,
    ));
    push_master_to_decoder(&mut r, master, decoder);
    r
}

/// The base frequency of voice `i`, in hertz: voices are staggered by 50 Hz
/// from 1000 Hz for variety.
pub fn voice_base_frequency(i: usize) -> (r: u64)
    requires
        1000 + 50 * i <= u64::MAX,
    ensures
        r == 1000 + 50 * i,
{
    1000 + (i as u64) * 50
}

} // verus!

verus! {

/// Where the `i`-th connection of the mixing plan ends: block and input.
pub open spec fn routing_target(a: BlockId, b: BlockId, master: BlockId, decoder: BlockId, i: int) -> (BlockId, usize) {
    if i < 16 {
        (a, i as usize)
    } else if i < 32 {
        (b, (i - 16) as usize)
    } else if i < 40 {
        (master, (i - 32) as usize)
    } else {
        (decoder, (i - 40) as usize)
    }
}

/// The mixing plan has 44 connections, and the `i`-th one ends where
/// `routing_target` says.
pub proof fn lemma_routing_targets(
    outputs: Seq<BlockId>,
    a: BlockId,
    b: BlockId,
    master: BlockId,
    decoder: BlockId,
)
    ensures
        spec_mixer_routing(outputs, a, b, master, decoder).len() == 44,
        forall|i: int|
            0 <= i < 44 ==> ((#[trigger] spec_mixer_routing(outputs, a, b, master, decoder)[i]).to,
            spec_mixer_routing(outputs, a, b, master, decoder)[i].to_input) == routing_target(
                a,
                b,
                master,
                decoder,
                i,
            ),
{
    let plan = spec_mixer_routing(outputs, a, b, master, decoder);
    let s1 = spec_voices_to_submixer(outputs, 0, a);
    let s2 = spec_voices_to_submixer(outputs, 4, b);
    let s3 = spec_submixers_to_master(a, b, master);
    let s4 = spec_master_to_decoder(master, decoder);
    assert forall|i: int| 0 <= i < 44 implies ((#[trigger] plan[i]).to, plan[i].to_input) == routing_target(
        a,
        b,
        master,
        decoder,
        i,
    ) by {
        if i < 16 {
            assert(plan[i] == s1[i]);
        } else if i < 32 {
            assert(plan[i] == s2[i - 16]);
        } else if i < 40 {
            assert(plan[i] == s3[i - 32]);
        } else {
            assert(plan[i] == s4[i - 40]);
        }
    }
}

/// Cascading the mix keeps every block under its input limit, and no mixer
/// or decoder input is fed twice: every connection of the plan goes to an
/// input below `MAX_BLOCK_INPUTS`, and no two connections end at the same
/// input of the same block (given that the submixers, the master mixer and
/// the decoder are different blocks).
pub proof fn lemma_routing_inputs_distinct(
    outputs: Seq<BlockId>,
    a: BlockId,
    b: BlockId,
    master: BlockId,
    decoder: BlockId,
)
    requires
        a != b,
        a != master,
        a != decoder,
        b != master,
        b != decoder,
        master != decoder,
    ensures
        forall|i: int|
            0 <= i < spec_mixer_routing(outputs, a, b, master, decoder).len() ==> (#[trigger] spec_mixer_routing(
                outputs,
                a,
                b,
                master,
                decoder,
            )[i]).to_input < MAX_BLOCK_INPUTS,
        forall|i: int, j: int|
            0 <= i < j < spec_mixer_routing(outputs, a, b, master, decoder).len() ==> ((#[trigger] spec_mixer_routing(
                outputs,
                a,
                b,
                master,
                decoder,
            )[i]).to, spec_mixer_routing(outputs, a, b, master, decoder)[i].to_input) != ((
            #[trigger] spec_mixer_routing(outputs, a, b, master, decoder)[j]).to, spec_mixer_routing(
                outputs,
                a,
                b,
                master,
                decoder,
            )[j].to_input),
{
    lemma_routing_targets(outputs, a, b, master, decoder);
}

/// Every voice of the pool is heard: every B-format channel of each of the
/// `NUM_VOICES` voices is routed, channel `ch` of voice `v` into input
/// `(v % 4) * 4 + ch` of submixer A for voices 0 to 3, of submixer B for
/// voices 4 to 7.
pub proof fn lemma_every_voice_channel_routed(
    outputs: Seq<BlockId>,
    a: BlockId,
    b: BlockId,
    master: BlockId,
    decoder: BlockId,
    v: int,
    ch: int,
)
    requires
        outputs.len() == crate::voice::NUM_VOICES,
        0 <= v < crate::voice::NUM_VOICES,
        0 <= ch < BFORMAT_CHANNELS,
    ensures
        spec_mixer_routing(outputs, a, b, master, decoder).contains(
            Connection {
                from: outputs[v],
                from_output: ch as usize,
                to: if v < 4 { a } else { b },
                to_input: ((v % 4) * 4 + ch) as usize,
            },
        ),
{
    let plan = spec_mixer_routing(outputs, a, b, master, decoder);
    let k = (v % 4) * 4 + ch;
    assert(k / 4 == v % 4 && k % 4 == ch) by (nonlinear_arith)
        requires
            k == (v % 4) * 4 + ch,
            0 <= ch < 4,
            0 <= v,
    ;
    if v < 4 {
        assert(plan[k] == spec_voices_to_submixer(outputs, 0, a)[k]);
        assert(plan[k] == submix_connection(outputs, 0, a, k));
    } else {
        assert(plan[16 + k] == spec_voices_to_submixer(outputs, 4, b)[k]);
        assert(plan[16 + k] == submix_connection(outputs, 4, b, k));
    }
}

/// Every channel of both submixers reaches the master mixer, each on its
/// own input: channel `c` of submixer A into input `c`, channel `c` of
/// submixer B into input `4 + c`.
pub proof fn lemma_submixers_reach_master(
    outputs: Seq<BlockId>,
    a: BlockId,
    b: BlockId,
    master: BlockId,
    decoder: BlockId,
    c: int,
)
    requires
        0 <= c < BFORMAT_CHANNELS,
    ensures
        spec_mixer_routing(outputs, a, b, master, decoder).contains(
            Connection { from: a, from_output: c as usize, to: master, to_input: c as usize },
        ),
        spec_mixer_routing(outputs, a, b, master, decoder).contains(
            Connection { from: b, from_output: c as usize, to: master, to_input: (4 + c) as usize },
        ),
{
    let plan = spec_mixer_routing(outputs, a, b, master, decoder);
    let sm = spec_submixers_to_master(a, b, master);
    assert(plan[32 + c] == sm[c]);
    assert(plan[32 + (4 + c)] == sm[(4 + c)]);
}

/// The decoder receives each B-format channel of the master mixer on the
/// input of the same channel: channel `c` of the master into input `c` of
/// the decoder.
pub proof fn lemma_master_reaches_decoder(
    outputs: Seq<BlockId>,
    a: BlockId,
    b: BlockId,
    master: BlockId,
    decoder: BlockId,
    c: int,
)
    requires
        0 <= c < BFORMAT_CHANNELS,
    ensures
        spec_mixer_routing(outputs, a, b, master, decoder).contains(
            Connection { from: master, from_output: c as usize, to: decoder, to_input: c as usize },
        ),
{
    let plan = spec_mixer_routing(outputs, a, b, master, decoder);
    assert(plan[40 + c] == spec_master_to_decoder(master, decoder)[c]);
}

} // verus!
