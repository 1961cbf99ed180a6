//! What a sound checkpoint records reads back: every field the encoder writes sits at its fixed
//! offset, so the decoder's readers find the state's own values there.

use vstd::prelude::*;
use super::snapshot::{
    snapshot_bytes, header_a, with_header_b, events_bytes, stream_block, bool_word, bool_byte, kicked_bytes,
    u16_bytes, u16_at, MAGIC, VERSION, stream_at, params_at, event_record, lemma_u16_roundtrip, DecodedStream,
    encode_error, snapshot_ok, frame_ok, stream_block_ok, stream_error, pending_error, period_of, event_ok,
    first_bad_event, rate_mask_ok, bool_ok, zeros,
};
use super::{CAPTURE_STREAM_ID, PCM_FRAME_BYTES, VIRTIO_SND_R_PCM_SET_PARAMS, MAX_PENDING_SND_EVENTS, VIRTIO_SND_EVT_PCM_XRUN};
use super::snapshot::{events_at, SndRestoreReport};
use super::state::{output_running, capture_running, repair_events};
use super::wire::SndEvent;
use super::pcm::PcmState;
use super::wire::{u32_at, u64_at, u32_bytes, u64_bytes, lemma_u32_roundtrip, lemma_u64_roundtrip, lemma_params_roundtrip};
use super::state::{SndState, playback_bytes, capture_bytes};
use super::pcm::{PcmStream, state_index, state_of_index};

verus! {

proof fn lemma_u16_in(b: Seq<u8>, off: int, v: u16)
    requires 0 <= off, off + 2 <= b.len(), b.subrange(off, off + 2) == u16_bytes(v),
    ensures u16_at(b, off) == v,
{
    lemma_u16_roundtrip(v);
    let w = u16_bytes(v);
    assert(b.subrange(off, off + 2)[0] == b[off] && b.subrange(off, off + 2)[1] == b[off + 1]);
    assert(b[off] == w[0] && b[off + 1] == w[1]);
}

proof fn lemma_u32_in(b: Seq<u8>, off: int, v: u32)
    requires 0 <= off, off + 4 <= b.len(), b.subrange(off, off + 4) == u32_bytes(v),
    ensures u32_at(b, off) == v,
{
    lemma_u32_roundtrip(v);
    let w = u32_bytes(v);
    let c = b.subrange(off, off + 4);
    assert(c[0] == b[off] && c[1] == b[off + 1] && c[2] == b[off + 2] && c[3] == b[off + 3]);
    assert(b[off] == w[0] && b[off + 1] == w[1] && b[off + 2] == w[2] && b[off + 3] == w[3]);
}

proof fn lemma_u64_in(b: Seq<u8>, off: int, v: u64)
    requires 0 <= off, off + 8 <= b.len(), b.subrange(off, off + 8) == u64_bytes(v),
    ensures u64_at(b, off) == v,
{
    lemma_u64_roundtrip(v);
    let w = u64_bytes(v);
    let c = b.subrange(off, off + 8);
    assert(c[0] == b[off] && c[1] == b[off + 1] && c[2] == b[off + 2] && c[3] == b[off + 3]);
    assert(c[4] == b[off + 4] && c[5] == b[off + 5] && c[6] == b[off + 6] && c[7] == b[off + 7]);
    assert(b[off] == w[0] && b[off + 1] == w[1] && b[off + 2] == w[2] && b[off + 3] == w[3]);
    assert(b[off + 4] == w[4] && b[off + 5] == w[5] && b[off + 6] == w[6] && b[off + 7] == w[7]);
}

/// The layout of the identity, counters and stream blocks.
#[verifier::spinoff_prover]
#[verifier::rlimit(40)]
proof fn lemma_header_a_layout(s: SndState)
    ensures ({
        let h = header_a(s);
        &&& h.len() == 104
        &&& h.subrange(0, 8) == MAGIC@
        &&& h.subrange(8, 10) == u16_bytes(VERSION)
        &&& h.subrange(10, 12) == u16_bytes(0)
        &&& h.subrange(12, 16) == bool_word(s.spec_capture_enabled())
        &&& h.subrange(16, 24) == u64_bytes(s.spec_rate_mask())
        &&& h.subrange(24, 32) == u64_bytes(s.spec_capture_start_count())
        &&& h.subrange(32, 40) == u64_bytes(s.spec_epoch())
        &&& h.subrange(40, 48) == u64_bytes(s.spec_capture_epoch())
        &&& h.subrange(48, 76) == stream_block(s.spec_stream())
        &&& h.subrange(76, 104) == stream_block(s.spec_capture_stream())
    }),
{
    let h = header_a(s);
    assert(MAGIC@.len() == 8);
    assert(h.subrange(0, 8) =~= MAGIC@);
    assert(h.subrange(8, 10) =~= u16_bytes(VERSION));
    assert(h.subrange(10, 12) =~= u16_bytes(0));
    assert(h.subrange(12, 16) =~= bool_word(s.spec_capture_enabled()));
    assert(h.subrange(16, 24) =~= u64_bytes(s.spec_rate_mask()));
    assert(h.subrange(24, 32) =~= u64_bytes(s.spec_capture_start_count()));
    assert(h.subrange(32, 40) =~= u64_bytes(s.spec_epoch()));
    assert(h.subrange(40, 48) =~= u64_bytes(s.spec_capture_epoch()));
    assert(h.subrange(48, 76) =~= stream_block(s.spec_stream()));
    assert(h.subrange(76, 104) =~= stream_block(s.spec_capture_stream()));
}

/// The layout of the queue blocks, event count, dropped XRUNs, kick flags and reset marker.
#[verifier::spinoff_prover]
#[verifier::rlimit(40)]
proof fn lemma_header_b_layout(pre: Seq<u8>, s: SndState)
    requires pre.len() == 104,
    ensures ({
        let h = with_header_b(pre, s);
        &&& h.len() == 184
        &&& h.subrange(0, 104) == pre
        &&& h.subrange(104, 108) == u32_bytes(s.spec_playback().len() as u32)
        &&& h.subrange(108, 112) == u32_bytes(playback_bytes(s.spec_playback()))
        &&& h.subrange(112, 120) == u64_bytes(s.spec_playback_observed())
        &&& h.subrange(120, 124) == bool_word(s.spec_playback_release())
        &&& h.subrange(124, 128) == bool_word(s.spec_next_xrun() is Some)
        &&& h.subrange(128, 136) == u64_bytes(match s.spec_next_xrun() { Some(v) => v, None => 0 })
        &&& h.subrange(136, 144) == u64_bytes(s.spec_period_duration())
        &&& h.subrange(144, 148) == u32_bytes(s.spec_capture().len() as u32)
        &&& h.subrange(148, 152) == u32_bytes(capture_bytes(s.spec_capture()))
        &&& h.subrange(152, 160) == u64_bytes(s.spec_capture_observed())
        &&& h.subrange(160, 164) == bool_word(s.spec_capture_release())
        &&& h.subrange(164, 168) == u32_bytes(s.spec_events().len() as u32)
        &&& h.subrange(168, 176) == u64_bytes(s.spec_dropped())
        &&& h.subrange(176, 180) == kicked_bytes(s.spec_kicked())
        &&& h.subrange(180, 184) == bool_word(s.spec_reset_pending())
    }),
{
    let h = with_header_b(pre, s);
    assert(h.subrange(0, 104) =~= pre);
    assert(h.subrange(104, 108) =~= u32_bytes(s.spec_playback().len() as u32));
    assert(h.subrange(108, 112) =~= u32_bytes(playback_bytes(s.spec_playback())));
    assert(h.subrange(112, 120) =~= u64_bytes(s.spec_playback_observed()));
    assert(h.subrange(120, 124) =~= bool_word(s.spec_playback_release()));
    assert(h.subrange(124, 128) =~= bool_word(s.spec_next_xrun() is Some));
    assert(h.subrange(128, 136) =~= u64_bytes(match s.spec_next_xrun() { Some(v) => v, None => 0 }));
    assert(h.subrange(136, 144) =~= u64_bytes(s.spec_period_duration()));
    assert(h.subrange(144, 148) =~= u32_bytes(s.spec_capture().len() as u32));
    assert(h.subrange(148, 152) =~= u32_bytes(capture_bytes(s.spec_capture())));
    assert(h.subrange(152, 160) =~= u64_bytes(s.spec_capture_observed()));
    assert(h.subrange(160, 164) =~= bool_word(s.spec_capture_release()));
    assert(h.subrange(164, 168) =~= u32_bytes(s.spec_events().len() as u32));
    assert(h.subrange(168, 176) =~= u64_bytes(s.spec_dropped()));
    assert(h.subrange(176, 180) =~= kicked_bytes(s.spec_kicked()));
    assert(h.subrange(180, 184) =~= bool_word(s.spec_reset_pending()));
}

/// The encoded events: eight bytes each, in order.
proof fn lemma_events_layout(es: Seq<super::wire::SndEvent>)
    ensures
        events_bytes(es).len() == 8 * es.len(),
        forall|i: int| 0 <= i < es.len() ==> #[trigger] events_bytes(es).subrange(8 * i, 8 * i + 8) == es[i].spec_bytes(),
    decreases es.len(),
{
    if es.len() > 0 {
        let d = es.drop_last();
        lemma_events_layout(d);
        let b = events_bytes(es);
        assert(b == events_bytes(d) + es.last().spec_bytes());
        assert forall|i: int| 0 <= i < es.len() implies #[trigger] events_bytes(es).subrange(8 * i, 8 * i + 8) == es[i].spec_bytes() by {
            if i < es.len() - 1 {
                assert(events_bytes(d).subrange(8 * i, 8 * i + 8) == d[i].spec_bytes());
                assert(b.subrange(8 * i, 8 * i + 8) =~= events_bytes(d).subrange(8 * i, 8 * i + 8));
            } else {
                assert(b.subrange(8 * i, 8 * i + 8) =~= es.last().spec_bytes());
            }
        }
    }
}

proof fn lemma_sub_prefix(b: Seq<u8>, q: Seq<u8>, r: Seq<u8>, i: int, j: int)
    requires b == q + r, 0 <= i <= j <= q.len(),
    ensures b.subrange(i, j) == q.subrange(i, j),
{
    assert(b.subrange(i, j) =~= q.subrange(i, j));
}

proof fn lemma_sub_head(b: Seq<u8>, q: Seq<u8>, i: int, j: int)
    requires q.len() <= b.len(), b.subrange(0, q.len() as int) == q, 0 <= i <= j <= q.len(),
    ensures b.subrange(i, j) == q.subrange(i, j),
{
    assert(b.subrange(i, j) =~= q.subrange(i, j));
}

/// The identity, counters and stream blocks read back.
#[verifier::spinoff_prover]
proof fn lemma_reads_back_a(s: SndState, b: Seq<u8>)
    requires b.len() >= 104, b.subrange(0, 104) == header_a(s),
    ensures
        b.subrange(0, 8) == MAGIC@,
        u16_at(b, 8) == VERSION,
        u16_at(b, 10) == 0,
        b.subrange(12, 16) == bool_word(s.spec_capture_enabled()),
        u64_at(b, 16) == s.spec_rate_mask(),
        u64_at(b, 24) == s.spec_capture_start_count(),
        u64_at(b, 32) == s.spec_epoch(),
        u64_at(b, 40) == s.spec_capture_epoch(),
        b.subrange(48, 76) == stream_block(s.spec_stream()),
        b.subrange(76, 104) == stream_block(s.spec_capture_stream()),
{
    let ha = header_a(s);
    lemma_header_a_layout(s);
    lemma_sub_head(b, ha, 0, 8);
    lemma_sub_head(b, ha, 8, 10);
    lemma_u16_in(b, 8, VERSION);
    lemma_sub_head(b, ha, 10, 12);
    lemma_u16_in(b, 10, 0);
    lemma_sub_head(b, ha, 12, 16);
    lemma_sub_head(b, ha, 16, 24);
    lemma_u64_in(b, 16, s.spec_rate_mask());
    lemma_sub_head(b, ha, 24, 32);
    lemma_u64_in(b, 24, s.spec_capture_start_count());
    lemma_sub_head(b, ha, 32, 40);
    lemma_u64_in(b, 32, s.spec_epoch());
    lemma_sub_head(b, ha, 40, 48);
    lemma_u64_in(b, 40, s.spec_capture_epoch());
    lemma_sub_head(b, ha, 48, 76);
    lemma_sub_head(b, ha, 76, 104);
}

/// The queue blocks, event count, dropped XRUNs, kick flags and reset marker read back.
#[verifier::spinoff_prover]
#[verifier::rlimit(40)]
proof fn lemma_reads_back_b(s: SndState, pre: Seq<u8>, b: Seq<u8>, r: Seq<u8>)
    requires pre.len() == 104, b == with_header_b(pre, s) + r,
    ensures
        b.subrange(0, 104) == pre,
        u32_at(b, 104) == s.spec_playback().len() as u32,
        u32_at(b, 108) == playback_bytes(s.spec_playback()),
        u64_at(b, 112) == s.spec_playback_observed(),
        b.subrange(120, 124) == bool_word(s.spec_playback_release()),
        b.subrange(124, 128) == bool_word(s.spec_next_xrun() is Some),
        u64_at(b, 128) == (match s.spec_next_xrun() { Some(v) => v, None => 0 }),
        u64_at(b, 136) == s.spec_period_duration(),
        u32_at(b, 144) == s.spec_capture().len() as u32,
        u32_at(b, 148) == capture_bytes(s.spec_capture()),
        u64_at(b, 152) == s.spec_capture_observed(),
        b.subrange(160, 164) == bool_word(s.spec_capture_release()),
        u32_at(b, 164) == s.spec_events().len() as u32,
        u64_at(b, 168) == s.spec_dropped(),
        b.subrange(176, 180) == kicked_bytes(s.spec_kicked()),
        b.subrange(180, 184) == bool_word(s.spec_reset_pending()),
{
    let wb = with_header_b(pre, s);
    lemma_header_b_layout(pre, s);
    lemma_sub_prefix(b, wb, r, 0, 104);
    lemma_sub_prefix(b, wb, r, 104, 108);
    lemma_u32_in(b, 104, s.spec_playback().len() as u32);
    lemma_sub_prefix(b, wb, r, 108, 112);
    lemma_u32_in(b, 108, playback_bytes(s.spec_playback()));
    lemma_sub_prefix(b, wb, r, 112, 120);
    lemma_u64_in(b, 112, s.spec_playback_observed());
    lemma_sub_prefix(b, wb, r, 120, 124);
    lemma_sub_prefix(b, wb, r, 124, 128);
    lemma_sub_prefix(b, wb, r, 128, 136);
    lemma_u64_in(b, 128, match s.spec_next_xrun() { Some(v) => v, None => 0 });
    lemma_sub_prefix(b, wb, r, 136, 144);
    lemma_u64_in(b, 136, s.spec_period_duration());
    lemma_sub_prefix(b, wb, r, 144, 148);
    lemma_u32_in(b, 144, s.spec_capture().len() as u32);
    lemma_sub_prefix(b, wb, r, 148, 152);
    lemma_u32_in(b, 148, capture_bytes(s.spec_capture()));
    lemma_sub_prefix(b, wb, r, 152, 160);
    lemma_u64_in(b, 152, s.spec_capture_observed());
    lemma_sub_prefix(b, wb, r, 160, 164);
    lemma_sub_prefix(b, wb, r, 164, 168);
    lemma_u32_in(b, 164, s.spec_events().len() as u32);
    lemma_sub_prefix(b, wb, r, 168, 176);
    lemma_u64_in(b, 168, s.spec_dropped());
    lemma_sub_prefix(b, wb, r, 176, 180);
    lemma_sub_prefix(b, wb, r, 180, 184);
}

/// The event records read back.
proof fn lemma_reads_back_events(es: Seq<super::wire::SndEvent>, b: Seq<u8>, pre: Seq<u8>)
    requires pre.len() == 184, b == pre + events_bytes(es),
    ensures
        b.len() == 184 + 8 * es.len(),
        forall|i: int| 0 <= i < es.len() ==> #[trigger] event_record(b, i) == es[i],
{
    let eb = events_bytes(es);
    lemma_events_layout(es);
    assert forall|i: int| 0 <= i < es.len() implies #[trigger] event_record(b, i) == es[i] by {
        let e = es[i];
        assert(eb.subrange(8 * i, 8 * i + 8) == e.spec_bytes());
        let w = b.subrange(184 + 8 * i, 184 + 8 * i + 8);
        assert(w =~= eb.subrange(8 * i, 8 * i + 8));
        assert(b.subrange(184 + 8 * i, 184 + 8 * i + 4) =~= w.subrange(0, 4));
        assert(b.subrange(184 + 8 * i + 4, 184 + 8 * i + 8) =~= w.subrange(4, 8));
        assert(w.subrange(0, 4) =~= u32_bytes(e.event));
        assert(w.subrange(4, 8) =~= u32_bytes(e.data));
        lemma_u32_in(b, 184 + 8 * i, e.event);
        lemma_u32_in(b, 184 + 8 * i + 4, e.data);
    }
}

/// `b` records state `s`: each field sits at its fixed offset.
pub open spec fn records(b: Seq<u8>, s: SndState) -> bool {
    &&& b.len() == 184 + 8 * s.spec_events().len()
    &&& b.subrange(0, 8) == MAGIC@
    &&& u16_at(b, 8) == VERSION
    &&& u16_at(b, 10) == 0
    &&& b.subrange(12, 16) == bool_word(s.spec_capture_enabled())
    &&& u64_at(b, 16) == s.spec_rate_mask()
    &&& u64_at(b, 24) == s.spec_capture_start_count()
    &&& u64_at(b, 32) == s.spec_epoch()
    &&& u64_at(b, 40) == s.spec_capture_epoch()
    &&& b.subrange(48, 76) == stream_block(s.spec_stream())
    &&& b.subrange(76, 104) == stream_block(s.spec_capture_stream())
    &&& u32_at(b, 104) == s.spec_playback().len() as u32
    &&& u32_at(b, 108) == playback_bytes(s.spec_playback())
    &&& u64_at(b, 112) == s.spec_playback_observed()
    &&& b.subrange(120, 124) == bool_word(s.spec_playback_release())
    &&& b.subrange(124, 128) == bool_word(s.spec_next_xrun() is Some)
    &&& u64_at(b, 128) == (match s.spec_next_xrun() { Some(v) => v, None => 0 })
    &&& u64_at(b, 136) == s.spec_period_duration()
    &&& u32_at(b, 144) == s.spec_capture().len() as u32
    &&& u32_at(b, 148) == capture_bytes(s.spec_capture())
    &&& u64_at(b, 152) == s.spec_capture_observed()
    &&& b.subrange(160, 164) == bool_word(s.spec_capture_release())
    &&& u32_at(b, 164) == s.spec_events().len() as u32
    &&& u64_at(b, 168) == s.spec_dropped()
    &&& b.subrange(176, 180) == kicked_bytes(s.spec_kicked())
    &&& b.subrange(180, 184) == bool_word(s.spec_reset_pending())
    &&& forall|i: int| 0 <= i < s.spec_events().len() ==> #[trigger] event_record(b, i) == s.spec_events()[i]
}

/// Each field a checkpoint of `s` records is read back at its fixed offset.
pub proof fn lemma_snapshot_reads_back(s: SndState)
    ensures records(snapshot_bytes(s), s),
{
    let ha = header_a(s);
    let wb = with_header_b(ha, s);
    let eb = events_bytes(s.spec_events());
    let b = snapshot_bytes(s);
    lemma_header_a_layout(s);
    lemma_header_b_layout(ha, s);
    lemma_reads_back_b(s, ha, b, eb);
    lemma_reads_back_a(s, b);
    lemma_reads_back_events(s.spec_events(), b, wb);
}

/// A stream block reads back as the stream it was written for.
proof fn lemma_stream_block_reads(b: Seq<u8>, off: int, st: PcmStream)
    requires 0 <= off, off + 28 <= b.len(), b.subrange(off, off + 28) == stream_block(st),
    ensures
        b[off] == state_index(st.spec_state()),
        b[off + 1] == bool_byte(st.spec_params() is Some),
        b[off + 2] == 0 && b[off + 3] == 0,
        st.spec_params() is Some ==> u32_at(b, off + 4) == VIRTIO_SND_R_PCM_SET_PARAMS,
        stream_at(b, off) == (DecodedStream { state: st.spec_state(), params: st.spec_params() }),
{
    let blk = stream_block(st);
    assert(b[off] == blk[0] && b[off + 1] == blk[1] && b[off + 2] == blk[2] && b[off + 3] == blk[3]);
    assert(state_of_index(state_index(st.spec_state())) == Some(st.spec_state()));
    match st.spec_params() {
        Some(p) => {
            let pb = p.spec_bytes();
            lemma_params_roundtrip(p);
            assert(blk == seq![state_index(st.spec_state()), 1u8, 0u8, 0u8] + pb);
            assert(blk.subrange(4, 28) =~= pb);
            assert(b.subrange(off + 4, off + 28) =~= b.subrange(off, off + 28).subrange(4, 28));
            assert(b.subrange(off + 4, off + 28) =~= pb);
            assert(b.subrange(off + 4, off + 8) =~= u32_bytes(VIRTIO_SND_R_PCM_SET_PARAMS));
            assert(b.subrange(off + 8, off + 12) =~= u32_bytes(p.stream_id));
            assert(b.subrange(off + 12, off + 16) =~= u32_bytes(p.buffer_bytes));
            assert(b.subrange(off + 16, off + 20) =~= u32_bytes(p.period_bytes));
            assert(b.subrange(off + 20, off + 24) =~= u32_bytes(p.features));
            lemma_u32_in(b, off + 4, VIRTIO_SND_R_PCM_SET_PARAMS);
            lemma_u32_in(b, off + 8, p.stream_id);
            lemma_u32_in(b, off + 12, p.buffer_bytes);
            lemma_u32_in(b, off + 16, p.period_bytes);
            lemma_u32_in(b, off + 20, p.features);
            assert(b[off + 24] == pb[20] && b[off + 25] == pb[21] && b[off + 26] == pb[22] && b[off + 27] == pb[23]);
            assert(params_at(b, off + 4) == p);
        },
        None => {},
    }
}

proof fn lemma_no_bad_event(es: Seq<super::wire::SndEvent>, cap: bool, i: int)
    requires 0 <= i, first_bad_event(es, cap, i) is None,
    ensures forall|j: int| i <= j < es.len() ==> event_ok(#[trigger] es[j], cap),
    decreases es.len() - i,
{
    if i < es.len() {
        lemma_no_bad_event(es, cap, i + 1);
    }
}

proof fn lemma_whole_frames(count: u32, period: u32, bytes: u32)
    requires count as int * period as int == bytes as int, period % 4 == 0,
    ensures bytes % 4 == 0,
{
    let q: int = period as int / 4;
    assert(period as int == 4 * q);
    assert(count as int * period as int == 4 * (count as int * q)) by (nonlinear_arith)
        requires period as int == 4 * q;
}

/// The flag and reserved bytes of a checkpoint.
proof fn lemma_flag_bytes(b: Seq<u8>, s: SndState)
    requires records(b, s),
    ensures ({
        &&& b[12] == bool_byte(s.spec_capture_enabled()) && b[13] == 0 && b[14] == 0 && b[15] == 0
        &&& b[120] == bool_byte(s.spec_playback_release()) && b[121] == 0 && b[122] == 0 && b[123] == 0
        &&& b[124] == bool_byte(s.spec_next_xrun() is Some) && b[125] == 0 && b[126] == 0 && b[127] == 0
        &&& b[160] == bool_byte(s.spec_capture_release()) && b[161] == 0 && b[162] == 0 && b[163] == 0
        &&& b[176] == bool_byte(s.spec_kicked()[0]) && b[177] == bool_byte(s.spec_kicked()[1])
        &&& b[178] == bool_byte(s.spec_kicked()[2]) && b[179] == bool_byte(s.spec_kicked()[3])
        &&& b[180] == bool_byte(s.spec_reset_pending()) && b[181] == 0 && b[182] == 0 && b[183] == 0
    }),
{
    assert(b.subrange(12, 16)[0] == b[12] && b.subrange(12, 16)[1] == b[13] && b.subrange(12, 16)[2] == b[14] && b.subrange(12, 16)[3] == b[15]);
    assert(b.subrange(120, 124)[0] == b[120] && b.subrange(120, 124)[1] == b[121] && b.subrange(120, 124)[2] == b[122] && b.subrange(120, 124)[3] == b[123]);
    assert(b.subrange(124, 128)[0] == b[124] && b.subrange(124, 128)[1] == b[125] && b.subrange(124, 128)[2] == b[126] && b.subrange(124, 128)[3] == b[127]);
    assert(b.subrange(160, 164)[0] == b[160] && b.subrange(160, 164)[1] == b[161] && b.subrange(160, 164)[2] == b[162] && b.subrange(160, 164)[3] == b[163]);
    assert(b.subrange(176, 180)[0] == b[176] && b.subrange(176, 180)[1] == b[177] && b.subrange(176, 180)[2] == b[178] && b.subrange(176, 180)[3] == b[179]);
    assert(b.subrange(180, 184)[0] == b[180] && b.subrange(180, 184)[1] == b[181] && b.subrange(180, 184)[2] == b[182] && b.subrange(180, 184)[3] == b[183]);
}

/// The frame and the flag and reserved bytes of an accepted state's checkpoint pass.
proof fn lemma_accepted_frame(b: Seq<u8>, s: SndState)
    requires encode_error(s) is None, records(b, s),
    ensures ({
        &&& frame_ok(b)
        &&& bool_ok(b, 12) && zeros(b, 13, 3)
        &&& bool_ok(b, 120) && zeros(b, 121, 3) && bool_ok(b, 124) && zeros(b, 125, 3)
        &&& (b[124] != 1 ==> u64_at(b, 128) == 0)
        &&& bool_ok(b, 160) && zeros(b, 161, 3)
        &&& bool_ok(b, 176) && bool_ok(b, 177) && bool_ok(b, 178) && bool_ok(b, 179) && bool_ok(b, 180)
        &&& zeros(b, 181, 3)
        &&& u32_at(b, 164) <= MAX_PENDING_SND_EVENTS
        &&& (b[12] == 1) == s.spec_capture_enabled()
    }),
{
    lemma_flag_bytes(b, s);
}

/// The stream blocks of an accepted state's checkpoint pass.
#[verifier::spinoff_prover]
proof fn lemma_accepted_streams(b: Seq<u8>, s: SndState)
    requires encode_error(s) is None, records(b, s),
    ensures ({
        let out = stream_at(b, 48);
        let cap = stream_at(b, 76);
        &&& rate_mask_ok(u64_at(b, 16))
        &&& stream_block_ok(b, 48) && stream_block_ok(b, 76)
        &&& out == (DecodedStream { state: s.spec_stream().spec_state(), params: s.spec_stream().spec_params() })
        &&& cap == (DecodedStream { state: s.spec_capture_stream().spec_state(), params: s.spec_capture_stream().spec_params() })
        &&& stream_error(0, out.state, out.params, u64_at(b, 16), true) is None
        &&& stream_error(CAPTURE_STREAM_ID, cap.state, cap.params, u64_at(b, 16), b[12] == 1) is None
    }),
{
    lemma_flag_bytes(b, s);
    lemma_stream_block_reads(b, 48, s.spec_stream());
    lemma_stream_block_reads(b, 76, s.spec_capture_stream());
}

/// The queue metadata of an accepted state's checkpoint passes.
#[verifier::spinoff_prover]
proof fn lemma_accepted_queues(b: Seq<u8>, s: SndState)
    requires
        encode_error(s) is None,
        capture_bytes(s.spec_capture()) % PCM_FRAME_BYTES == 0,
        records(b, s),
    ensures ({
        let out = stream_at(b, 48);
        let cap = stream_at(b, 76);
        &&& pending_error(0, u32_at(b, 104), u32_at(b, 108), None) is None
        &&& pending_error(CAPTURE_STREAM_ID, u32_at(b, 144), u32_at(b, 148), None) is None
        &&& pending_error(0, u32_at(b, 104), u32_at(b, 108), period_of(out.params)) is None
        &&& pending_error(CAPTURE_STREAM_ID, u32_at(b, 144), u32_at(b, 148), period_of(cap.params)) is None
        &&& (b[12] == 1 || (cap.state == PcmState::Released && cap.params is None && u32_at(b, 144) == 0 && u32_at(b, 148) == 0))
    }),
{
    lemma_accepted_streams(b, s);
    lemma_accepted_frame(b, s);
    match s.spec_stream().spec_params() {
        Some(p) => {
            assert(p.channels == 2);
            lemma_whole_frames(s.spec_playback().len() as u32, p.period_bytes, playback_bytes(s.spec_playback()));
        },
        None => {},
    }
    if !s.spec_capture_enabled() {
        assert(s.spec_capture().len() == 0);
        assert(capture_bytes(s.spec_capture()) == 0);
    }
}

/// The event records of an accepted state's checkpoint pass.
proof fn lemma_accepted_events(b: Seq<u8>, s: SndState)
    requires encode_error(s) is None, records(b, s),
    ensures ({
        forall|i: int| 0 <= i < u32_at(b, 164) ==> event_ok(#[trigger] event_record(b, i), b[12] == 1)
    }),
{
    lemma_flag_bytes(b, s);
    lemma_no_bad_event(s.spec_events(), s.spec_capture_enabled(), 0);
    assert forall|i: int| 0 <= i < u32_at(b, 164) implies event_ok(#[trigger] event_record(b, i), b[12] == 1) by {
        assert(event_record(b, i) == s.spec_events()[i]);
    }
}

/// A checkpoint of a state the encoder accepts passes every check of the decoder, provided the
/// pending input bytes are whole four-byte frames (the decoder checks that before it knows the
/// period).
pub proof fn lemma_snapshot_accepted(s: SndState)
    requires
        encode_error(s) is None,
        capture_bytes(s.spec_capture()) % PCM_FRAME_BYTES == 0,
    ensures snapshot_ok(snapshot_bytes(s)),
{
    let b = snapshot_bytes(s);
    lemma_snapshot_reads_back(s);
    lemma_accepted_frame(b, s);
    lemma_accepted_streams(b, s);
    lemma_accepted_queues(b, s);
    lemma_accepted_events(b, s);
}

proof fn lemma_events_read_back(b: Seq<u8>, es: Seq<SndEvent>, n: nat)
    requires
        n <= es.len(),
        forall|i: int| 0 <= i < es.len() ==> #[trigger] event_record(b, i) == es[i],
    ensures events_at(b, 184, n) == es.take(n as int),
    decreases n,
{
    if n > 0 {
        lemma_events_read_back(b, es, (n - 1) as nat);
        assert(event_record(b, n - 1) == es[n - 1]);
        assert(es.take(n as int) =~= es.take(n - 1).push(es[n - 1]));
    }
}

/// The repair XRUNs a restore of a checkpoint of `s` queues: one for a running output stream, then
/// one for an enabled, running input stream.
pub open spec fn running_xruns(s: SndState) -> Seq<SndEvent> {
    (if s.spec_stream().spec_state() == PcmState::Running {
        seq![SndEvent { event: VIRTIO_SND_EVT_PCM_XRUN, data: 0 }]
    } else {
        Seq::empty()
    }) + (if s.spec_capture_enabled() && s.spec_capture_stream().spec_state() == PcmState::Running {
        seq![SndEvent { event: VIRTIO_SND_EVT_PCM_XRUN, data: CAPTURE_STREAM_ID }]
    } else {
        Seq::empty()
    })
}

/// The state restored from a checkpoint `b` that records `s` carries `s`'s recorded fields.
#[verifier::spinoff_prover]
proof fn lemma_restored_fields(b: Seq<u8>, s: SndState, t: SndState, rep: SndRestoreReport)
    requires
        encode_error(s) is None,
        records(b, s),
        SndState::restored_from(t, b, rep),
    ensures
        t.spec_capture_enabled() == s.spec_capture_enabled(),
        t.spec_rate_mask() == s.spec_rate_mask(),
        t.spec_capture_start_count() == s.spec_capture_start_count(),
        t.spec_epoch() == s.spec_epoch(),
        t.spec_capture_epoch() == s.spec_capture_epoch(),
        t.spec_stream().spec_state() == s.spec_stream().spec_state(),
        t.spec_stream().spec_params() == s.spec_stream().spec_params(),
        t.spec_capture_stream().spec_state() == s.spec_capture_stream().spec_state(),
        t.spec_capture_stream().spec_params() == s.spec_capture_stream().spec_params(),
        t.spec_dropped() == s.spec_dropped(),
        t.spec_reset_pending() == s.spec_reset_pending(),
        t.spec_events() == running_xruns(s) + s.spec_events(),
        t.spec_kicked()[0] == s.spec_kicked()[0],
        t.spec_kicked()[1] == (s.spec_kicked()[1] || running_xruns(s).len() > 0),
        t.spec_kicked()[2] == s.spec_kicked()[2],
        t.spec_kicked()[3] == s.spec_kicked()[3],
        rep.discarded_playback_transfers == s.spec_playback().len(),
        rep.discarded_capture_transfers == s.spec_capture().len(),
        rep.xrun_events == running_xruns(s).len(),
{
    lemma_flag_bytes(b, s);
    lemma_accepted_frame(b, s);
    lemma_accepted_streams(b, s);
    let es = s.spec_events();
    lemma_events_read_back(b, es, es.len());
    assert(es.take(es.len() as int) =~= es);
    assert(output_running(b) == (s.spec_stream().spec_state() == PcmState::Running));
    assert(capture_running(b) == (s.spec_capture_enabled() && s.spec_capture_stream().spec_state() == PcmState::Running));
    assert(repair_events(b) =~= running_xruns(s));
}

/// What a checkpoint records, a restore gives back. The checkpoint of a state the encoder accepts
/// (with its pending input bytes whole four-byte frames) passes every check of the decoder, and the
/// state restored from it has the same configuration, stream states and parameters, counters,
/// dropped-XRUN count, reset marker and events, after one repair XRUN per running stream; its kick
/// flags are the recorded ones, with the event queue kicked when a repair XRUN was queued; the
/// pending transfers are discarded and counted in the report.
pub proof fn lemma_snapshot_roundtrip(s: SndState, t: SndState, rep: SndRestoreReport)
    requires
        encode_error(s) is None,
        capture_bytes(s.spec_capture()) % PCM_FRAME_BYTES == 0,
        SndState::restored_from(t, snapshot_bytes(s), rep),
    ensures
        snapshot_ok(snapshot_bytes(s)),
        t.spec_capture_enabled() == s.spec_capture_enabled(),
        t.spec_rate_mask() == s.spec_rate_mask(),
        t.spec_capture_start_count() == s.spec_capture_start_count(),
        t.spec_epoch() == s.spec_epoch(),
        t.spec_capture_epoch() == s.spec_capture_epoch(),
        t.spec_stream().spec_state() == s.spec_stream().spec_state(),
        t.spec_stream().spec_params() == s.spec_stream().spec_params(),
        t.spec_capture_stream().spec_state() == s.spec_capture_stream().spec_state(),
        t.spec_capture_stream().spec_params() == s.spec_capture_stream().spec_params(),
        t.spec_dropped() == s.spec_dropped(),
        t.spec_reset_pending() == s.spec_reset_pending(),
        t.spec_events() == running_xruns(s) + s.spec_events(),
        t.spec_kicked()[0] == s.spec_kicked()[0],
        t.spec_kicked()[1] == (s.spec_kicked()[1] || running_xruns(s).len() > 0),
        t.spec_kicked()[2] == s.spec_kicked()[2],
        t.spec_kicked()[3] == s.spec_kicked()[3],
        rep.discarded_playback_transfers == s.spec_playback().len(),
        rep.discarded_capture_transfers == s.spec_capture().len(),
        rep.xrun_events == running_xruns(s).len(),
{
    let b = snapshot_bytes(s);
    lemma_snapshot_accepted(s);
    lemma_snapshot_reads_back(s);
    lemma_restored_fields(b, s, t, rep);
}

} // verus!
