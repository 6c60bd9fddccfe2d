//! The engine's calls taken in sequence, as its loop makes them, and what
//! holds of every such sequence, with the tunnel up or not.

use vstd::prelude::*;
use vstd::arithmetic::div_mod::{lemma_add_mod_noop, lemma_mod_bound, lemma_mod_multiples_vanish, lemma_small_mod};
use crate::config::AudioCommand;
use crate::engine::{
    command_spec, decap_spec, encoded_spec, end_of_stream_view, ping_frame_bytes, restart_spec,
    round_spec, rx_spec, second_spec, timer_spec, tunnel_started_spec, via_tunnel, ActionView,
    DestinationView, EngineView, TunnelOutput,
};
use crate::netframe::lemma_envelope_payloads;
use crate::frame::{frame_bytes, lemma_frame_roundtrip, parse_frame, CTRL_AUDIO, CTRL_END, CTRL_PING};
use crate::jitter::playout_spec;

verus! {

/// One call into the engine as its loop makes it.
pub enum EngineEvent {
    /// A command from an interface.
    Command(AudioCommand),
    /// A round in which `payload` was encoded from captured audio; the
    /// engine sends it only when the transmit gate says to transmit.
    Encoded(Seq<u8>),
    /// A received datagram of `n` bytes whose payload is `raw`.
    Received(Seq<u8>, usize),
    /// A playout step.
    Playout,
    /// The one-second tick.
    Second,
    /// The top of a round.
    BeginRound,
    /// The VPN settings read again: local address and allowed addresses.
    VpnSettings(Seq<char>, Seq<char>),
    /// The tunnel set up again from the key texts, when the VPN is on.
    Restart(Seq<char>, Seq<char>),
    /// A tunnel built (at start-up or not) and what its first tick gave,
    /// when the VPN is on.
    TunnelStarted(bool, TunnelOutput),
    /// What a timer tick of the tunnel gave, when the tunnel is up.
    Timer(TunnelOutput),
    /// What the tunnel made of a received datagram, when the tunnel is up.
    Decapsulated(TunnelOutput),
}

/// What one call makes of the state: the new state, the actions asked
/// for, and the frames handed to the decoder.
pub open spec fn step_spec(v: EngineView, e: EngineEvent) -> (EngineView, Seq<ActionView>, Seq<Seq<u8>>) {
    match e {
        EngineEvent::Command(c) => (command_spec(v, c).0, command_spec(v, c).1, Seq::empty()),
        EngineEvent::Encoded(p) => if v.active && v.licensed {
            (encoded_spec(v, p).0, seq![encoded_spec(v, p).1], Seq::empty())
        } else {
            (v, Seq::empty(), Seq::empty())
        },
        EngineEvent::Received(raw, n) => (rx_spec(v, raw, n).0, Seq::empty(), Seq::empty()),
        EngineEvent::Playout => {
            let (m, out) = playout_spec(v.jitter, v.delay_pkts as nat, v.licensed);
            (
                EngineView { jitter: m, ..v },
                Seq::empty(),
                match out {
                    Some(d) => seq![d],
                    None => Seq::empty(),
                },
            )
        },
        EngineEvent::Second => (second_spec(v).0, seq![second_spec(v).1], Seq::empty()),
        EngineEvent::BeginRound => (round_spec(v), Seq::empty(), Seq::empty()),
        EngineEvent::VpnSettings(ip, allowed) => (
            EngineView { vpn_local_ip: ip, vpn_allowed_ips: allowed, ..v },
            Seq::empty(),
            Seq::empty(),
        ),
        EngineEvent::Restart(pk, peer) => if v.vpn_enabled {
            (restart_spec(v, pk, peer).0, restart_spec(v, pk, peer).2, Seq::empty())
        } else {
            (v, Seq::empty(), Seq::empty())
        },
        EngineEvent::TunnelStarted(at_startup, out) => if v.vpn_enabled {
            (tunnel_started_spec(v, at_startup, out).0, tunnel_started_spec(v, at_startup, out).1, Seq::empty())
        } else {
            (v, Seq::empty(), Seq::empty())
        },
        EngineEvent::Timer(out) => if via_tunnel(v) {
            (timer_spec(v, out).0, timer_spec(v, out).1, Seq::empty())
        } else {
            (v, Seq::empty(), Seq::empty())
        },
        EngineEvent::Decapsulated(out) => if via_tunnel(v) {
            (decap_spec(v, out).0, decap_spec(v, out).2, Seq::empty())
        } else {
            (v, Seq::empty(), Seq::empty())
        },
    }
}

/// What a sequence of calls makes of the state: the final state, all the
/// actions asked for in order, and all the frames handed to the decoder in
/// order.
pub open spec fn run_spec(v: EngineView, es: Seq<EngineEvent>) -> (
    EngineView,
    Seq<ActionView>,
    Seq<Seq<u8>>,
)
    decreases es.len(),
{
    if es.len() == 0 {
        (v, Seq::empty(), Seq::empty())
    } else {
        let r = run_spec(v, es.drop_last());
        let t = step_spec(r.0, es.last());
        (t.0, r.1 + t.1, r.2 + t.2)
    }
}

/// The frame that a datagram of the bridge carries: the bytes sent to the
/// target, or what follows the 28 envelope bytes of a frame passed through
/// the tunnel. The tunnel's own datagrams (handshakes, keep-alives,
/// replies), sent to the endpoint or the connected address, carry none.
pub open spec fn carried_frame(a: ActionView) -> Option<Seq<u8>> {
    match a {
        ActionView::Send { dest: DestinationView::Target(_), bytes, .. } => Some(bytes),
        ActionView::Encapsulate { frame, .. } => if frame.len() >= 28 {
            Some(frame.skip(28))
        } else {
            None
        },
        _ => None,
    }
}

/// Whether `a` sends an audio frame, plainly or through the tunnel.
pub open spec fn is_audio_send(a: ActionView) -> bool {
    match carried_frame(a) {
        Some(b) => match parse_frame(b) {
            Some((_, c, _)) => c == CTRL_AUDIO,
            None => false,
        },
        None => false,
    }
}

/// The frame an action sends, if any; empty otherwise.
pub open spec fn sent_bytes(a: ActionView) -> Seq<u8> {
    match carried_frame(a) {
        Some(b) => b,
        None => Seq::empty(),
    }
}

/// The audio frames sent by `acts`, in order.
pub open spec fn audio_frames(acts: Seq<ActionView>) -> Seq<Seq<u8>>
    decreases acts.len(),
{
    if acts.len() == 0 {
        Seq::empty()
    } else if is_audio_send(acts.last()) {
        audio_frames(acts.drop_last()).push(sent_bytes(acts.last()))
    } else {
        audio_frames(acts.drop_last())
    }
}

/// The total length of the frames `fs`.
pub open spec fn total_len(fs: Seq<Seq<u8>>) -> nat
    decreases fs.len(),
{
    if fs.len() == 0 {
        0
    } else {
        total_len(fs.drop_last()) + fs.last().len()
    }
}

/// Whether `e` switches the VPN on.
pub open spec fn switches_vpn_on(e: EngineEvent) -> bool {
    match e {
        EngineEvent::Command(AudioCommand::UpdateVpnEnabled(on)) => on,
        _ => false,
    }
}

/// Whether `e` starts a transmission.
pub open spec fn starts_transmitting(e: EngineEvent) -> bool {
    match e {
        EngineEvent::Command(AudioCommand::SetTransmitting(on)) => on,
        _ => false,
    }
}

/// Whether `e` grants the license.
pub open spec fn grants_license(e: EngineEvent) -> bool {
    match e {
        EngineEvent::Command(AudioCommand::UpdateAuth(on)) => on,
        _ => false,
    }
}

/// Whether no call of `es` switches the VPN on.
pub open spec fn vpn_stays_off(es: Seq<EngineEvent>) -> bool {
    forall|i: int| 0 <= i < es.len() ==> !switches_vpn_on(#[trigger] es[i])
}

/// The audio frames of `acts + b` are those of `acts`, then those of `b`.
pub proof fn lemma_audio_frames_append(a: Seq<ActionView>, b: Seq<ActionView>)
    ensures
        audio_frames(a + b) == audio_frames(a) + audio_frames(b),
    decreases b.len(),
{
    if b.len() == 0 {
        assert(a + b =~= a);
        assert(audio_frames(b) =~= Seq::<Seq<u8>>::empty());
        assert(audio_frames(a) + audio_frames(b) =~= audio_frames(a));
    } else {
        lemma_audio_frames_append(a, b.drop_last());
        assert((a + b).drop_last() =~= a + b.drop_last());
        assert((a + b).last() == b.last());
        if is_audio_send(b.last()) {
            assert(audio_frames(a) + audio_frames(b) =~= (audio_frames(a) + audio_frames(
                b.drop_last(),
            )).push(sent_bytes(b.last())));
        }
    }
}

/// Actions none of which sends an audio frame send no audio frames.
proof fn lemma_no_audio_sends(a: Seq<ActionView>)
    requires
        forall|i: int| 0 <= i < a.len() ==> !is_audio_send(#[trigger] a[i]),
    ensures
        audio_frames(a) == Seq::<Seq<u8>>::empty(),
    decreases a.len(),
{
    if a.len() > 0 {
        assert(!is_audio_send(a[a.len() - 1]));
        lemma_no_audio_sends(a.drop_last());
    }
}

/// The audio frames of a single action.
proof fn lemma_audio_frames_one(x: ActionView)
    ensures
        audio_frames(seq![x]) == if is_audio_send(x) {
            seq![sent_bytes(x)]
        } else {
            Seq::<Seq<u8>>::empty()
        },
{
    reveal_with_fuel(audio_frames, 2);
    assert(seq![x].drop_last() =~= Seq::<ActionView>::empty());
    assert(seq![x].last() == x);
    if is_audio_send(x) {
        assert(Seq::<Seq<u8>>::empty().push(sent_bytes(x)) =~= seq![sent_bytes(x)]);
    }
}

/// Adding `y` below `m` to a value known modulo `m`.
proof fn lemma_mod_step(a: int, y: int, m: int)
    requires
        0 < m,
        0 <= y < m,
    ensures
        (a % m) + y < m ==> (a + y) % m == (a % m) + y,
        (a % m) + y >= m ==> (a + y) % m == (a % m) + y - m,
{
    lemma_mod_bound(a, m);
    lemma_small_mod(y as nat, m as nat);
    lemma_add_mod_noop(a, y, m);
    let x = (a % m) + y;
    if x < m {
        lemma_small_mod(x as nat, m as nat);
    } else {
        lemma_mod_multiples_vanish(1, x - m, m);
        lemma_small_mod((x - m) as nat, m as nat);
    }
}

/// The keep-alive packet carries no audio frame, plainly or through the
/// tunnel.
proof fn lemma_keepalive_not_audio(v: EngineView)
    ensures
        !is_audio_send(second_spec(v).1),
{
    let pl = vstd::utf8::encode_utf8("PING_AUDIO_TX"@);
    let pkt = ping_frame_bytes();
    lemma_frame_roundtrip(0, CTRL_PING, pl);
    if via_tunnel(v) {
        reveal_strlit("PING_AUDIO_TX");
        let s = "PING_AUDIO_TX"@;
        assert(vstd::utf8::is_ascii_chars(s));
        vstd::utf8::is_ascii_chars_encode_utf8(s);
        assert(pl[7] == s[7] as u8);
        assert(pl[7] == 68u8);
        lemma_envelope_payloads(pkt, v.vpn_local_ip, 0, 0, v.target);
        let f = crate::netframe::ping_frame_spec(pkt, v.vpn_local_ip, v.target);
        assert(pkt.len() == 22);
        assert(f.skip(28) =~= f.skip(20).skip(8));
        assert(f.skip(28)[8] == pkt[16]);
        assert(pkt[16] == pl[7]);
    }
}

/// One call sends at most one audio frame, plainly or through the tunnel:
/// the frame built from an encoded packet while transmitting with a
/// license. With the VPN off, a call other than switching it on leaves it
/// off, with no tunnel and the tunnel state reading "off".
pub proof fn lemma_step_audio(v: EngineView, e: EngineEvent)
    ensures
        audio_frames(step_spec(v, e).1) == match e {
            EngineEvent::Encoded(p) => if v.active && v.licensed {
                seq![frame_bytes(v.seq_tx, CTRL_AUDIO, p)]
            } else {
                Seq::<Seq<u8>>::empty()
            },
            _ => Seq::<Seq<u8>>::empty(),
        },
        !v.vpn_enabled && !switches_vpn_on(e) ==> !step_spec(v, e).0.vpn_enabled,
        !v.vpn_enabled && !switches_vpn_on(e) && v.vpn_status == 0 && !v.tunnel_up
            ==> step_spec(v, e).0.vpn_status == 0 && !step_spec(v, e).0.tunnel_up,
{
    lemma_frame_roundtrip(0, CTRL_END, seq![]);
    match e {
        EngineEvent::Command(c) => {
            let a = command_spec(v, c).1;
            assert(end_of_stream_view(v) is Encapsulate ==> crate::engine::end_frame().len() == 9);
            assert forall|i: int| 0 <= i < a.len() implies !is_audio_send(#[trigger] a[i]) by {}
            lemma_no_audio_sends(a);
        },
        EngineEvent::Encoded(p) => {
            if v.active && v.licensed {
                let pkt = frame_bytes(v.seq_tx, CTRL_AUDIO, p);
                lemma_frame_roundtrip(v.seq_tx, CTRL_AUDIO, p);
                lemma_envelope_payloads(pkt, v.vpn_local_ip, v.local_port, v.dest_port, v.target);
                lemma_audio_frames_one(encoded_spec(v, p).1);
            }
        },
        EngineEvent::Second => {
            lemma_keepalive_not_audio(v);
            lemma_audio_frames_one(second_spec(v).1);
        },
        _ => {
            let a = step_spec(v, e).1;
            assert forall|i: int| 0 <= i < a.len() implies !is_audio_send(#[trigger] a[i]) by {}
            lemma_no_audio_sends(a);
        },
    }
}

/// The number of distinct sequence numbers, after which they wrap.
pub open spec fn seq_modulus() -> int {
    u64::MAX + 1
}

/// Whether the frame `b` is an audio frame carrying sequence number `n`.
pub open spec fn is_audio_frame_numbered(b: Seq<u8>, n: int) -> bool {
    match parse_frame(b) {
        Some((s, c, _)) => c == CTRL_AUDIO && s == n,
        None => false,
    }
}

/// A run of `a` then `b` is the run of `b` from where the run of `a` ends,
/// its actions and decoded frames following those of `a`.
#[verifier::rlimit(50)]
pub proof fn lemma_run_append(v: EngineView, a: Seq<EngineEvent>, b: Seq<EngineEvent>)
    ensures
        ({
            let ra = run_spec(v, a);
            let rb = run_spec(ra.0, b);
            run_spec(v, a + b) == (rb.0, ra.1 + rb.1, ra.2 + rb.2)
        }),
    decreases b.len(),
{
    let ra = run_spec(v, a);
    if b.len() == 0 {
        assert(a + b =~= a);
        assert(ra.1 + Seq::<ActionView>::empty() =~= ra.1);
        assert(ra.2 + Seq::<Seq<u8>>::empty() =~= ra.2);
    } else {
        lemma_run_append(v, a, b.drop_last());
        assert((a + b).drop_last() =~= a + b.drop_last());
        assert((a + b).last() == b.last());
        let rb0 = run_spec(ra.0, b.drop_last());
        let t = step_spec(rb0.0, b.last());
        assert(ra.1 + rb0.1 + t.1 =~= ra.1 + (rb0.1 + t.1));
        assert(ra.2 + rb0.2 + t.2 =~= ra.2 + (rb0.2 + t.2));
    }
}

/// With the VPN off and no call switching it on, it stays off, and a
/// tunnel state that reads "off" with no tunnel stays so.
pub proof fn lemma_vpn_stays_off(v: EngineView, es: Seq<EngineEvent>)
    requires
        !v.vpn_enabled,
        vpn_stays_off(es),
    ensures
        !run_spec(v, es).0.vpn_enabled,
        v.vpn_status == 0 && !v.tunnel_up ==> run_spec(v, es).0.vpn_status == 0 && !run_spec(
            v,
            es,
        ).0.tunnel_up,
    decreases es.len(),
{
    if es.len() > 0 {
        let d = es.drop_last();
        assert forall|i: int| 0 <= i < d.len() implies !switches_vpn_on(#[trigger] d[i]) by {
            assert(d[i] == es[i]);
        }
        lemma_vpn_stays_off(v, d);
        assert(!switches_vpn_on(es[es.len() - 1]));
        lemma_step_audio(run_spec(v, d).0, es.last());
    }
}

/// The audio frames that a run sends, plainly or through the tunnel, carry
/// the sequence numbers that follow one another from the engine's next
/// number (wrapping after the largest), whatever else happens in between,
/// starting and stopping transmissions and switching the VPN included; the
/// next number after the run follows the last frame sent.
pub proof fn lemma_frames_numbered(v: EngineView, es: Seq<EngineEvent>)
    ensures
        run_spec(v, es).0.seq_tx == (v.seq_tx + audio_frames(run_spec(v, es).1).len()) % seq_modulus(),
        forall|k: int|
            0 <= k < audio_frames(run_spec(v, es).1).len() ==> is_audio_frame_numbered(
                #[trigger] audio_frames(run_spec(v, es).1)[k],
                (v.seq_tx + k) % seq_modulus(),
            ),
    decreases es.len(),
{
    let m = seq_modulus();
    if es.len() == 0 {
        lemma_small_mod(v.seq_tx as nat, m as nat);
    } else {
        let d = es.drop_last();
        lemma_frames_numbered(v, d);
        let r0 = run_spec(v, d);
        let w = r0.0;
        let e = es.last();
        let t = step_spec(w, e);
        lemma_step_audio(w, e);
        lemma_audio_frames_append(r0.1, t.1);
        let f0 = audio_frames(r0.1);
        let f = audio_frames(run_spec(v, es).1);
        assert(f == f0 + audio_frames(t.1));
        match e {
            EngineEvent::Encoded(p) => {
                if w.active && w.licensed {
                    lemma_frame_roundtrip(w.seq_tx, CTRL_AUDIO, p);
                    lemma_mod_step(v.seq_tx + f0.len(), 1, m);
                    lemma_mod_bound(v.seq_tx + f0.len(), m);
                    assert(f[f0.len() as int] == frame_bytes(w.seq_tx, CTRL_AUDIO, p));
                    assert forall|k: int| 0 <= k < f.len() implies is_audio_frame_numbered(
                        #[trigger] f[k],
                        (v.seq_tx + k) % m,
                    ) by {
                        if k < f0.len() {
                            assert(f[k] == f0[k]);
                        }
                    }
                } else {
                    assert(f =~= f0);
                }
            },
            _ => {
                assert(f =~= f0);
            },
        }
    }
}

/// An engine without a license that is not granted one sends no audio
/// frame, plainly or through the tunnel, and hands nothing to the decoder,
/// whatever calls are made.
pub proof fn lemma_unlicensed_is_silent(v: EngineView, es: Seq<EngineEvent>)
    requires
        !v.licensed,
        forall|i: int| 0 <= i < es.len() ==> !grants_license(#[trigger] es[i]),
    ensures
        audio_frames(run_spec(v, es).1) == Seq::<Seq<u8>>::empty(),
        run_spec(v, es).2 == Seq::<Seq<u8>>::empty(),
        !run_spec(v, es).0.licensed,
    decreases es.len(),
{
    if es.len() > 0 {
        let d = es.drop_last();
        assert forall|i: int| 0 <= i < d.len() implies !grants_license(#[trigger] d[i]) by {
            assert(d[i] == es[i]);
        }
        lemma_unlicensed_is_silent(v, d);
        let r0 = run_spec(v, d);
        let e = es.last();
        assert(!grants_license(es[es.len() - 1]));
        let t = step_spec(r0.0, e);
        lemma_step_audio(r0.0, e);
        lemma_audio_frames_append(r0.1, t.1);
        assert(t.2 =~= Seq::<Seq<u8>>::empty());
        assert(r0.2 + t.2 =~= Seq::<Seq<u8>>::empty());
        assert(audio_frames(r0.1) + audio_frames(t.1) =~= Seq::<Seq<u8>>::empty());
    }
}

/// The packet a call hands over to be sent, if any.
pub open spec fn encoded_payload(e: EngineEvent) -> Option<Seq<u8>> {
    match e {
        EngineEvent::Encoded(p) => Some(p),
        _ => None,
    }
}

/// Every audio frame that a run sends, plainly or through the tunnel,
/// carries, after its nine header bytes, a packet handed over to be sent during the run.
#[verifier::rlimit(50)]
pub proof fn lemma_frames_carry_encoded_audio(v: EngineView, es: Seq<EngineEvent>)
    ensures
        forall|k: int|
            #![trigger audio_frames(run_spec(v, es).1)[k]]
            0 <= k < audio_frames(run_spec(v, es).1).len() ==> exists|i: int|
                0 <= i < es.len() && #[trigger] encoded_payload(es[i]) == Some(
                    audio_frames(run_spec(v, es).1)[k].skip(9),
                ),
    decreases es.len(),
{
    if es.len() > 0 {
        let d = es.drop_last();
        lemma_frames_carry_encoded_audio(v, d);
        let r0 = run_spec(v, d);
        let w = r0.0;
        let e = es.last();
        let t = step_spec(w, e);
        lemma_step_audio(w, e);
        lemma_audio_frames_append(r0.1, t.1);
        let f0 = audio_frames(r0.1);
        let f = audio_frames(run_spec(v, es).1);
        let tf = audio_frames(t.1);
        assert(f == f0 + tf);
        let last = es.len() - 1;
        assert(es[last] == e);
        match e {
            EngineEvent::Encoded(p) => {
                if w.active && w.licensed {
                    let pkt = frame_bytes(w.seq_tx, CTRL_AUDIO, p);
                    assert(tf[0] == pkt);
                    assert(pkt.skip(9) =~= p);
                }
            },
            _ => {},
        }
        assert forall|k: int| #![trigger f[k]] 0 <= k < f.len() implies exists|i: int|
            0 <= i < es.len() && #[trigger] encoded_payload(es[i]) == Some(f[k].skip(9)) by {
            if k < f0.len() {
                assert(f[k] == f0[k]);
                let i = choose|i: int|
                    0 <= i < d.len() && #[trigger] encoded_payload(d[i]) == Some(f0[k].skip(9));
                assert(es[i] == d[i]);
            } else {
                assert(f[k] == tf[0]);
                assert(encoded_payload(es[last]) == Some(tf[0].skip(9)));
            }
        }
    }
}

/// The license state after the calls `es`, starting from `l`: the last
/// grant or withdrawal among them, else `l`.
pub open spec fn license_after(l: bool, es: Seq<EngineEvent>) -> bool
    decreases es.len(),
{
    if es.len() == 0 {
        l
    } else {
        match es.last() {
            EngineEvent::Command(AudioCommand::UpdateAuth(b)) => b,
            _ => license_after(l, es.drop_last()),
        }
    }
}

/// The engine's license state is the last one a command set, or the one it
/// started with.
pub proof fn lemma_license_follows_commands(v: EngineView, es: Seq<EngineEvent>)
    ensures
        run_spec(v, es).0.licensed == license_after(v.licensed, es),
    decreases es.len(),
{
    if es.len() > 0 {
        lemma_license_follows_commands(v, es.drop_last());
    }
}

/// A call made while the license state (the last grant or
/// withdrawal, else the state at the start) is off sends no audio frame
/// and hands nothing to the decoder.
pub proof fn lemma_no_audio_while_unlicensed(v: EngineView, es: Seq<EngineEvent>, i: int)
    requires
        0 <= i < es.len(),
        !license_after(v.licensed, es.take(i)),
    ensures
        audio_frames(step_spec(run_spec(v, es.take(i)).0, es[i]).1) == Seq::<Seq<u8>>::empty(),
        step_spec(run_spec(v, es.take(i)).0, es[i]).2 == Seq::<Seq<u8>>::empty(),
{
    let d = es.take(i);
    lemma_license_follows_commands(v, d);
    let w = run_spec(v, d).0;
    lemma_step_audio(w, es[i]);
    assert(step_spec(w, es[i]).2 =~= Seq::<Seq<u8>>::empty());
}

/// An engine that is not transmitting and is not told to start sends no
/// audio frame, plainly or through the tunnel, whatever calls are made.
pub proof fn lemma_idle_is_silent(v: EngineView, es: Seq<EngineEvent>)
    requires
        !v.active,
        forall|i: int| 0 <= i < es.len() ==> !starts_transmitting(#[trigger] es[i]),
    ensures
        audio_frames(run_spec(v, es).1) == Seq::<Seq<u8>>::empty(),
        !run_spec(v, es).0.active,
    decreases es.len(),
{
    if es.len() > 0 {
        let d = es.drop_last();
        assert forall|i: int| 0 <= i < d.len() implies !starts_transmitting(#[trigger] d[i]) by {
            assert(d[i] == es[i]);
        }
        lemma_idle_is_silent(v, d);
        let r0 = run_spec(v, d);
        let e = es.last();
        assert(!starts_transmitting(es[es.len() - 1]));
        let t = step_spec(r0.0, e);
        lemma_step_audio(r0.0, e);
        lemma_audio_frames_append(r0.1, t.1);
        assert(audio_frames(r0.1) + audio_frames(t.1) =~= Seq::<Seq<u8>>::empty());
    }
}

/// Stopping a transmission sends exactly one packet, the end-of-stream
/// packet (to the target, or through the tunnel when it is up), and
/// empties the held frames; after it no audio frame is sent until a
/// transmission is started again.
pub proof fn lemma_stop_then_silence(v: EngineView, es: Seq<EngineEvent>)
    requires
        v.active,
        forall|i: int| 0 <= i < es.len() ==> !starts_transmitting(#[trigger] es[i]),
    ensures
        ({
            let stop = seq![EngineEvent::Command(AudioCommand::SetTransmitting(false))];
            let first = run_spec(v, stop);
            let r = run_spec(v, stop + es);
            &&& first.1 == seq![end_of_stream_view(v)]
            &&& first.0.jitter == Map::<u64, Seq<u8>>::empty()
            &&& r.1 == first.1 + run_spec(first.0, es).1
            &&& audio_frames(r.1) == Seq::<Seq<u8>>::empty()
        }),
{
    let stop = seq![EngineEvent::Command(AudioCommand::SetTransmitting(false))];
    reveal_with_fuel(run_spec, 2);
    assert(stop.drop_last() =~= Seq::<EngineEvent>::empty());
    let first = run_spec(v, stop);
    assert(first.1 =~= seq![end_of_stream_view(v)]);
    lemma_run_append(v, stop, es);
    lemma_step_audio(v, stop[0]);
    assert(!first.0.active);
    lemma_idle_is_silent(first.0, es);
    lemma_audio_frames_append(first.1, run_spec(first.0, es).1);
    assert(audio_frames(first.1) + Seq::<Seq<u8>>::empty() =~= Seq::<Seq<u8>>::empty());
}

/// Whether `e` received a datagram whose payload reads as an audio frame
/// with sequence number `k` and audio `d`: read whole, or, as the engine
/// reads it with the VPN on, after its first eight bytes.
pub open spec fn received_as(e: EngineEvent, k: u64, d: Seq<u8>) -> bool {
    match e {
        EngineEvent::Received(raw, _) => parse_frame(raw) == Some((k, CTRL_AUDIO, d)) || (raw.len()
            > 8 && parse_frame(raw.skip(8)) == Some((k, CTRL_AUDIO, d))),
        _ => false,
    }
}

/// Whether a call of `es` received an audio frame with sequence number
/// `k` and audio `d`.
pub open spec fn received_audio(es: Seq<EngineEvent>, k: u64, d: Seq<u8>) -> bool {
    exists|i: int| 0 <= i < es.len() && #[trigger] received_as(es[i], k, d)
}

/// Every frame that the engine holds for playout after a run, with the
/// tunnel up or not, was held under the same number before it, or was
/// received during it as an audio frame with that sequence number and that
/// audio; frames of other kinds never enter.
pub proof fn lemma_held_frames_were_received(v: EngineView, es: Seq<EngineEvent>)
    ensures
        forall|k: u64|
            #[trigger] run_spec(v, es).0.jitter.contains_key(k) ==> (v.jitter.contains_key(k)
                && v.jitter[k] == run_spec(v, es).0.jitter[k]) || received_audio(
                es,
                k,
                run_spec(v, es).0.jitter[k],
            ),
    decreases es.len(),
{
    if es.len() > 0 {
        let d = es.drop_last();
        lemma_held_frames_were_received(v, d);
        let w = run_spec(v, d).0;
        let e = es.last();
        let x = step_spec(w, e).0.jitter;
        assert(x == run_spec(v, es).0.jitter);
        assert forall|k: u64| #[trigger] x.contains_key(k) implies (v.jitter.contains_key(k)
            && v.jitter[k] == x[k]) || received_audio(es, k, x[k]) by {
            let last = es.len() - 1;
            assert(es[last] == e);
            if w.jitter.contains_key(k) && w.jitter[k] == x[k] {
                if !(v.jitter.contains_key(k) && v.jitter[k] == x[k]) {
                    assert(received_audio(d, k, x[k]));
                    let i = choose|i: int|
                        0 <= i < d.len() && #[trigger] received_as(d[i], k, x[k]);
                    assert(es[i] == d[i]);
                }
            } else {
                match e {
                    EngineEvent::Received(raw, n) => {
                        assert(received_as(es[last], k, x[k]));
                    },
                    _ => {},
                }
            }
        }
    }
}

/// Whether the packet a call hands over to be sent fits the machine's
/// lengths with room for its envelope.
pub open spec fn payload_fits(e: EngineEvent) -> bool {
    match e {
        EngineEvent::Encoded(p) => p.len() + 64 <= usize::MAX,
        _ => true,
    }
}

/// Whether `e` is the one-second tick.
pub open spec fn is_tick(e: EngineEvent) -> bool {
    match e {
        EngineEvent::Second => true,
        _ => false,
    }
}

/// Whether `e` leaves the VPN switched as `vpn` says: it is no command to
/// switch it, or one that asks for what it already is.
pub open spec fn keeps_vpn(vpn: bool, e: EngineEvent) -> bool {
    match e {
        EngineEvent::Command(AudioCommand::UpdateVpnEnabled(on)) => on == vpn,
        _ => true,
    }
}

/// The part of a received payload that the engine reads as a frame: after
/// the first eight bytes of a longer payload with the VPN on, else all of
/// it.
pub open spec fn read_part(vpn: bool, raw: Seq<u8>) -> Seq<u8> {
    if vpn && raw.len() > 8 {
        raw.skip(8)
    } else {
        raw
    }
}

/// The size of a received datagram whose payload reads as a frame, with
/// the VPN on or off as `vpn` says; nothing for other calls.
pub open spec fn rx_size(vpn: bool, e: EngineEvent) -> nat {
    match e {
        EngineEvent::Received(raw, n) => if parse_frame(read_part(vpn, raw)) is Some {
            n as nat
        } else {
            0
        },
        _ => 0,
    }
}

/// The sizes of the received datagrams of `es` that read as frames, added.
pub open spec fn rx_total(vpn: bool, es: Seq<EngineEvent>) -> nat
    decreases es.len(),
{
    if es.len() == 0 {
        0
    } else {
        rx_total(vpn, es.drop_last()) + rx_size(vpn, es.last())
    }
}

/// The number of values of the byte counters, after which they wrap.
pub open spec fn counter_modulus() -> int {
    usize::MAX + 1
}

/// The total length of `a + b` is that of `a` and that of `b` added.
proof fn lemma_total_len_append(a: Seq<Seq<u8>>, b: Seq<Seq<u8>>)
    ensures
        total_len(a + b) == total_len(a) + total_len(b),
    decreases b.len(),
{
    if b.len() == 0 {
        assert(a + b =~= a);
    } else {
        lemma_total_len_append(a, b.drop_last());
        assert((a + b).drop_last() =~= a + b.drop_last());
    }
}

/// When no call switches the VPN to the other state, it stays as it was.
pub proof fn lemma_vpn_unchanged(v: EngineView, es: Seq<EngineEvent>)
    requires
        forall|i: int| 0 <= i < es.len() ==> keeps_vpn(v.vpn_enabled, #[trigger] es[i]),
    ensures
        run_spec(v, es).0.vpn_enabled == v.vpn_enabled,
    decreases es.len(),
{
    if es.len() > 0 {
        let d = es.drop_last();
        assert forall|i: int| 0 <= i < d.len() implies keeps_vpn(v.vpn_enabled, #[trigger] d[i]) by {
            assert(d[i] == es[i]);
        }
        lemma_vpn_unchanged(v, d);
        assert(keeps_vpn(v.vpn_enabled, es[es.len() - 1]));
    }
}

/// How one call other than the tick moves the byte counters.
proof fn lemma_step_counts(w: EngineView, e: EngineEvent)
    requires
        !is_tick(e),
        payload_fits(e),
    ensures
        ({
            let t = step_spec(w, e);
            let y = total_len(audio_frames(t.1));
            let z = rx_size(w.vpn_enabled, e);
            &&& y <= usize::MAX
            &&& z <= usize::MAX
            &&& t.0.bytes_tx == if w.bytes_tx + y > usize::MAX {
                w.bytes_tx + y - counter_modulus()
            } else {
                w.bytes_tx + y
            }
            &&& t.0.bytes_rx == if w.bytes_rx + z > usize::MAX {
                w.bytes_rx + z - counter_modulus()
            } else {
                w.bytes_rx + z
            }
        }),
{
    let t = step_spec(w, e);
    lemma_step_audio(w, e);
    reveal_with_fuel(total_len, 2);
    match e {
        EngineEvent::Encoded(p) => {
            if w.active && w.licensed {
                let pkt = frame_bytes(w.seq_tx, CTRL_AUDIO, p);
                assert(seq![pkt].drop_last() =~= Seq::<Seq<u8>>::empty());
                assert(total_len(seq![pkt]) == pkt.len());
            }
        },
        _ => {},
    }
}

/// With the VPN not switched to the other state during a run (asking for
/// the state it is already in is allowed) and no tick in between, the
/// bytes-sent counter grows by the lengths of the audio frames sent
/// (plainly or through the tunnel) and the bytes-received counter by the
/// sizes of the received datagrams that read as frames (both wrapping
/// after the largest `usize`); the tick then reports and resets them.
#[verifier::rlimit(50)]
pub proof fn lemma_byte_counts(v: EngineView, es: Seq<EngineEvent>)
    requires
        forall|i: int|
            0 <= i < es.len() ==> !is_tick(#[trigger] es[i]) && payload_fits(es[i]) && keeps_vpn(
                v.vpn_enabled,
                es[i],
            ),
    ensures
        run_spec(v, es).0.bytes_tx == (v.bytes_tx + total_len(audio_frames(run_spec(v, es).1)))
            % counter_modulus(),
        run_spec(v, es).0.bytes_rx == (v.bytes_rx + rx_total(v.vpn_enabled, es)) % counter_modulus(),
    decreases es.len(),
{
    let m = counter_modulus();
    if es.len() == 0 {
        lemma_small_mod(v.bytes_tx as nat, m as nat);
        lemma_small_mod(v.bytes_rx as nat, m as nat);
    } else {
        let d = es.drop_last();
        assert forall|i: int| 0 <= i < d.len() implies !is_tick(#[trigger] d[i]) && payload_fits(d[i])
            && keeps_vpn(v.vpn_enabled, d[i]) by {
            assert(d[i] == es[i]);
        }
        assert forall|i: int| 0 <= i < d.len() implies keeps_vpn(v.vpn_enabled, #[trigger] d[i]) by {}
        lemma_byte_counts(v, d);
        lemma_vpn_unchanged(v, d);
        let r0 = run_spec(v, d);
        let w = r0.0;
        let e = es.last();
        assert(!is_tick(es[es.len() - 1]) && payload_fits(es[es.len() - 1]));
        let t = step_spec(w, e);
        lemma_step_counts(w, e);
        lemma_audio_frames_append(r0.1, t.1);
        lemma_total_len_append(audio_frames(r0.1), audio_frames(t.1));
        let y = total_len(audio_frames(t.1));
        lemma_mod_step(v.bytes_tx + total_len(audio_frames(r0.1)), y as int, m);
        lemma_mod_step(v.bytes_rx + rx_total(v.vpn_enabled, d), rx_size(v.vpn_enabled, e) as int, m);
    }
}

} // verus!
