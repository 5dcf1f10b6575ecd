//! The TCP protocol's data types and its framing: every packet travels as
//! a 2-byte big-endian length prefix followed by that many body bytes.
use vstd::prelude::*;
use crate::engine::play::CrownfallGame;

verus! {

/// Bytes in a frame's length prefix.
pub const LEN_PREFIX_SIZE: usize = 2;

/// Bytes read from the socket per read call.
pub const BUFFER_SIZE: usize = 4000;

#[derive(Clone, Debug)]
pub struct WebGame {
    pub id: String,
    pub game: CrownfallGame,
    pub white_player_name: String,
    pub black_player_name: String,
}

#[derive(Clone, Copy, Debug, Eq, PartialEq, Structural)]
pub enum PendingGameState {
    Pending,
    Joined,
    Invalid,
}

#[derive(Clone, Copy, Debug, Eq, PartialEq, Structural)]
pub enum PerformActionState {
    Done,
    NotYourTurn,
    InvalidGame,
}

#[derive(Clone, Debug)]
pub enum NetGameState {
    Active(WebGame),
    InvalidGame,
}

/// The body length announced by a prefix.
pub open spec fn spec_prefix_value(hi: u8, lo: u8) -> int {
    hi as int * 256 + lo as int
}

/// The complete frames at the front of `buf`, in order, and how many bytes
/// they take up. An incomplete frame (or prefix) at the end is left for
/// later.
pub open spec fn spec_split(buf: Seq<u8>) -> (Seq<Seq<u8>>, int)
    decreases buf.len(),
{
    if buf.len() < 2 {
        (Seq::empty(), 0)
    } else {
        let total = 2 + spec_prefix_value(buf[0], buf[1]);
        if buf.len() < total {
            (Seq::empty(), 0)
        } else {
            let (rest, used) = spec_split(buf.subrange(total, buf.len() as int));
            (seq![buf.subrange(2, total)] + rest, total + used)
        }
    }
}

/// Splits the complete frames off the front of `buf`: their bodies, in
/// order, and the number of bytes they occupied.
pub fn split_frames(buf: &Vec<u8>) -> (r: (Vec<Vec<u8>>, usize))
    ensures
        r.0@.len() == spec_split(buf@).0.len(),
        forall|k: int| 0 <= k < r.0@.len() ==> (#[trigger] r.0@[k])@ == spec_split(buf@).0[k],
        r.1 == spec_split(buf@).1,
{
    let ghost all = buf@;
    let mut frames: Vec<Vec<u8>> = Vec::new();
    let mut offset: usize = 0;
    let mut done = false;
    assert(all.subrange(0, all.len() as int) =~= all);
    while !done
        invariant
            all == buf@,
            offset <= all.len(),
            !done ==> ({
                let (rest, used) = spec_split(all.subrange(offset as int, all.len() as int));
                &&& frames@.len() + rest.len() == spec_split(all).0.len()
                &&& forall|k: int| 0 <= k < frames@.len() ==> (#[trigger] frames@[k])@ == spec_split(all).0[k]
                &&& forall|k: int| 0 <= k < rest.len() ==> #[trigger] rest[k] == spec_split(all).0[frames@.len() + k]
                &&& offset + used == spec_split(all).1
            }),
            done ==> ({
                &&& frames@.len() == spec_split(all).0.len()
                &&& forall|k: int| 0 <= k < frames@.len() ==> (#[trigger] frames@[k])@ == spec_split(all).0[k]
                &&& offset == spec_split(all).1
            }),
        decreases all.len() - offset + (if done { 0int } else { 1int }),
    {
        let ghost cur = all.subrange(offset as int, all.len() as int);
        let avail = buf.len() - offset;
        if avail < LEN_PREFIX_SIZE {
            done = true;
        } else {
            let body_len = (buf[offset] as usize) * 256 + (buf[offset + 1] as usize);
            assert(body_len == spec_prefix_value(cur[0], cur[1]));
            if avail < LEN_PREFIX_SIZE + body_len {
                done = true;
            } else {
                let total = LEN_PREFIX_SIZE + body_len;
                let mut body: Vec<u8> = Vec::new();
                let mut i: usize = 0;
                while i < body_len
                    invariant
                        all == buf@,
                        all.len() == buf.len(),
                        offset + 2 + body_len <= buf.len(),
                        i <= body_len,
                        body@ == all.subrange(offset + 2, offset + 2 + i),
                    decreases body_len - i,
                {
                    body.push(buf[offset + 2 + i]);
                    i = i + 1;
                    assert(body@ =~= all.subrange(offset + 2, offset + 2 + i));
                }
                proof {
                    let (rest, used) = spec_split(cur);
                    let next = all.subrange(offset + total, all.len() as int);
                    assert(cur.subrange(total as int, cur.len() as int) =~= next);
                    assert(cur.subrange(2, total as int) =~= body@);
                    let (rest2, used2) = spec_split(next);
                    assert(rest =~= seq![body@] + rest2);
                    assert(rest[0] == body@);
                    assert forall|k: int| 0 <= k < rest2.len() implies #[trigger] rest2[k] == spec_split(all).0[frames@.len() + 1 + k] by {
                        assert(rest2[k] == rest[k + 1]);
                    }
                }
                let ghost before = frames@;
                frames.push(body);
                proof {
                    assert forall|k: int| 0 <= k < frames@.len() implies (#[trigger] frames@[k])@ == spec_split(all).0[k] by {
                        if k < before.len() {
                            assert(frames@[k] == before[k]);
                        } else {
                            let (rest, used) = spec_split(cur);
                            assert(rest[0] == spec_split(all).0[before.len() as int]);
                        }
                    }
                }
                offset = offset + total;
            }
        }
        if done {
            proof {
                let (rest, used) = spec_split(cur);
                assert(rest.len() == 0);
                assert(used == 0);
            }
        }
    }
    (frames, offset)
}

/// The length prefix of a body of `len` bytes (the length taken modulo
/// 2^16, as a 16-bit big-endian number).
pub open spec fn spec_prefix(len: nat) -> Seq<u8> {
    let n = (len % 65536) as int;
    seq![(n / 256) as u8, (n % 256) as u8]
}

/// A frame carrying `body`: its length prefix, then the body.
pub fn encode_frame(body: &Vec<u8>) -> (r: Vec<u8>)
    ensures
        r@ == spec_prefix(body@.len()) + body@,
{
    let n = body.len() % 65536;
    let mut out: Vec<u8> = Vec::new();
    out.push((n / 256) as u8);
    out.push((n % 256) as u8);
    let mut i: usize = 0;
    while i < body.len()
        invariant
            i <= body@.len(),
            n == body@.len() % 65536,
            out@ == spec_prefix(body@.len()) + body@.subrange(0, i as int),
        decreases body@.len() - i,
    {
        out.push(body[i]);
        i = i + 1;
        assert(out@ =~= spec_prefix(body@.len()) + body@.subrange(0, i as int));
    }
    assert(body@.subrange(0, body@.len() as int) =~= body@);
    out
}

/// Law: a frame built by `encode_frame` for a body shorter than 2^16 bytes
/// is split back into exactly that body, using up the whole frame.
pub proof fn lemma_frame_roundtrip(body: Seq<u8>)
    requires
        body.len() < 65536,
    ensures
        spec_split(spec_prefix(body.len()) + body).0 == seq![body],
        spec_split(spec_prefix(body.len()) + body).1 == body.len() + 2,
{
    let f = spec_prefix(body.len()) + body;
    let n = body.len() as int;
    assert(spec_prefix_value(f[0], f[1]) == n) by (nonlinear_arith)
        requires
            f[0] == (n / 256) as u8,
            f[1] == (n % 256) as u8,
            0 <= n < 65536,
    ;
    assert(f.subrange(2 + n, f.len() as int) =~= Seq::<u8>::empty());
    assert(f.subrange(2, 2 + n) =~= body);
    assert(spec_split(Seq::<u8>::empty()).0 =~= Seq::<Seq<u8>>::empty());
    assert(seq![body] + Seq::<Seq<u8>>::empty() =~= seq![body]);
}

/// The byte stream carrying `bodies` as consecutive frames.
pub open spec fn spec_frames(bodies: Seq<Seq<u8>>) -> Seq<u8>
    decreases bodies.len(),
{
    if bodies.len() == 0 {
        Seq::empty()
    } else {
        spec_prefix(bodies[0].len()) + bodies[0] + spec_frames(bodies.drop_first())
    }
}

proof fn lemma_split_frame_then(body: Seq<u8>, rest: Seq<u8>)
    requires
        body.len() < 65536,
    ensures
        spec_split(spec_prefix(body.len()) + body + rest).0 == seq![body] + spec_split(rest).0,
        spec_split(spec_prefix(body.len()) + body + rest).1 == body.len() + 2 + spec_split(rest).1,
{
    let f = spec_prefix(body.len()) + body + rest;
    let n = body.len() as int;
    assert(spec_prefix_value(f[0], f[1]) == n) by (nonlinear_arith)
        requires
            f[0] == (n / 256) as u8,
            f[1] == (n % 256) as u8,
            0 <= n < 65536,
    ;
    assert(f.subrange(2 + n, f.len() as int) =~= rest);
    assert(f.subrange(2, 2 + n) =~= body);
}

/// Law: a stream of frames built from bodies shorter than 2^16 bytes each
/// splits back into exactly those bodies, in order, using up the whole
/// stream.
pub proof fn lemma_frames_roundtrip(bodies: Seq<Seq<u8>>)
    requires
        forall|k: int| 0 <= k < bodies.len() ==> (#[trigger] bodies[k]).len() < 65536,
    ensures
        spec_split(spec_frames(bodies)).0 == bodies,
        spec_split(spec_frames(bodies)).1 == spec_frames(bodies).len(),
    decreases bodies.len(),
{
    if bodies.len() == 0 {
        assert(spec_split(Seq::<u8>::empty()).0 =~= Seq::<Seq<u8>>::empty());
    } else {
        let rest = bodies.drop_first();
        assert forall|k: int| 0 <= k < rest.len() implies (#[trigger] rest[k]).len() < 65536 by {
            assert(rest[k] == bodies[k + 1]);
        }
        lemma_frames_roundtrip(rest);
        assert(bodies[0].len() < 65536);
        lemma_split_frame_then(bodies[0], spec_frames(rest));
        assert(seq![bodies[0]] + rest =~= bodies);
    }
}

} // verus!

verus! {

/// A game waiting for its second player, as listed to clients. `created`
/// is the creation time in milliseconds since the Unix epoch.
#[derive(Clone, Debug)]
pub struct PendingGame {
    pub id: String,
    pub white_player_name: String,
    pub created: i64,
}

/// The packets of the TCP protocol.
#[derive(Clone, Debug)]
pub enum Packet {
    /// Sent on client start.
    LoginRequest(String),
    /// The client's active game, if any.
    LoginResponse(Option<WebGame>),
    PendingListRequest,
    PendingListResponse(Vec<PendingGame>),
    CreateGameRequest,
    /// The new game's id, if one could be created.
    CreateGameResponse(Option<String>),
    JoinGameRequest(String),
    /// Whether joining worked (false: invalid or already joined).
    JoinGameResponse(String, bool),
    PollGameRequest(String),
    PollGameResponse(NetGameState),
    /// Whether a pending game is still pending.
    PollPendingGameRequest(String),
    PollPendingGameResponse(PendingGameState),
    /// Sent by the server when a game changes.
    GameUpdateCommand(WebGame, Option<crate::engine::types::CrownfallTurnResult>),
    PerformActionRequest(String, crate::engine::types::CrownfallPlayerAction),
    PerformActionResponse(PerformActionState),
    /// The client has left a game.
    LeaveGame(String),
}

} // verus!
