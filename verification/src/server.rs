//! The authoritative server: connection handshake with gap-filling id
//! assignment, inbound command application, fixed-tick movement
//! integration, and the changed-entity replication batch.

use vstd::prelude::*;
use vstd::seq_lib::*;
use vstd::set_lib::*;

use crate::game::Player;
use crate::game::PlayerInput;
use crate::game::player_valid;
use crate::game::input_clamped;
use crate::game::clamp_axis;
use crate::game::clamp_axis_spec;
use crate::game::create_random_player;
use crate::game::POS_MAX_X;
use crate::game::POS_MAX_Y;
use crate::game::step_coord;
use crate::codec::NetworkMessages;
use crate::codec::msg_bytes;
use crate::codec::encode_message;
use crate::codec::encode_message_vec;

verus! {

/// One live entry of the server's canonical list: the authoritative
/// player, its stored input, and whether the player moved since the last
/// replication batch.
#[derive(PartialEq, Eq, Structural, Clone, Copy, Debug)]
pub struct ServerPlayerInfo {
    pub player: Player,
    pub input: PlayerInput,
    pub changed: bool,
}

/// The authoritative server state: the canonical player list, the ids of
/// the live connections, the tick-timer accumulator, and the runtime
/// toggle for movement integration.
pub struct ServerState {
    pub players: Vec<ServerPlayerInfo>,
    pub connections: Vec<u32>,
    pub timer_micros: u64,
    pub update_with_tick: bool,
}

/// The ids of a player list, in order.
pub open spec fn player_ids(ps: Seq<ServerPlayerInfo>) -> Seq<u32> {
    ps.map_values(|sp: ServerPlayerInfo| sp.player.id)
}

/// A live entry is well formed: the player is in bounds, its stored input
/// is clamped and belongs to it.
pub open spec fn info_valid(sp: ServerPlayerInfo) -> bool {
    &&& player_valid(sp.player)
    &&& input_clamped(sp.input)
    &&& sp.input.id == sp.player.id
}

/// The input a player starts with: both axes zero.
pub open spec fn zero_input(id: u32) -> PlayerInput {
    PlayerInput { id, cur_sequence_id: 0, up_down: 0, left_right: 0 }
}

impl ServerState {
    /// Well-formedness: every live entry is valid, live player ids are
    /// unique, and live connection ids are unique.
    pub open spec fn wf(self) -> bool {
        &&& forall|i: int|
            0 <= i < self.players@.len() ==> info_valid(#[trigger] self.players@[i])
        &&& player_ids(self.players@).no_duplicates()
        &&& self.connections@.no_duplicates()
    }

    /// An id is in use when a live connection or a live player holds it.
    pub open spec fn id_in_use(self, id: u32) -> bool {
        self.connections@.contains(id) || player_ids(self.players@).contains(id)
    }

    /// A fresh server: no players, no connections, integration on.
    pub fn new() -> (s: ServerState)
        ensures
            s.wf(),
            s.players@.len() == 0,
            s.connections@.len() == 0,
            s.timer_micros == 0,
            s.update_with_tick,
    {
        let s = ServerState {
            players: Vec::new(),
            connections: Vec::new(),
            timer_micros: 0,
            update_with_tick: true,
        };
        proof {
            assert(player_ids(s.players@) =~= Seq::<u32>::empty());
        }
        s
    }

    fn id_used(&self, id: u32) -> (b: bool)
        ensures
            b == self.id_in_use(id),
    {
        let mut i: usize = 0;
        while i < self.connections.len()
            invariant
                i <= self.connections.len(),
                forall|j: int| 0 <= j < i ==> self.connections@[j] != id,
            decreases self.connections.len() - i,
        {
            if self.connections[i] == id {
                return true;
            }
            i = i + 1;
        }
        let mut k: usize = 0;
        while k < self.players.len()
            invariant
                k <= self.players.len(),
                forall|j: int| 0 <= j < k ==> self.players@[j].player.id != id,
            decreases self.players.len() - k,
        {
            if self.players[k].player.id == id {
                proof {
                    assert(player_ids(self.players@)[k as int] == id);
                }
                return true;
            }
            k = k + 1;
        }
        proof {
            assert(forall|j: int|
                0 <= j < self.players@.len() ==> player_ids(self.players@)[j] == self.players@[
                    j
                ].player.id);
        }
        false
    }

    proof fn lemma_used_ids_bound(self, k: u32)
        requires
            forall|j: u32| j <= k ==> self.id_in_use(j),
        ensures
            k < self.connections@.len() + self.players@.len(),
    {
        broadcast use vstd::seq_lib::seq_to_set_is_finite;
        broadcast use vstd::set::group_set_axioms;

        let ids = self.connections@ + player_ids(self.players@);
        assert forall|j: u32| j <= k implies ids.contains(j) by {
            assert(self.id_in_use(j));
            if self.connections@.contains(j) {
                let idx = choose|idx: int|
                    0 <= idx < self.connections@.len() && self.connections@[idx] == j;
                assert(ids[idx] == j);
            } else {
                let pid = player_ids(self.players@);
                let idx = choose|idx: int| 0 <= idx < pid.len() && pid[idx] == j;
                assert(ids[self.connections@.len() + idx] == j);
            }
        }
        let s = ids.to_set();
        ids.lemma_cardinality_of_set();
        lemma_all_below_in_set(k, s);
    }

    /// The lowest id held by no live connection and no live player: ids
    /// freed by a disconnection are reused by the next accepted
    /// connection (linear scan with gap fill).
    pub fn alloc_player_id(&self) -> (id: u32)
        requires
            self.players@.len() + self.connections@.len() < u32::MAX,
        ensures
            !self.id_in_use(id),
            forall|j: u32| j < id ==> self.id_in_use(j),
    {
        let mut id: u32 = 0;
        loop
            invariant_except_break
                id as int <= self.connections@.len() + self.players@.len(),
                self.players@.len() + self.connections@.len() < u32::MAX,
                forall|j: u32| j < id ==> self.id_in_use(j),
            ensures
                !self.id_in_use(id),
                forall|j: u32| j < id ==> self.id_in_use(j),
            decreases self.connections@.len() + self.players@.len() - id,
        {
            if !self.id_used(id) {
                break;
            }
            proof {
                self.lemma_used_ids_bound(id);
            }
            id = id + 1;
        }
        id
    }
}

/// The handshake batch for a newly accepted socket: one `AddPlayer`
/// message for each already-live player, in list order.
pub open spec fn add_player_batch(ps: Seq<ServerPlayerInfo>) -> Seq<u8>
    decreases ps.len(),
{
    if ps.len() == 0 {
        Seq::empty()
    } else {
        add_player_batch(ps.drop_last()) + msg_bytes(NetworkMessages::AddPlayer(ps.last().player))
    }
}

/// What accepting one connection produced: the new player, the bytes owed
/// to the new socket, the bytes owed to every pre-existing connection,
/// and the ids of those connections.
pub struct HandshakeResult {
    pub new_player: Player,
    pub to_new: Vec<u8>,
    pub to_others: Vec<u8>,
    pub others: Vec<u32>,
}

proof fn lemma_push_keeps_no_duplicates(s: Seq<u32>, x: u32)
    requires
        s.no_duplicates(),
        !s.contains(x),
    ensures
        s.push(x).no_duplicates(),
{
}

impl ServerState {
    /// Accept one new connection: assign the lowest unused id, spawn a
    /// random player under it, and compute the handshake. The new socket
    /// is owed `AddLocal` for itself followed by `AddPlayer` for every
    /// pre-existing player (never its own id); every pre-existing
    /// connection is owed one `AddPlayer` for the newcomer.
    pub fn handle_new_connection(&mut self) -> (r: HandshakeResult)
        requires
            old(self).wf(),
            old(self).players@.len() + old(self).connections@.len() < u32::MAX,
        ensures
            final(self).wf(),
            !old(self).id_in_use(r.new_player.id),
            forall|j: u32| j < r.new_player.id ==> old(self).id_in_use(j),
            r.new_player.cur_sequence_id == 0,
            player_valid(r.new_player),
            final(self).players@ == old(self).players@.push(
                ServerPlayerInfo {
                    player: r.new_player,
                    input: zero_input(r.new_player.id),
                    changed: false,
                },
            ),
            final(self).connections@ == old(self).connections@.push(r.new_player.id),
            final(self).timer_micros == old(self).timer_micros,
            final(self).update_with_tick == old(self).update_with_tick,
            r.to_new@ == msg_bytes(NetworkMessages::AddLocal(r.new_player)) + add_player_batch(
                old(self).players@,
            ),
            r.to_others@ == msg_bytes(NetworkMessages::AddPlayer(r.new_player)),
            r.others@ == old(self).connections@,
    {
        let id = self.alloc_player_id();
        let new_player = create_random_player(id);
        let mut to_new = encode_message_vec(&NetworkMessages::AddLocal(new_player));
        let ghost base = msg_bytes(NetworkMessages::AddLocal(new_player));
        let mut i: usize = 0;
        while i < self.players.len()
            invariant
                i <= self.players@.len(),
                to_new@ == base + add_player_batch(self.players@.take(i as int)),
            decreases self.players@.len() - i,
        {
            let entry = self.players[i];
            encode_message(&mut to_new, &NetworkMessages::AddPlayer(entry.player));
            proof {
                let taken = self.players@.take(i + 1);
                assert(taken.drop_last() =~= self.players@.take(i as int));
                assert(taken.last() == self.players@[i as int]);
                assert(to_new@ =~= base + add_player_batch(taken));
            }
            i = i + 1;
        }
        proof {
            assert(self.players@.take(self.players@.len() as int) =~= self.players@);
        }
        let to_others = encode_message_vec(&NetworkMessages::AddPlayer(new_player));
        let mut others: Vec<u32> = Vec::new();
        let mut c: usize = 0;
        while c < self.connections.len()
            invariant
                c <= self.connections@.len(),
                others@ == self.connections@.take(c as int),
            decreases self.connections@.len() - c,
        {
            let conn = self.connections[c];
            others.push(conn);
            proof {
                assert(others@ =~= self.connections@.take(c + 1));
            }
            c = c + 1;
        }
        proof {
            assert(self.connections@.take(self.connections@.len() as int) =~= self.connections@);
        }
        let info = ServerPlayerInfo {
            player: new_player,
            input: PlayerInput { id, cur_sequence_id: 0, up_down: 0, left_right: 0 },
            changed: false,
        };
        proof {
            let pid = player_ids(self.players@);
            assert(player_ids(self.players@.push(info)) =~= pid.push(id));
            lemma_push_keeps_no_duplicates(pid, id);
            lemma_push_keeps_no_duplicates(self.connections@, id);
        }
        self.players.push(info);
        self.connections.push(id);
        HandshakeResult { new_player, to_new, to_others, others }
    }
}

/// A stored input after a command is applied to it: the axes clamped,
/// the sequence number recorded, the owner unchanged.
pub open spec fn with_input(sp: ServerPlayerInfo, inp: PlayerInput) -> ServerPlayerInfo {
    ServerPlayerInfo {
        player: sp.player,
        input: PlayerInput {
            id: sp.input.id,
            cur_sequence_id: inp.cur_sequence_id,
            up_down: clamp_axis_spec(inp.up_down),
            left_right: clamp_axis_spec(inp.left_right),
        },
        changed: sp.changed,
    }
}

/// The player list with the first entry of the given id removed, if any.
pub open spec fn remove_player_spec(ps: Seq<ServerPlayerInfo>, id: u32) -> Seq<ServerPlayerInfo>
    decreases ps.len(),
{
    if ps.len() == 0 {
        ps
    } else if ps[0].player.id == id {
        ps.skip(1)
    } else {
        seq![ps[0]] + remove_player_spec(ps.skip(1), id)
    }
}

/// The connection list with the first entry equal to the given id
/// removed, if any.
pub open spec fn remove_conn_spec(cs: Seq<u32>, id: u32) -> Seq<u32>
    decreases cs.len(),
{
    if cs.len() == 0 {
        cs
    } else if cs[0] == id {
        cs.skip(1)
    } else {
        seq![cs[0]] + remove_conn_spec(cs.skip(1), id)
    }
}

/// The player list after one inbound message: a movement command updates
/// the stored input of the named player wherever it stands, a removal
/// deletes the named player, and everything else is a protocol violation
/// that changes nothing.
pub open spec fn apply_players(ps: Seq<ServerPlayerInfo>, m: NetworkMessages) -> Seq<
    ServerPlayerInfo,
> {
    match m {
        NetworkMessages::ClientInputChange(inp) => ps.map_values(
            |sp: ServerPlayerInfo|
                if sp.player.id == inp.id {
                    with_input(sp, inp)
                } else {
                    sp
                },
        ),
        NetworkMessages::RemovePlayer { id } => remove_player_spec(ps, id),
        _ => ps,
    }
}

/// The connection list after one inbound message: only a removal touches
/// it.
pub open spec fn apply_conns(cs: Seq<u32>, m: NetworkMessages) -> Seq<u32> {
    match m {
        NetworkMessages::RemovePlayer { id } => remove_conn_spec(cs, id),
        _ => cs,
    }
}

/// The bytes owed to every remaining connection after one inbound
/// message: a removal is echoed to all of them, nothing else is.
pub open spec fn apply_out(m: NetworkMessages) -> Seq<u8> {
    match m {
        NetworkMessages::RemovePlayer { id } => msg_bytes(NetworkMessages::RemovePlayer { id }),
        _ => Seq::empty(),
    }
}

/// What applying one inbound message did.
pub enum ApplyOutcome {
    /// A movement command was stored for its player.
    InputStored,
    /// A movement command named a player that is not live.
    NoSuchPlayer,
    /// The named player and its connection were removed; `broadcast` is
    /// owed to every remaining connection, and the connection holding
    /// `id` is to be closed.
    Removed { id: u32, broadcast: Vec<u8> },
    /// A message that never arrives at a server legitimately; ignored.
    ProtocolViolation,
}

proof fn lemma_remove_first_player(ps: Seq<ServerPlayerInfo>, id: u32, i: int)
    requires
        0 <= i < ps.len(),
        ps[i].player.id == id,
        forall|j: int| 0 <= j < i ==> ps[j].player.id != id,
    ensures
        remove_player_spec(ps, id) == ps.remove(i),
    decreases i,
{
    if i == 0 {
        assert(ps.skip(1) =~= ps.remove(0));
    } else {
        lemma_remove_first_player(ps.skip(1), id, i - 1);
        assert(seq![ps[0]] + ps.skip(1).remove(i - 1) =~= ps.remove(i));
    }
}

proof fn lemma_remove_none_player(ps: Seq<ServerPlayerInfo>, id: u32)
    requires
        forall|j: int| 0 <= j < ps.len() ==> ps[j].player.id != id,
    ensures
        remove_player_spec(ps, id) == ps,
    decreases ps.len(),
{
    if ps.len() > 0 {
        lemma_remove_none_player(ps.skip(1), id);
        assert(seq![ps[0]] + ps.skip(1) =~= ps);
    }
}

proof fn lemma_remove_first_conn(cs: Seq<u32>, id: u32, i: int)
    requires
        0 <= i < cs.len(),
        cs[i] == id,
        forall|j: int| 0 <= j < i ==> cs[j] != id,
    ensures
        remove_conn_spec(cs, id) == cs.remove(i),
    decreases i,
{
    if i == 0 {
        assert(cs.skip(1) =~= cs.remove(0));
    } else {
        lemma_remove_first_conn(cs.skip(1), id, i - 1);
        assert(seq![cs[0]] + cs.skip(1).remove(i - 1) =~= cs.remove(i));
    }
}

proof fn lemma_remove_none_conn(cs: Seq<u32>, id: u32)
    requires
        forall|j: int| 0 <= j < cs.len() ==> cs[j] != id,
    ensures
        remove_conn_spec(cs, id) == cs,
    decreases cs.len(),
{
    if cs.len() > 0 {
        lemma_remove_none_conn(cs.skip(1), id);
        assert(seq![cs[0]] + cs.skip(1) =~= cs);
    }
}

proof fn lemma_remove_keeps_no_duplicates(s: Seq<u32>, i: int)
    requires
        s.no_duplicates(),
        0 <= i < s.len(),
    ensures
        s.remove(i).no_duplicates(),
{
    let r = s.remove(i);
    assert forall|a: int, b: int|
        0 <= a < r.len() && 0 <= b < r.len() && a != b implies r[a] != r[b] by {
        let a2 = if a < i { a } else { a + 1 };
        let b2 = if b < i { b } else { b + 1 };
        assert(r[a] == s[a2]);
        assert(r[b] == s[b2]);
    }
}

impl ServerState {
    fn find_player_index(&self, id: u32) -> (r: Option<usize>)
        ensures
            match r {
                Some(i) => i < self.players@.len() && self.players@[i as int].player.id == id
                    && forall|j: int| 0 <= j < i ==> self.players@[j].player.id != id,
                None => forall|j: int|
                    0 <= j < self.players@.len() ==> self.players@[j].player.id != id,
            },
    {
        let mut i: usize = 0;
        while i < self.players.len()
            invariant
                i <= self.players@.len(),
                forall|j: int| 0 <= j < i ==> self.players@[j].player.id != id,
            decreases self.players@.len() - i,
        {
            if self.players[i].player.id == id {
                return Some(i);
            }
            i = i + 1;
        }
        None
    }

    fn find_conn_index(&self, id: u32) -> (r: Option<usize>)
        ensures
            match r {
                Some(i) => i < self.connections@.len() && self.connections@[i as int] == id
                    && forall|j: int| 0 <= j < i ==> self.connections@[j] != id,
                None => forall|j: int|
                    0 <= j < self.connections@.len() ==> self.connections@[j] != id,
            },
    {
        let mut i: usize = 0;
        while i < self.connections.len()
            invariant
                i <= self.connections@.len(),
                forall|j: int| 0 <= j < i ==> self.connections@[j] != id,
            decreases self.connections@.len() - i,
        {
            if self.connections[i] == id {
                return Some(i);
            }
            i = i + 1;
        }
        None
    }

    /// Apply one inbound message to the authoritative state. A movement
    /// command stores its clamped axes and its sequence number under the
    /// named player; a removal deletes the named player and connection
    /// and yields the broadcast owed to the remaining connections; any
    /// other variant is a protocol violation and changes nothing.
    pub fn apply_message(&mut self, msg: &NetworkMessages) -> (r: ApplyOutcome)
        requires
            old(self).wf(),
        ensures
            final(self).wf(),
            final(self).players@ == apply_players(old(self).players@, *msg),
            final(self).connections@ == apply_conns(old(self).connections@, *msg),
            final(self).timer_micros == old(self).timer_micros,
            final(self).update_with_tick == old(self).update_with_tick,
            match *msg {
                NetworkMessages::ClientInputChange(inp) => (r is InputStored || r
                    is NoSuchPlayer) && (r is InputStored <==> player_ids(
                    old(self).players@,
                ).contains(inp.id)),
                NetworkMessages::RemovePlayer { id } => r matches ApplyOutcome::Removed {
                    id: rid,
                    broadcast,
                } && rid == id && broadcast@ == msg_bytes(NetworkMessages::RemovePlayer { id }),
                _ => r is ProtocolViolation,
            },
    {
        match msg {
            NetworkMessages::ClientInputChange(inp) => {
                let found = self.find_player_index(inp.id);
                match found {
                    Some(i) => {
                        let entry = self.players[i];
                        let updated = ServerPlayerInfo {
                            player: entry.player,
                            input: PlayerInput {
                                id: entry.input.id,
                                cur_sequence_id: inp.cur_sequence_id,
                                up_down: clamp_axis(inp.up_down),
                                left_right: clamp_axis(inp.left_right),
                            },
                            changed: entry.changed,
                        };
                        self.players.set(i, updated);
                        proof {
                            let ps = old(self).players@;
                            assert forall|j: int| 0 <= j < ps.len() && j != i implies ps[j].player.id
                                != inp.id by {
                                assert(player_ids(ps)[j] == ps[j].player.id);
                                assert(player_ids(ps)[i as int] == inp.id);
                            }
                            assert(self.players@ =~= apply_players(ps, *msg));
                            assert(player_ids(self.players@) =~= player_ids(ps));
                            assert(player_ids(ps).contains(inp.id)) by {
                                assert(player_ids(ps)[i as int] == inp.id);
                            }
                        }
                        ApplyOutcome::InputStored
                    },
                    None => {
                        proof {
                            let ps = self.players@;
                            assert(self.players@ =~= apply_players(ps, *msg));
                            if player_ids(ps).contains(inp.id) {
                                let j = choose|j: int|
                                    0 <= j < player_ids(ps).len() && player_ids(ps)[j] == inp.id;
                                assert(ps[j].player.id == inp.id);
                            }
                        }
                        ApplyOutcome::NoSuchPlayer
                    },
                }
            },
            NetworkMessages::RemovePlayer { id } => {
                let found = self.find_player_index(*id);
                match found {
                    Some(i) => {
                        proof {
                            lemma_remove_first_player(self.players@, *id, i as int);
                            assert(player_ids(self.players@.remove(i as int)) =~= player_ids(
                                self.players@,
                            ).remove(i as int));
                            lemma_remove_keeps_no_duplicates(player_ids(self.players@), i as int);
                        }
                        self.players.remove(i);
                    },
                    None => {
                        proof {
                            lemma_remove_none_player(self.players@, *id);
                        }
                    },
                }
                let cfound = self.find_conn_index(*id);
                match cfound {
                    Some(c) => {
                        proof {
                            lemma_remove_first_conn(self.connections@, *id, c as int);
                            lemma_remove_keeps_no_duplicates(self.connections@, c as int);
                        }
                        self.connections.remove(c);
                    },
                    None => {
                        proof {
                            lemma_remove_none_conn(self.connections@, *id);
                        }
                    },
                }
                let broadcast = encode_message_vec(&NetworkMessages::RemovePlayer { id: *id });
                ApplyOutcome::Removed { id: *id, broadcast }
            },
            _ => { ApplyOutcome::ProtocolViolation },
        }
    }
}

/// One tick of movement for one live entry: a non-zero stored input
/// marks the entry changed and advances the player's sequence number to
/// the input's; either way the position is integrated and clamped.
pub open spec fn integrate_info(sp: ServerPlayerInfo) -> ServerPlayerInfo {
    let moved = sp.input.left_right != 0 || sp.input.up_down != 0;
    ServerPlayerInfo {
        player: Player {
            id: sp.player.id,
            cur_sequence_id: if moved {
                sp.input.cur_sequence_id
            } else {
                sp.player.cur_sequence_id
            },
            pos_x: step_coord(sp.player.pos_x, sp.input.left_right, POS_MAX_X),
            pos_y: step_coord(sp.player.pos_y, sp.input.up_down, POS_MAX_Y),
            col_r: sp.player.col_r,
            col_g: sp.player.col_g,
            col_b: sp.player.col_b,
            col_a: sp.player.col_a,
        },
        input: sp.input,
        changed: sp.changed || moved,
    }
}

/// An entry with its changed mark cleared.
pub open spec fn clear_changed(sp: ServerPlayerInfo) -> ServerPlayerInfo {
    ServerPlayerInfo { player: sp.player, input: sp.input, changed: false }
}

/// The replication batch: one `Position` message for each entry marked
/// changed, concatenated in list order.
pub open spec fn changed_batch(ps: Seq<ServerPlayerInfo>) -> Seq<u8>
    decreases ps.len(),
{
    if ps.len() == 0 {
        Seq::empty()
    } else {
        changed_batch(ps.drop_last()) + (if ps.last().changed {
            msg_bytes(NetworkMessages::Position(ps.last().player))
        } else {
            Seq::empty()
        })
    }
}

/// The player list after a run of inbound messages, applied in order.
pub open spec fn apply_players_all(ps: Seq<ServerPlayerInfo>, ms: Seq<NetworkMessages>) -> Seq<
    ServerPlayerInfo,
>
    decreases ms.len(),
{
    if ms.len() == 0 {
        ps
    } else {
        apply_players(apply_players_all(ps, ms.drop_last()), ms.last())
    }
}

/// The connection list after a run of inbound messages, applied in order.
pub open spec fn apply_conns_all(cs: Seq<u32>, ms: Seq<NetworkMessages>) -> Seq<u32>
    decreases ms.len(),
{
    if ms.len() == 0 {
        cs
    } else {
        apply_conns(apply_conns_all(cs, ms.drop_last()), ms.last())
    }
}

/// The removal broadcasts owed after a run of inbound messages, in order.
pub open spec fn removals_out(ms: Seq<NetworkMessages>) -> Seq<u8>
    decreases ms.len(),
{
    if ms.len() == 0 {
        Seq::empty()
    } else {
        removals_out(ms.drop_last()) + apply_out(ms.last())
    }
}

/// The connection ids closed by a run of inbound messages, in order.
pub open spec fn removed_ids(ms: Seq<NetworkMessages>) -> Seq<u32>
    decreases ms.len(),
{
    if ms.len() == 0 {
        Seq::empty()
    } else {
        removed_ids(ms.drop_last()) + (match ms.last() {
            NetworkMessages::RemovePlayer { id } => seq![id],
            _ => Seq::empty(),
        })
    }
}

/// What one simulation tick produced for the sockets: the connection ids
/// to close, the removal broadcasts, and the changed-position batch, the
/// latter two owed to every remaining live connection.
pub struct TickOutcome {
    pub closed: Vec<u32>,
    pub removals: Vec<u8>,
    pub batch: Vec<u8>,
}

impl ServerState {
    /// Integrate one tick of movement for every live player: entries with
    /// a non-zero stored input are marked changed and take the input's
    /// sequence number; every position is stepped and clamped in bounds.
    pub fn update_every_positions(&mut self)
        requires
            old(self).wf(),
        ensures
            final(self).wf(),
            final(self).players@ == old(self).players@.map_values(
                |sp: ServerPlayerInfo| integrate_info(sp),
            ),
            final(self).connections@ == old(self).connections@,
            final(self).timer_micros == old(self).timer_micros,
            final(self).update_with_tick == old(self).update_with_tick,
    {
        let ghost orig = self.players@;
        let mut i: usize = 0;
        while i < self.players.len()
            invariant
                i <= orig.len(),
                self.players@.len() == orig.len(),
                forall|j: int| 0 <= j < orig.len() ==> info_valid(#[trigger] orig[j]),
                forall|j: int| 0 <= j < i ==> self.players@[j] == integrate_info(#[trigger] orig[j]),
                forall|j: int| i <= j < orig.len() ==> self.players@[j] == #[trigger] orig[j],
                self.connections@ == old(self).connections@,
                self.timer_micros == old(self).timer_micros,
                self.update_with_tick == old(self).update_with_tick,
                old(self).wf(),
            decreases orig.len() - i,
        {
            let entry = self.players[i];
            let moved = entry.input.left_right != 0 || entry.input.up_down != 0;
            let mut new_player = entry.player;
            if moved {
                new_player.cur_sequence_id = entry.input.cur_sequence_id;
            }
            new_player.update(&entry.input);
            let new_entry = ServerPlayerInfo {
                player: new_player,
                input: entry.input,
                changed: entry.changed || moved,
            };
            proof {
                assert(new_entry == integrate_info(orig[i as int]));
            }
            self.players.set(i, new_entry);
            i = i + 1;
        }
        proof {
            assert(self.players@ =~= old(self).players@.map_values(
                |sp: ServerPlayerInfo| integrate_info(sp),
            ));
            assert(player_ids(self.players@) =~= player_ids(old(self).players@));
            assert forall|j: int| 0 <= j < self.players@.len() implies info_valid(
                #[trigger] self.players@[j],
            ) by {
                assert(info_valid(orig[j]));
            }
        }
    }

    /// Serialize one `Position` message for every entry marked changed,
    /// in list order, and clear the marks. The returned batch is owed to
    /// every live connection (if it is non-empty).
    pub fn send_all_changed_positions(&mut self) -> (batch: Vec<u8>)
        requires
            old(self).wf(),
        ensures
            final(self).wf(),
            final(self).players@ == old(self).players@.map_values(
                |sp: ServerPlayerInfo| clear_changed(sp),
            ),
            final(self).connections@ == old(self).connections@,
            final(self).timer_micros == old(self).timer_micros,
            final(self).update_with_tick == old(self).update_with_tick,
            batch@ == changed_batch(old(self).players@),
    {
        let ghost orig = self.players@;
        let mut batch: Vec<u8> = Vec::new();
        let mut i: usize = 0;
        while i < self.players.len()
            invariant
                i <= orig.len(),
                self.players@.len() == orig.len(),
                batch@ == changed_batch(orig.take(i as int)),
                forall|j: int| 0 <= j < orig.len() ==> info_valid(#[trigger] orig[j]),
                forall|j: int| 0 <= j < i ==> self.players@[j] == clear_changed(#[trigger] orig[j]),
                forall|j: int| i <= j < orig.len() ==> self.players@[j] == #[trigger] orig[j],
                self.connections@ == old(self).connections@,
                self.timer_micros == old(self).timer_micros,
                self.update_with_tick == old(self).update_with_tick,
                old(self).wf(),
            decreases orig.len() - i,
        {
            let entry = self.players[i];
            if entry.changed {
                encode_message(&mut batch, &NetworkMessages::Position(entry.player));
                let cleared = ServerPlayerInfo {
                    player: entry.player,
                    input: entry.input,
                    changed: false,
                };
                self.players.set(i, cleared);
            }
            proof {
                let t = orig.take(i + 1);
                assert(t.drop_last() =~= orig.take(i as int));
                assert(t.last() == orig[i as int]);
                assert(batch@ =~= changed_batch(t));
            }
            i = i + 1;
        }
        proof {
            assert(orig.take(orig.len() as int) =~= orig);
            assert(self.players@ =~= old(self).players@.map_values(
                |sp: ServerPlayerInfo| clear_changed(sp),
            ));
            assert(player_ids(self.players@) =~= player_ids(old(self).players@));
            assert forall|j: int| 0 <= j < self.players@.len() implies info_valid(
                #[trigger] self.players@[j],
            ) by {
                assert(info_valid(orig[j]));
            }
        }
        batch
    }

    /// Evict one connection that failed a write, found by the sweep. The
    /// player list is untouched: the player leaves only when its reader
    /// reports the disconnect.
    pub fn remove_connection(&mut self, conn_id: u32)
        requires
            old(self).wf(),
        ensures
            final(self).wf(),
            final(self).connections@ == remove_conn_spec(old(self).connections@, conn_id),
            final(self).players@ == old(self).players@,
            final(self).timer_micros == old(self).timer_micros,
            final(self).update_with_tick == old(self).update_with_tick,
    {
        let cfound = self.find_conn_index(conn_id);
        match cfound {
            Some(c) => {
                proof {
                    lemma_remove_first_conn(self.connections@, conn_id, c as int);
                    lemma_remove_keeps_no_duplicates(self.connections@, c as int);
                }
                self.connections.remove(c);
            },
            None => {
                proof {
                    lemma_remove_none_conn(self.connections@, conn_id);
                }
            },
        }
    }

    /// One fixed simulation tick: apply every drained inbound message in
    /// order, integrate movement if the runtime toggle allows it, and
    /// build the changed-position batch. The caller owes `out.removals`
    /// and `out.batch` to every remaining live connection and closes the
    /// sockets named in `out.closed`.
    pub fn tick(&mut self, inbound: &Vec<NetworkMessages>) -> (out: TickOutcome)
        requires
            old(self).wf(),
        ensures
            final(self).wf(),
            final(self).connections@ == apply_conns_all(old(self).connections@, inbound@),
            ({
                let ps = apply_players_all(old(self).players@, inbound@);
                let integrated = if old(self).update_with_tick {
                    ps.map_values(|sp: ServerPlayerInfo| integrate_info(sp))
                } else {
                    ps
                };
                &&& final(self).players@ == integrated.map_values(
                    |sp: ServerPlayerInfo| clear_changed(sp),
                )
                &&& out.batch@ == changed_batch(integrated)
            }),
            out.removals@ == removals_out(inbound@),
            out.closed@ == removed_ids(inbound@),
            final(self).timer_micros == old(self).timer_micros,
            final(self).update_with_tick == old(self).update_with_tick,
    {
        let ghost ms = inbound@;
        let mut closed: Vec<u32> = Vec::new();
        let mut removals: Vec<u8> = Vec::new();
        let mut i: usize = 0;
        while i < inbound.len()
            invariant
                i <= ms.len(),
                inbound@ == ms,
                self.wf(),
                self.players@ == apply_players_all(old(self).players@, ms.take(i as int)),
                self.connections@ == apply_conns_all(old(self).connections@, ms.take(i as int)),
                removals@ == removals_out(ms.take(i as int)),
                closed@ == removed_ids(ms.take(i as int)),
                self.timer_micros == old(self).timer_micros,
                self.update_with_tick == old(self).update_with_tick,
            decreases ms.len() - i,
        {
            let m = inbound[i];
            let outcome = self.apply_message(&m);
            proof {
                let t = ms.take(i + 1);
                assert(t.drop_last() =~= ms.take(i as int));
                assert(t.last() == ms[i as int]);
            }
            match outcome {
                ApplyOutcome::Removed { id, broadcast } => {
                    closed.push(id);
                    let mut b = broadcast;
                    removals.append(&mut b);
                    proof {
                        assert(removals@ =~= removals_out(ms.take(i + 1)));
                        assert(closed@ =~= removed_ids(ms.take(i + 1)));
                    }
                },
                _ => {
                    proof {
                        assert(removals@ =~= removals_out(ms.take(i + 1)));
                        assert(closed@ =~= removed_ids(ms.take(i + 1)));
                    }
                },
            }
            i = i + 1;
        }
        proof {
            assert(ms.take(ms.len() as int) =~= ms);
        }
        if self.update_with_tick {
            self.update_every_positions();
        }
        let batch = self.send_all_changed_positions();
        TickOutcome { closed, removals, batch }
    }
}

/// Clamping invariant: every live player of a well-formed server state
/// lies inside the play-area bounds. Every server operation above both
/// requires and re-establishes well-formedness, so this holds after any
/// tick.
pub proof fn lemma_live_positions_in_bounds(s: ServerState, i: int)
    requires
        s.wf(),
        0 <= i < s.players@.len(),
    ensures
        s.players@[i].player.pos_x <= POS_MAX_X,
        s.players@[i].player.pos_y <= POS_MAX_Y,
{
    assert(info_valid(s.players@[i]));
}

/// Uniqueness of live ids: two distinct live entries of a well-formed
/// server state never share an id.
pub proof fn lemma_live_ids_unique(s: ServerState, i: int, j: int)
    requires
        s.wf(),
        0 <= i < s.players@.len(),
        0 <= j < s.players@.len(),
        i != j,
    ensures
        s.players@[i].player.id != s.players@[j].player.id,
{
    let pid = player_ids(s.players@);
    assert(pid[i] == s.players@[i].player.id);
    assert(pid[j] == s.players@[j].player.id);
}

/// Stored inputs are clamped: after any message application on a
/// well-formed state, every stored axis lies in `[-AXIS_MAX, AXIS_MAX]`,
/// whatever the wire carried.
pub proof fn lemma_stored_inputs_clamped(s: ServerState, i: int)
    requires
        s.wf(),
        0 <= i < s.players@.len(),
    ensures
        input_clamped(s.players@[i].input),
{
    assert(info_valid(s.players@[i]));
}

/// Reuse of freed ids: there is exactly one lowest free id, so when a
/// removal leaves `freed` unused while every smaller id is still held,
/// the id assigned by the next accepted connection (which
/// `handle_new_connection` guarantees is a lowest free id) can only be
/// `freed` itself.
pub proof fn lemma_lowest_free_id_is_unique(s: ServerState, a: u32, b: u32)
    requires
        !s.id_in_use(a),
        forall|j: u32| j < a ==> s.id_in_use(j),
        !s.id_in_use(b),
        forall|j: u32| j < b ==> s.id_in_use(j),
    ensures
        a == b,
{
    if a < b {
        assert(s.id_in_use(a));
    }
    if b < a {
        assert(s.id_in_use(b));
    }
}

/// A finite set holding every id up to and including `k` has more than
/// `k` elements.
proof fn lemma_all_below_in_set(k: u32, s: Set<u32>)
    requires
        s.finite(),
        forall|j: u32| j <= k ==> s.contains(j),
    ensures
        s.len() >= k + 1,
    decreases k,
{
    broadcast use vstd::set::group_set_axioms;

    let s2 = s.remove(k);
    if k > 0 {
        assert forall|j: u32| j <= k - 1 implies s2.contains(j) by {
            assert(s.contains(j));
        }
        lemma_all_below_in_set((k - 1) as u32, s2);
    }
}

} // verus!
