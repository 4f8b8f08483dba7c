//! The client: a local mirror of every replicated player, application of
//! server-pushed corrections, and dead-reckoning prediction of the local
//! player's own movement.

use vstd::prelude::*;

use crate::game::Player;
use crate::game::PlayerInput;
use crate::game::player_valid;
use crate::game::step_coord;
use crate::game::AXIS_MIN;
use crate::game::AXIS_MAX;
use crate::game::POS_MAX_X;
use crate::game::POS_MAX_Y;
use crate::codec::NetworkMessages;
use crate::codec::msg_valid;

verus! {

/// The client's state: the mirrored player list, the last input sent to
/// the server, the id the server assigned to this client (`u32::MAX`
/// until the handshake arrives), the tick-timer accumulator, and the
/// prediction toggle.
pub struct ClientState {
    pub all_players: Vec<Player>,
    pub last_input: PlayerInput,
    pub local_player_id: u32,
    pub timer_micros: u64,
    pub predict_movement: bool,
}

/// The first index holding a player with the given id, or -1.
pub open spec fn first_index_with_id(ps: Seq<Player>, id: u32) -> int
    decreases ps.len(),
{
    if ps.len() == 0 {
        -1
    } else if ps[0].id == id {
        0
    } else {
        let r = first_index_with_id(ps.skip(1), id);
        if r < 0 {
            -1
        } else {
            r + 1
        }
    }
}

/// A mirrored player with its position overwritten by an authoritative
/// push; everything else is kept.
pub open spec fn overwrite_pos(q: Player, p: Player) -> Player {
    Player {
        id: q.id,
        cur_sequence_id: q.cur_sequence_id,
        pos_x: p.pos_x,
        pos_y: p.pos_y,
        col_r: q.col_r,
        col_g: q.col_g,
        col_b: q.col_b,
        col_a: q.col_a,
    }
}

/// One tick of predicted movement for a mirrored player.
pub open spec fn predicted(q: Player, inp: PlayerInput) -> Player {
    Player {
        id: q.id,
        cur_sequence_id: q.cur_sequence_id,
        pos_x: step_coord(q.pos_x, inp.left_right, POS_MAX_X),
        pos_y: step_coord(q.pos_y, inp.up_down, POS_MAX_Y),
        col_r: q.col_r,
        col_g: q.col_g,
        col_b: q.col_b,
        col_a: q.col_a,
    }
}

/// The mirror after one inbound message: an add inserts the player, a
/// removal deletes the first entry of that id, an authoritative push
/// overwrites the first matching entry's position unconditionally —
/// including the local player's own prediction — and a movement command
/// is a protocol violation that changes nothing.
pub open spec fn client_apply_players(ps: Seq<Player>, m: NetworkMessages) -> Seq<Player> {
    match m {
        NetworkMessages::AddLocal(p) => ps.push(p),
        NetworkMessages::AddPlayer(p) => ps.push(p),
        NetworkMessages::RemovePlayer { id } => {
            let k = first_index_with_id(ps, id);
            if k >= 0 {
                ps.remove(k)
            } else {
                ps
            }
        },
        NetworkMessages::Position(p) => {
            let k = first_index_with_id(ps, p.id);
            if k >= 0 {
                ps.update(k, overwrite_pos(ps[k], p))
            } else {
                ps
            }
        },
        _ => ps,
    }
}

proof fn lemma_first_index_some(ps: Seq<Player>, id: u32, i: int)
    requires
        0 <= i < ps.len(),
        ps[i].id == id,
        forall|j: int| 0 <= j < i ==> ps[j].id != id,
    ensures
        first_index_with_id(ps, id) == i,
    decreases i,
{
    if i > 0 {
        lemma_first_index_some(ps.skip(1), id, i - 1);
    }
}

proof fn lemma_first_index_none(ps: Seq<Player>, id: u32)
    requires
        forall|j: int| 0 <= j < ps.len() ==> ps[j].id != id,
    ensures
        first_index_with_id(ps, id) == -1,
    decreases ps.len(),
{
    if ps.len() > 0 {
        lemma_first_index_none(ps.skip(1), id);
    }
}

impl ClientState {
    /// Every mirrored player lies inside the play-area bounds.
    pub open spec fn wf(self) -> bool {
        forall|i: int| 0 <= i < self.all_players@.len() ==> player_valid(#[trigger] self.all_players@[i])
    }

    /// A fresh client, before the handshake: no mirrored players, the
    /// local id still unassigned, prediction on, and a last input that
    /// belongs to nobody.
    pub fn new() -> (c: ClientState)
        ensures
            c.wf(),
            c.all_players@.len() == 0,
            c.local_player_id == u32::MAX,
            c.last_input == (PlayerInput {
                id: u32::MAX,
                cur_sequence_id: 0,
                up_down: 0,
                left_right: 0,
            }),
            c.timer_micros == 0,
            c.predict_movement,
    {
        ClientState {
            all_players: Vec::new(),
            last_input: PlayerInput { id: u32::MAX, cur_sequence_id: 0, up_down: 0, left_right: 0 },
            local_player_id: u32::MAX,
            timer_micros: 0,
            predict_movement: true,
        }
    }

    fn find_index(&self, id: u32) -> (r: Option<usize>)
        ensures
            match r {
                Some(i) => i < self.all_players@.len() && self.all_players@[i as int].id == id
                    && forall|j: int| 0 <= j < i ==> self.all_players@[j].id != id,
                None => forall|j: int|
                    0 <= j < self.all_players@.len() ==> self.all_players@[j].id != id,
            },
    {
        let mut i: usize = 0;
        while i < self.all_players.len()
            invariant
                i <= self.all_players@.len(),
                forall|j: int| 0 <= j < i ==> self.all_players@[j].id != id,
            decreases self.all_players@.len() - i,
        {
            if self.all_players[i].id == id {
                return Some(i);
            }
            i = i + 1;
        }
        None
    }

    /// Apply one server-pushed message to the mirror. `AddLocal` also
    /// records the local id; a movement command arriving at a client is
    /// a protocol violation and is ignored.
    pub fn apply_message(&mut self, msg: &NetworkMessages)
        requires
            old(self).wf(),
            msg_valid(*msg),
        ensures
            final(self).wf(),
            final(self).all_players@ == client_apply_players(old(self).all_players@, *msg),
            final(self).local_player_id == (match *msg {
                NetworkMessages::AddLocal(p) => p.id,
                _ => old(self).local_player_id,
            }),
            final(self).last_input == old(self).last_input,
            final(self).timer_micros == old(self).timer_micros,
            final(self).predict_movement == old(self).predict_movement,
    {
        match msg {
            NetworkMessages::AddLocal(p) => {
                self.all_players.push(*p);
                self.local_player_id = p.id;
            },
            NetworkMessages::AddPlayer(p) => {
                self.all_players.push(*p);
            },
            NetworkMessages::RemovePlayer { id } => {
                let found = self.find_index(*id);
                match found {
                    Some(i) => {
                        proof {
                            lemma_first_index_some(self.all_players@, *id, i as int);
                        }
                        self.all_players.remove(i);
                    },
                    None => {
                        proof {
                            lemma_first_index_none(self.all_players@, *id);
                        }
                    },
                }
            },
            NetworkMessages::Position(p) => {
                let found = self.find_index(p.id);
                match found {
                    Some(i) => {
                        proof {
                            lemma_first_index_some(self.all_players@, p.id, i as int);
                        }
                        let q = self.all_players[i];
                        let merged = Player {
                            id: q.id,
                            cur_sequence_id: q.cur_sequence_id,
                            pos_x: p.pos_x,
                            pos_y: p.pos_y,
                            col_r: q.col_r,
                            col_g: q.col_g,
                            col_b: q.col_b,
                            col_a: q.col_a,
                        };
                        self.all_players.set(i, merged);
                    },
                    None => {
                        proof {
                            lemma_first_index_none(self.all_players@, p.id);
                        }
                    },
                }
            },
            _ => {},
        }
    }

    /// One fixed prediction tick. The sampled key state arrives as one
    /// milli-unit value per axis. If it differs from the last input
    /// sent, the local player's sequence number advances, the new input
    /// is remembered and returned for transmission. If prediction is on,
    /// the local player's own position is then integrated with the same
    /// movement formula the server uses, ahead of any acknowledgment.
    pub fn tick(&mut self, left_right: i32, up_down: i32) -> (send: Option<PlayerInput>)
        requires
            old(self).wf(),
            AXIS_MIN <= left_right <= AXIS_MAX,
            AXIS_MIN <= up_down <= AXIS_MAX,
            forall|i: int|
                0 <= i < old(self).all_players@.len() ==> (#[trigger] old(
                    self,
                ).all_players@[i]).cur_sequence_id < u32::MAX,
        ensures
            final(self).wf(),
            ({
                let ps = old(self).all_players@;
                let k = first_index_with_id(ps, old(self).local_player_id);
                let changed = left_right != old(self).last_input.left_right || up_down != old(
                    self,
                ).last_input.up_down;
                let sent = changed && k >= 0;
                let inp = PlayerInput {
                    id: old(self).local_player_id,
                    cur_sequence_id: (ps[k].cur_sequence_id + 1) as u32,
                    up_down,
                    left_right,
                };
                let ps1 = if sent {
                    ps.update(
                        k,
                        Player {
                            id: ps[k].id,
                            cur_sequence_id: (ps[k].cur_sequence_id + 1) as u32,
                            pos_x: ps[k].pos_x,
                            pos_y: ps[k].pos_y,
                            col_r: ps[k].col_r,
                            col_g: ps[k].col_g,
                            col_b: ps[k].col_b,
                            col_a: ps[k].col_a,
                        },
                    )
                } else {
                    ps
                };
                let li = if sent {
                    inp
                } else {
                    old(self).last_input
                };
                let ps2 = if old(self).predict_movement {
                    ps1.map_values(
                        |q: Player|
                            if q.id == old(self).local_player_id {
                                predicted(q, li)
                            } else {
                                q
                            },
                    )
                } else {
                    ps1
                };
                &&& send == if sent {
                    Some(inp)
                } else {
                    Option::<PlayerInput>::None
                }
                &&& final(self).last_input == li
                &&& final(self).all_players@ == ps2
            }),
            final(self).local_player_id == old(self).local_player_id,
            final(self).timer_micros == old(self).timer_micros,
            final(self).predict_movement == old(self).predict_movement,
    {
        let changed = left_right != self.last_input.left_right || up_down
            != self.last_input.up_down;
        let mut send: Option<PlayerInput> = None;
        if changed {
            let found = self.find_index(self.local_player_id);
            match found {
                Some(i) => {
                    proof {
                        lemma_first_index_some(self.all_players@, self.local_player_id, i as int);
                    }
                    let q = self.all_players[i];
                    let bumped = Player {
                        id: q.id,
                        cur_sequence_id: q.cur_sequence_id + 1,
                        pos_x: q.pos_x,
                        pos_y: q.pos_y,
                        col_r: q.col_r,
                        col_g: q.col_g,
                        col_b: q.col_b,
                        col_a: q.col_a,
                    };
                    self.all_players.set(i, bumped);
                    let inp = PlayerInput {
                        id: q.id,
                        cur_sequence_id: q.cur_sequence_id + 1,
                        up_down,
                        left_right,
                    };
                    self.last_input = inp;
                    send = Some(inp);
                },
                None => {
                    proof {
                        lemma_first_index_none(self.all_players@, self.local_player_id);
                    }
                },
            }
        }
        let ghost ps1 = self.all_players@;
        let ghost li = self.last_input;
        if self.predict_movement {
            let mut i: usize = 0;
            while i < self.all_players.len()
                invariant
                    i <= ps1.len(),
                    self.all_players@.len() == ps1.len(),
                    self.last_input == li,
                    forall|j: int|
                        0 <= j < i ==> self.all_players@[j] == (if (#[trigger] ps1[j]).id
                            == self.local_player_id {
                            predicted(ps1[j], li)
                        } else {
                            ps1[j]
                        }),
                    forall|j: int| i <= j < ps1.len() ==> self.all_players@[j] == #[trigger] ps1[j],
                    self.local_player_id == old(self).local_player_id,
                    self.timer_micros == old(self).timer_micros,
                    self.predict_movement == old(self).predict_movement,
                decreases ps1.len() - i,
            {
                let q = self.all_players[i];
                if q.id == self.local_player_id {
                    let mut moved = q;
                    let inp = self.last_input;
                    moved.update(&inp);
                    self.all_players.set(i, moved);
                }
                i = i + 1;
            }
            proof {
                assert(self.all_players@ =~= ps1.map_values(
                    |q: Player|
                        if q.id == old(self).local_player_id {
                            predicted(q, li)
                        } else {
                            q
                        },
                ));
            }
        }
        proof {
            assert forall|j: int| 0 <= j < self.all_players@.len() implies player_valid(
                #[trigger] self.all_players@[j],
            ) by {
                assert(player_valid(old(self).all_players@[j]));
            }
        }
        send
    }
}

/// Clamping invariant, client side: every mirrored player of a
/// well-formed client lies inside the play-area bounds, prediction and
/// corrections included.
pub proof fn lemma_mirror_positions_in_bounds(c: ClientState, i: int)
    requires
        c.wf(),
        0 <= i < c.all_players@.len(),
    ensures
        c.all_players@[i].pos_x <= POS_MAX_X,
        c.all_players@[i].pos_y <= POS_MAX_Y,
{
}

} // verus!
