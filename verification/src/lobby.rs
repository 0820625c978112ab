//! The room registry of the server: rooms identified by six-digit codes,
//! one human per station, readiness flags, and the start of a mission.
//!
//! The registry is generic over `P`, the handle through which a player is
//! reached, and `G`, the handle of a running mission; it only keeps them.
use vstd::prelude::*;
use crate::crew::{all_roles, role_index, CrewRole};
use crate::keyed::{
    has_key, keyed, lemma_keyed_at, lemma_keyed_empty, lemma_keyed_len, lemma_keyed_push,
    lemma_keyed_remove, lemma_keyed_update, unique_keys,
};
use crate::protocol::{
    LobbyCommand, LobbyPhase, LobbySnapshot, PlayerId, ProtocolError, RoleOccupant, RoleSlot,
    RoomId, SessionId,
};
use crate::room_code::{
    is_room_code, lemma_room_code_injective, lemma_room_code_valid, room_code, room_code_text,
    valid_room_code,
};

verus! {

/// A player's seat as the registry records it.
pub struct PlayerSeat<P> {
    pub role: CrewRole,
    pub ready: bool,
    pub outbox: P,
}

/// A room as the registry records it; players are keyed by their id.
pub struct RoomState<P, G> {
    pub seed: u64,
    pub phase: LobbyPhase,
    pub players: Map<u64, PlayerSeat<P>>,
    pub game: Option<G>,
}

/// The registry: rooms keyed by their code, and the next numbers to hand out.
pub struct RegistryState<P, G> {
    pub rooms: Map<Seq<char>, RoomState<P, G>>,
    pub next_room: u64,
    pub next_session: u64,
    pub next_player: u64,
}

/// Some player of `room` holds `role`.
pub open spec fn role_held<P, G>(room: RoomState<P, G>, role: CrewRole) -> bool {
    exists|id: u64| #[trigger] room.players.contains_key(id) && room.players[id].role == role
}

/// Who is shown at `role`: the human who holds it, or a bot.
pub open spec fn occupant<P, G>(room: RoomState<P, G>, role: CrewRole) -> RoleOccupant {
    if role_held(room, role) {
        let id = choose|id: u64| #[trigger] room.players.contains_key(id) && room.players[id].role == role;
        RoleOccupant::Human { player_id: PlayerId(id), ready: room.players[id].ready }
    } else {
        RoleOccupant::Bot
    }
}

/// The slot shown for `role`.
pub open spec fn slot_for<P, G>(room: RoomState<P, G>, role: CrewRole) -> RoleSlot {
    RoleSlot { role, occupant: occupant(room, role) }
}

/// The room with one player, `id`, holding `role`, not yet ready.
pub open spec fn fresh_room<P, G>(seed: u64, id: u64, role: CrewRole, outbox: P) -> RoomState<P, G> {
    RoomState {
        seed,
        phase: LobbyPhase::Waiting,
        players: map![id => PlayerSeat { role, ready: false, outbox }],
        game: None,
    }
}

/// The error with which joining `code` as `role` is refused, if any.
pub open spec fn join_refusal<P, G>(reg: RegistryState<P, G>, code: Seq<char>, role: CrewRole) -> Option<ProtocolError> {
    if !is_room_code(code) {
        Some(ProtocolError::InvalidRoomCode)
    } else if !reg.rooms.contains_key(code) {
        Some(ProtocolError::RoomNotFound)
    } else if reg.rooms[code].phase != LobbyPhase::Waiting {
        Some(ProtocolError::RoomAlreadyStarted)
    } else if role_held(reg.rooms[code], role) {
        Some(ProtocolError::RoleAlreadyTaken(role))
    } else {
        None
    }
}

/// The registry after `id` joined the room `code` as `role`.
pub open spec fn after_join<P, G>(reg: RegistryState<P, G>, code: Seq<char>, role: CrewRole, outbox: P) -> RegistryState<P, G> {
    let room = reg.rooms[code];
    RegistryState {
        rooms: reg.rooms.insert(
            code,
            RoomState {
                players: room.players.insert(reg.next_player, PlayerSeat { role, ready: false, outbox }),
                ..room
            },
        ),
        next_session: (reg.next_session + 1) as u64,
        next_player: (reg.next_player + 1) as u64,
        ..reg
    }
}

/// The registry after a room was created for `role`.
pub open spec fn after_create<P, G>(reg: RegistryState<P, G>, role: CrewRole, outbox: P) -> RegistryState<P, G> {
    RegistryState {
        rooms: reg.rooms.insert(
            room_code_text(reg.next_room as nat),
            fresh_room(reg.next_room, reg.next_player, role, outbox),
        ),
        next_room: (reg.next_room + 1) as u64,
        next_session: (reg.next_session + 1) as u64,
        next_player: (reg.next_player + 1) as u64,
    }
}

/// The registry after `player` left the room `code`: a waiting room loses the
/// player, and a room left without players is closed.
pub open spec fn after_leave<P, G>(reg: RegistryState<P, G>, code: Seq<char>, player: u64) -> RegistryState<P, G> {
    if !reg.rooms.contains_key(code) {
        reg
    } else {
        let room = reg.rooms[code];
        let players = if room.phase == LobbyPhase::Waiting {
            room.players.remove(player)
        } else {
            room.players
        };
        if players == Map::<u64, PlayerSeat<P>>::empty() {
            RegistryState { rooms: reg.rooms.remove(code), ..reg }
        } else {
            RegistryState { rooms: reg.rooms.insert(code, RoomState { players, ..room }), ..reg }
        }
    }
}

struct PlayerEntry<P> {
    id: PlayerId,
    role: CrewRole,
    ready: bool,
    outbox: P,
}

struct Room<P, G> {
    id: RoomId,
    seed: u64,
    phase: LobbyPhase,
    players: Vec<PlayerEntry<P>>,
    game: Option<G>,
}

/// All rooms of a server process.
pub struct RoomRegistry<P, G> {
    rooms: Vec<Room<P, G>>,
    next_room: u64,
    next_session: u64,
    next_player: u64,
}

spec fn player_key<P>() -> spec_fn(PlayerEntry<P>) -> u64 {
    |e: PlayerEntry<P>| e.id.0
}

spec fn player_seat<P>() -> spec_fn(PlayerEntry<P>) -> PlayerSeat<P> {
    |e: PlayerEntry<P>| PlayerSeat { role: e.role, ready: e.ready, outbox: e.outbox }
}

spec fn players_map<P>(s: Seq<PlayerEntry<P>>) -> Map<u64, PlayerSeat<P>> {
    keyed(s, player_key(), player_seat())
}

spec fn room_state<P, G>(r: Room<P, G>) -> RoomState<P, G> {
    RoomState { seed: r.seed, phase: r.phase, players: players_map(r.players@), game: r.game }
}

spec fn room_key<P, G>() -> spec_fn(Room<P, G>) -> Seq<char> {
    |r: Room<P, G>| r.id.0@
}

spec fn room_view<P, G>() -> spec_fn(Room<P, G>) -> RoomState<P, G> {
    |r: Room<P, G>| room_state(r)
}

spec fn roles_unique<P>(s: Seq<PlayerEntry<P>>) -> bool {
    forall|i: int, j: int| 0 <= i < s.len() && 0 <= j < s.len() && i != j ==> (#[trigger] s[i]).role != (#[trigger] s[j]).role
}

spec fn room_wf<P, G>(r: Room<P, G>, next_room: u64, next_player: u64) -> bool {
    &&& unique_keys(r.players@, player_key())
    &&& roles_unique(r.players@)
    &&& r.players@.len() >= 1
    &&& r.id.0@ == room_code_text(r.seed as nat)
    &&& r.seed < next_room
    &&& (r.phase == LobbyPhase::Running) == r.game.is_some()
    &&& forall|i: int| 0 <= i < r.players@.len() ==> (#[trigger] r.players@[i]).id.0 < next_player
}

impl<P, G> View for RoomRegistry<P, G> {
    type V = RegistryState<P, G>;

    closed spec fn view(&self) -> RegistryState<P, G> {
        RegistryState {
            rooms: keyed(self.rooms@, room_key(), room_view()),
            next_room: self.next_room,
            next_session: self.next_session,
            next_player: self.next_player,
        }
    }
}

impl<P, G> RoomRegistry<P, G> {
    /// The registry's internal consistency.
    pub closed spec fn wf(&self) -> bool {
        &&& unique_keys(self.rooms@, room_key())
        &&& self.next_session == self.next_player
        &&& forall|i: int| 0 <= i < self.rooms@.len() ==> room_wf(#[trigger] self.rooms@[i], self.next_room, self.next_player)
    }

    /// An empty registry whose first room, session and player are numbered 1.
    pub fn new() -> (r: Self)
        ensures
            r.wf(),
            r@.rooms == Map::<Seq<char>, RoomState<P, G>>::empty(),
            r@.next_room == 1,
            r@.next_session == 1,
            r@.next_player == 1,
    {
        let r = RoomRegistry { rooms: Vec::new(), next_room: 1, next_session: 1, next_player: 1 };
        proof {
            lemma_keyed_empty::<Room<P, G>, Seq<char>, RoomState<P, G>>(room_key(), room_view());
        }
        r
    }
}

/// A room state read off a room is what the registry's view holds.
proof fn lemma_room_at<P, G>(rooms: Seq<Room<P, G>>, i: int)
    requires
        unique_keys(rooms, room_key()),
        0 <= i < rooms.len(),
    ensures
        keyed(rooms, room_key(), room_view()).contains_key(rooms[i].id.0@),
        keyed(rooms, room_key(), room_view())[rooms[i].id.0@] == room_state(rooms[i]),
{
    lemma_keyed_at(rooms, room_key(), room_view(), i);
}

/// Whether a role is held, read off the players' vector.
proof fn lemma_role_held<P, G>(r: Room<P, G>, role: CrewRole)
    requires
        unique_keys(r.players@, player_key()),
        roles_unique(r.players@),
    ensures
        role_held(room_state(r), role) <==> exists|i: int| 0 <= i < r.players@.len() && (#[trigger] r.players@[i]).role == role,
        forall|i: int| 0 <= i < r.players@.len() && (#[trigger] r.players@[i]).role == role ==>
            occupant(room_state(r), role) == (RoleOccupant::Human { player_id: r.players@[i].id, ready: r.players@[i].ready }),
{
    let s = r.players@;
    let m = players_map(s);
    if role_held(room_state(r), role) {
        let id = choose|id: u64| #[trigger] m.contains_key(id) && m[id].role == role;
        assert(has_key(s, player_key(), id));
        let j = choose|j: int| 0 <= j < s.len() && player_key::<P>()(#[trigger] s[j]) == id;
        lemma_keyed_at(s, player_key(), player_seat(), j);
        assert(s[j].role == role);
        assert forall|i: int| 0 <= i < s.len() && (#[trigger] s[i]).role == role implies occupant(room_state(r), role) == (RoleOccupant::Human { player_id: s[i].id, ready: s[i].ready }) by {
            assert(i == j);
        }
    }
    assert forall|i: int| 0 <= i < s.len() && (#[trigger] s[i]).role == role implies role_held(room_state(r), role) by {
        lemma_keyed_at(s, player_key(), player_seat(), i);
        assert(m.contains_key(s[i].id.0) && m[s[i].id.0].role == role);
    }
}

/// A fresh player id is no key of the players' map.
proof fn lemma_fresh_player<P, G>(r: Room<P, G>, next_room: u64, next_player: u64)
    requires
        room_wf(r, next_room, next_player),
    ensures
        !has_key(r.players@, player_key(), next_player),
        !room_state(r).players.contains_key(next_player),
{
    if has_key(r.players@, player_key(), next_player) {
        let j = choose|j: int| 0 <= j < r.players@.len() && player_key::<P>()(#[trigger] r.players@[j]) == next_player;
        assert(r.players@[j].id.0 < next_player);
    }
}

fn find_player<P>(players: &Vec<PlayerEntry<P>>, id: PlayerId) -> (r: Option<usize>)
    ensures
        match r {
            Some(i) => i < players@.len() && players@[i as int].id == id,
            None => !has_key(players@, player_key(), id.0),
        },
{
    let mut i: usize = 0;
    while i < players.len()
        invariant
            i <= players@.len(),
            forall|k: int| 0 <= k < i ==> (#[trigger] players@[k]).id.0 != id.0,
        decreases players.len() - i,
    {
        if players[i].id.0 == id.0 {
            return Some(i);
        }
        i = i + 1;
    }
    proof {
        if has_key(players@, player_key(), id.0) {
            let k = choose|k: int| 0 <= k < players@.len() && player_key::<P>()(#[trigger] players@[k]) == id.0;
            assert(players@[k].id.0 != id.0);
        }
    }
    None
}

fn role_holder<P>(players: &Vec<PlayerEntry<P>>, role: CrewRole) -> (r: Option<usize>)
    ensures
        match r {
            Some(i) => i < players@.len() && players@[i as int].role == role,
            None => forall|k: int| 0 <= k < players@.len() ==> (#[trigger] players@[k]).role != role,
        },
{
    let mut i: usize = 0;
    while i < players.len()
        invariant
            i <= players@.len(),
            forall|k: int| 0 <= k < i ==> (#[trigger] players@[k]).role != role,
        decreases players.len() - i,
    {
        if players[i].role == role {
            return Some(i);
        }
        i = i + 1;
    }
    None
}

impl<P, G> RoomRegistry<P, G> {
    fn find_room(&self, code: &String) -> (r: Option<usize>)
        ensures
            match r {
                Some(i) => i < self.rooms@.len() && self.rooms@[i as int].id.0@ == code@,
                None => !has_key(self.rooms@, room_key(), code@),
            },
    {
        let mut i: usize = 0;
        while i < self.rooms.len()
            invariant
                i <= self.rooms@.len(),
                forall|k: int| 0 <= k < i ==> (#[trigger] self.rooms@[k]).id.0@ != code@,
            decreases self.rooms.len() - i,
        {
            if self.rooms[i].id.0 == *code {
                return Some(i);
            }
            i = i + 1;
        }
        proof {
            if has_key(self.rooms@, room_key(), code@) {
                let k = choose|k: int| 0 <= k < self.rooms@.len() && room_key::<P, G>()(#[trigger] self.rooms@[k]) == code@;
                assert(self.rooms@[k].id.0@ != code@);
            }
        }
        None
    }

    fn allocate_identity(&mut self) -> (r: (SessionId, PlayerId))
        requires
            old(self).next_player < u64::MAX,
            old(self).next_session == old(self).next_player,
        ensures
            r == (SessionId(old(self).next_session), PlayerId(old(self).next_player)),
            final(self).next_session == old(self).next_session + 1,
            final(self).next_player == old(self).next_player + 1,
            final(self).next_room == old(self).next_room,
            final(self).rooms == old(self).rooms,
    {
        let session = SessionId(self.next_session);
        let player = PlayerId(self.next_player);
        self.next_session = self.next_session + 1;
        self.next_player = self.next_player + 1;
        (session, player)
    }

    /// Opens a new room, numbered by the next room number, with its creator
    /// at `role`; returns the room's code and the creator's session and
    /// player ids.
    pub fn create_room(&mut self, role: CrewRole, outbox: P) -> (r: (RoomId, SessionId, PlayerId))
        requires
            old(self).wf(),
            old(self)@.next_room < u64::MAX,
            old(self)@.next_player < u64::MAX,
        ensures
            final(self).wf(),
            final(self)@ == after_create(old(self)@, role, outbox),
            !old(self)@.rooms.contains_key(room_code_text(old(self)@.next_room as nat)),
            r.0.0@ == room_code_text(old(self)@.next_room as nat),
            r.1 == SessionId(old(self)@.next_session),
            r.2 == PlayerId(old(self)@.next_player),
    {
        let ghost old_rooms = self.rooms@;
        let ghost old_view = self@;
        let room_number = self.next_room;
        self.next_room = self.next_room + 1;
        let room_id = room_code(room_number);
        let (session_id, player_id) = self.allocate_identity();
        let mut players: Vec<PlayerEntry<P>> = Vec::new();
        let ghost seat = PlayerSeat { role, ready: false, outbox };
        players.push(PlayerEntry { id: player_id, role, ready: false, outbox });
        proof {
            lemma_keyed_empty::<PlayerEntry<P>, u64, PlayerSeat<P>>(player_key(), player_seat());
            assert(players@ =~= Seq::<PlayerEntry<P>>::empty().push(players@[0]));
            lemma_keyed_push(Seq::<PlayerEntry<P>>::empty(), player_key(), player_seat(), players@[0]);
            assert(players_map(players@) =~= map![player_id.0 => seat]);
        }
        let room = Room {
            id: RoomId(room_id.0.clone()),
            seed: room_number,
            phase: LobbyPhase::Waiting,
            players,
            game: None,
        };
        proof {
            let code = room_code_text(room_number as nat);
            if has_key(old_rooms, room_key(), code) {
                let k = choose|k: int| 0 <= k < old_rooms.len() && room_key::<P, G>()(#[trigger] old_rooms[k]) == code;
                assert(room_wf(old_rooms[k], room_number, player_id.0));
                lemma_room_code_injective(old_rooms[k].seed as nat, room_number as nat);
            }
            lemma_keyed_push(old_rooms, room_key(), room_view(), room);
            assert(room_state(room) == fresh_room::<P, G>(room_number, player_id.0, role, outbox));
        }
        self.rooms.push(room);
        proof {
            assert forall|i: int| 0 <= i < self.rooms@.len() implies room_wf(#[trigger] self.rooms@[i], self.next_room, self.next_player) by {
                if i < old_rooms.len() {
                    assert(self.rooms@[i] == old_rooms[i]);
                    assert(room_wf(old_rooms[i], old_view.next_room, old_view.next_player));
                }
            }
            assert(self@.rooms == after_create(old_view, role, outbox).rooms);
        }
        (room_id, session_id, player_id)
    }

    /// Seats a new player at `role` in the room `room_id`. Refused, in this
    /// order: a code that is not six digits, an unknown room, a room whose
    /// mission runs, a role already held.
    pub fn join_room(&mut self, room_id: &RoomId, role: CrewRole, outbox: P) -> (r: Result<(SessionId, PlayerId), ProtocolError>)
        requires
            old(self).wf(),
            join_refusal(old(self)@, room_id.0@, role) is None ==> old(self)@.next_player < u64::MAX,
        ensures
            final(self).wf(),
            match join_refusal(old(self)@, room_id.0@, role) {
                Some(e) => r == Err::<(SessionId, PlayerId), ProtocolError>(e) && final(self)@ == old(self)@,
                None => r == Ok::<(SessionId, PlayerId), ProtocolError>((SessionId(old(self)@.next_session), PlayerId(old(self)@.next_player)))
                    && final(self)@ == after_join(old(self)@, room_id.0@, role, outbox),
            },
    {
        let ghost old_rooms = self.rooms@;
        let ghost old_view = self@;
        if !valid_room_code(room_id.0.as_str()) {
            return Err(ProtocolError::InvalidRoomCode);
        }
        let i = match self.find_room(&room_id.0) {
            Some(i) => i,
            None => {
                return Err(ProtocolError::RoomNotFound);
            },
        };
        proof {
            lemma_room_at(old_rooms, i as int);
            lemma_role_held(old_rooms[i as int], role);
        }
        if self.rooms[i].phase != LobbyPhase::Waiting {
            return Err(ProtocolError::RoomAlreadyStarted);
        }
        if role_holder(&self.rooms[i].players, role).is_some() {
            return Err(ProtocolError::RoleAlreadyTaken(role));
        }
        let (session_id, player_id) = self.allocate_identity();
        let mut room = self.rooms.remove(i);
        let ghost old_room = room;
        let ghost seat = PlayerSeat { role, ready: false, outbox };
        proof {
            assert(room_wf(old_room, old_view.next_room, old_view.next_player));
            lemma_fresh_player(old_room, old_view.next_room, old_view.next_player);
        }
        room.players.push(PlayerEntry { id: player_id, role, ready: false, outbox });
        proof {
            lemma_keyed_push(old_room.players@, player_key(), player_seat(), room.players@.last());
            assert(room.players@ == old_room.players@.push(room.players@.last()));
            assert(room_state(room) == RoomState { players: room_state(old_room).players.insert(player_id.0, seat), ..room_state(old_room) });
            assert forall|a: int, b: int| 0 <= a < room.players@.len() && 0 <= b < room.players@.len() && a != b implies (#[trigger] room.players@[a]).role != (#[trigger] room.players@[b]).role by {
                if a < old_room.players@.len() && b < old_room.players@.len() {
                    assert(room.players@[a] == old_room.players@[a]);
                    assert(room.players@[b] == old_room.players@[b]);
                } else if a < old_room.players@.len() {
                    assert(room.players@[a] == old_room.players@[a]);
                } else {
                    assert(room.players@[b] == old_room.players@[b]);
                }
            }
            assert(room_wf(room, self.next_room, self.next_player)) by {
                assert forall|k: int| 0 <= k < room.players@.len() implies (#[trigger] room.players@[k]).id.0 < self.next_player by {
                    if k < old_room.players@.len() {
                        assert(room.players@[k] == old_room.players@[k]);
                    }
                }
            }
        }
        self.rooms.insert(i, room);
        proof {
            assert(self.rooms@ =~= old_rooms.update(i as int, room));
            lemma_keyed_update(old_rooms, room_key(), room_view(), i as int, room);
            assert forall|k: int| 0 <= k < self.rooms@.len() implies room_wf(#[trigger] self.rooms@[k], self.next_room, self.next_player) by {
                if k != i {
                    assert(self.rooms@[k] == old_rooms[k]);
                    assert(room_wf(old_rooms[k], old_view.next_room, old_view.next_player));
                }
            }
            assert(self@.rooms == after_join(old_view, room_id.0@, role, outbox).rooms);
        }
        Ok((session_id, player_id))
    }
}

/// The registry after `player` of room `code` set its readiness.
pub open spec fn after_ready<P, G>(reg: RegistryState<P, G>, code: Seq<char>, player: u64, ready: bool) -> RegistryState<P, G> {
    if reg.rooms.contains_key(code) && reg.rooms[code].players.contains_key(player) {
        let room = reg.rooms[code];
        let seat = room.players[player];
        RegistryState {
            rooms: reg.rooms.insert(
                code,
                RoomState { players: room.players.insert(player, PlayerSeat { ready, ..seat }), ..room },
            ),
            ..reg
        }
    } else {
        reg
    }
}

/// The error with which starting the room `code` is refused, if any.
pub open spec fn start_refusal<P, G>(reg: RegistryState<P, G>, code: Seq<char>) -> Option<ProtocolError> {
    if !reg.rooms.contains_key(code) {
        Some(ProtocolError::RoomNotFound)
    } else if reg.rooms[code].phase != LobbyPhase::Waiting {
        Some(ProtocolError::RoomAlreadyStarted)
    } else {
        None
    }
}

/// The registry after the mission of room `code` started with handle `game`.
pub open spec fn after_start<P, G>(reg: RegistryState<P, G>, code: Seq<char>, game: G) -> RegistryState<P, G> {
    let room = reg.rooms[code];
    RegistryState {
        rooms: reg.rooms.insert(code, RoomState { phase: LobbyPhase::Running, game: Some(game), ..room }),
        ..reg
    }
}

impl<P, G> RoomRegistry<P, G> {
    /// What the members of room `room_id` see of the lobby: the room's code,
    /// its phase, and one slot per role in station order, held by its human
    /// or else by a bot; `None` for an unknown room.
    pub fn snapshot(&self, room_id: &RoomId) -> (r: Option<LobbySnapshot>)
        requires
            self.wf(),
        ensures
            r is None <==> !self@.rooms.contains_key(room_id.0@),
            r matches Some(snap) ==> {
                let room = self@.rooms[room_id.0@];
                &&& snap.room_id.0@ == room_id.0@
                &&& snap.phase == room.phase
                &&& snap.slots@.len() == 5
                &&& forall|k: int| 0 <= k < 5 ==> #[trigger] snap.slots@[k] == slot_for(room, all_roles()[k])
            },
    {
        let i = match self.find_room(&room_id.0) {
            Some(i) => i,
            None => {
                return None;
            },
        };
        let room = &self.rooms[i];
        proof {
            lemma_room_at(self.rooms@, i as int);
            assert(room_wf(*room, self.next_room, self.next_player));
        }
        let roles = CrewRole::all();
        let mut slots: Vec<RoleSlot> = Vec::new();
        let mut k: usize = 0;
        while k < 5
            invariant
                k <= 5,
                roles@ == all_roles(),
                room_wf(*room, self.next_room, self.next_player),
                slots@.len() == k,
                forall|x: int| 0 <= x < k ==> #[trigger] slots@[x] == slot_for(room_state(*room), all_roles()[x]),
            decreases 5 - k,
        {
            let role = roles[k];
            proof {
                lemma_role_held(*room, role);
            }
            let occupant = match role_holder(&room.players, role) {
                Some(j) => RoleOccupant::Human { player_id: room.players[j].id, ready: room.players[j].ready },
                None => RoleOccupant::Bot,
            };
            slots.push(RoleSlot { role, occupant });
            k = k + 1;
        }
        Some(LobbySnapshot { room_id: RoomId(room_id.0.clone()), phase: room.phase, slots })
    }

    /// Records whether `player_id` of room `room_id` is ready; nothing
    /// changes when there is no such room or player.
    pub fn set_ready(&mut self, room_id: &RoomId, player_id: PlayerId, ready: bool)
        requires
            old(self).wf(),
        ensures
            final(self).wf(),
            final(self)@ == after_ready(old(self)@, room_id.0@, player_id.0, ready),
    {
        let ghost old_rooms = self.rooms@;
        let i = match self.find_room(&room_id.0) {
            Some(i) => i,
            None => {
                return;
            },
        };
        proof {
            lemma_room_at(old_rooms, i as int);
            assert(room_wf(old_rooms[i as int], self.next_room, self.next_player));
        }
        let j = match find_player(&self.rooms[i].players, player_id) {
            Some(j) => j,
            None => {
                return;
            },
        };
        let mut room = self.rooms.remove(i);
        let ghost old_room = room;
        let mut entry = room.players.remove(j);
        let ghost old_entry = entry;
        entry.ready = ready;
        room.players.insert(j, entry);
        proof {
            assert(room.players@ =~= old_room.players@.update(j as int, entry));
            lemma_keyed_update(old_room.players@, player_key(), player_seat(), j as int, entry);
            lemma_keyed_at(old_room.players@, player_key(), player_seat(), j as int);
            assert forall|a: int, b: int| 0 <= a < room.players@.len() && 0 <= b < room.players@.len() && a != b implies (#[trigger] room.players@[a]).role != (#[trigger] room.players@[b]).role by {
                assert(room.players@[a].role == old_room.players@[a].role);
                assert(room.players@[b].role == old_room.players@[b].role);
            }
            assert forall|k: int| 0 <= k < room.players@.len() implies (#[trigger] room.players@[k]).id.0 < self.next_player by {
                assert(room.players@[k].id == old_room.players@[k].id);
            }
        }
        self.rooms.insert(i, room);
        proof {
            assert(self.rooms@ =~= old_rooms.update(i as int, room));
            lemma_keyed_update(old_rooms, room_key(), room_view(), i as int, room);
            assert forall|k: int| 0 <= k < self.rooms@.len() implies room_wf(#[trigger] self.rooms@[k], self.next_room, self.next_player) by {
                if k != i {
                    assert(self.rooms@[k] == old_rooms[k]);
                }
            }
        }
    }

    /// Starts the mission of room `room_id` with the handle `game` of the
    /// running mission, and returns the room's seed. Refused for an unknown
    /// room and for a room whose mission already runs.
    pub fn start_room(&mut self, room_id: &RoomId, game: G) -> (r: Result<u64, ProtocolError>)
        requires
            old(self).wf(),
        ensures
            final(self).wf(),
            match start_refusal(old(self)@, room_id.0@) {
                Some(e) => r == Err::<u64, ProtocolError>(e) && final(self)@ == old(self)@,
                None => r == Ok::<u64, ProtocolError>(old(self)@.rooms[room_id.0@].seed)
                    && final(self)@ == after_start(old(self)@, room_id.0@, game),
            },
    {
        let ghost old_rooms = self.rooms@;
        let i = match self.find_room(&room_id.0) {
            Some(i) => i,
            None => {
                return Err(ProtocolError::RoomNotFound);
            },
        };
        proof {
            lemma_room_at(old_rooms, i as int);
        }
        if self.rooms[i].phase != LobbyPhase::Waiting {
            return Err(ProtocolError::RoomAlreadyStarted);
        }
        let mut room = self.rooms.remove(i);
        room.phase = LobbyPhase::Running;
        room.game = Some(game);
        let seed = room.seed;
        proof {
            assert(room_wf(old_rooms[i as int], self.next_room, self.next_player));
        }
        self.rooms.insert(i, room);
        proof {
            assert(self.rooms@ =~= old_rooms.update(i as int, room));
            lemma_keyed_update(old_rooms, room_key(), room_view(), i as int, room);
            assert forall|k: int| 0 <= k < self.rooms@.len() implies room_wf(#[trigger] self.rooms@[k], self.next_room, self.next_player) by {
                if k != i {
                    assert(self.rooms@[k] == old_rooms[k]);
                }
            }
        }
        Ok(seed)
    }

    /// Takes `player_id` out of a waiting room `room_id` and closes the room
    /// once nobody is left in it.
    pub fn remove(&mut self, room_id: &RoomId, player_id: PlayerId)
        requires
            old(self).wf(),
        ensures
            final(self).wf(),
            final(self)@ == after_leave(old(self)@, room_id.0@, player_id.0),
    {
        let ghost old_rooms = self.rooms@;
        let i = match self.find_room(&room_id.0) {
            Some(i) => i,
            None => {
                return;
            },
        };
        proof {
            lemma_room_at(old_rooms, i as int);
            assert(room_wf(old_rooms[i as int], self.next_room, self.next_player));
        }
        let mut room = self.rooms.remove(i);
        let ghost old_room = room;
        let ghost old_map = players_map(old_room.players@);
        let ghost code = room_id.0@;
        if room.phase == LobbyPhase::Waiting {
            match find_player(&room.players, player_id) {
                Some(j) => {
                    room.players.remove(j);
                    proof {
                        lemma_keyed_remove(old_room.players@, player_key(), player_seat(), j as int);
                        assert forall|a: int, b: int| 0 <= a < room.players@.len() && 0 <= b < room.players@.len() && a != b implies (#[trigger] room.players@[a]).role != (#[trigger] room.players@[b]).role by {
                            let a2 = if a < j { a } else { a + 1 };
                            let b2 = if b < j { b } else { b + 1 };
                            assert(room.players@[a] == old_room.players@[a2]);
                            assert(room.players@[b] == old_room.players@[b2]);
                        }
                        assert forall|k: int| 0 <= k < room.players@.len() implies (#[trigger] room.players@[k]).id.0 < self.next_player by {
                            let k2 = if k < j { k } else { k + 1 };
                            assert(room.players@[k] == old_room.players@[k2]);
                        }
                    }
                },
                None => {
                    proof {
                        assert(old_map.remove(player_id.0) =~= old_map);
                    }
                },
            }
        }
        let ghost new_map = players_map(room.players@);
        proof {
            assert(new_map == if old_room.phase == LobbyPhase::Waiting { old_map.remove(player_id.0) } else { old_map });
        }
        if room.players.len() == 0 {
            proof {
                assert(room.players@ =~= Seq::<PlayerEntry<P>>::empty());
                lemma_keyed_empty::<PlayerEntry<P>, u64, PlayerSeat<P>>(player_key(), player_seat());
                assert(self.rooms@ =~= old_rooms.remove(i as int));
                lemma_keyed_remove(old_rooms, room_key(), room_view(), i as int);
                assert forall|k: int| 0 <= k < self.rooms@.len() implies room_wf(#[trigger] self.rooms@[k], self.next_room, self.next_player) by {
                    let k2 = if k < i { k } else { k + 1 };
                    assert(self.rooms@[k] == old_rooms[k2]);
                }
            }
        } else {
            proof {
                lemma_keyed_at(room.players@, player_key(), player_seat(), 0);
                assert(new_map.contains_key(room.players@[0].id.0));
                assert(new_map != Map::<u64, PlayerSeat<P>>::empty());
            }
            self.rooms.insert(i, room);
            proof {
                assert(self.rooms@ =~= old_rooms.update(i as int, room));
                lemma_keyed_update(old_rooms, room_key(), room_view(), i as int, room);
                assert forall|k: int| 0 <= k < self.rooms@.len() implies room_wf(#[trigger] self.rooms@[k], self.next_room, self.next_player) by {
                    if k != i {
                        assert(self.rooms@[k] == old_rooms[k]);
                    }
                }
            }
        }
    }
}

/// The members of room `code` with their roles, as `roster` lists them.
pub open spec fn is_roster_of<P, G>(reg: RegistryState<P, G>, code: Seq<char>, list: Seq<(PlayerId, CrewRole)>) -> bool {
    if !reg.rooms.contains_key(code) {
        list.len() == 0
    } else {
        let players = reg.rooms[code].players;
        &&& list.len() == players.len()
        &&& forall|k: int| 0 <= k < list.len() ==> players.contains_key((#[trigger] list[k]).0.0) && players[list[k].0.0].role == list[k].1
        &&& forall|a: int, b: int| 0 <= a < list.len() && 0 <= b < list.len() && a != b ==> (#[trigger] list[a]).0 != (#[trigger] list[b]).0
        &&& forall|id: u64| #[trigger] players.contains_key(id) ==> exists|k: int| 0 <= k < list.len() && (#[trigger] list[k]).0.0 == id
    }
}

impl<P, G> RoomRegistry<P, G> {
    /// The members of room `room_id`, each once, with their roles; empty for
    /// an unknown room.
    pub fn roster(&self, room_id: &RoomId) -> (r: Vec<(PlayerId, CrewRole)>)
        requires
            self.wf(),
        ensures
            is_roster_of(self@, room_id.0@, r@),
    {
        let mut out: Vec<(PlayerId, CrewRole)> = Vec::new();
        let i = match self.find_room(&room_id.0) {
            Some(i) => i,
            None => {
                return out;
            },
        };
        let room = &self.rooms[i];
        proof {
            lemma_room_at(self.rooms@, i as int);
            assert(room_wf(*room, self.next_room, self.next_player));
            lemma_keyed_len(room.players@, player_key(), player_seat());
        }
        let ghost ps = room.players@;
        let mut k: usize = 0;
        while k < room.players.len()
            invariant
                ps == room.players@,
                k <= ps.len(),
                out@.len() == k,
                forall|x: int| 0 <= x < k ==> (#[trigger] out@[x]).0 == ps[x].id && out@[x].1 == ps[x].role,
            decreases ps.len() - k,
        {
            out.push((room.players[k].id, room.players[k].role));
            k = k + 1;
        }
        proof {
            let players = room_state(*room).players;
            assert forall|x: int| 0 <= x < out@.len() implies players.contains_key((#[trigger] out@[x]).0.0) && players[out@[x].0.0].role == out@[x].1 by {
                lemma_keyed_at(ps, player_key(), player_seat(), x);
            }
            assert forall|a: int, b: int| 0 <= a < out@.len() && 0 <= b < out@.len() && a != b implies (#[trigger] out@[a]).0 != (#[trigger] out@[b]).0 by {
                assert(player_key::<P>()(ps[a]) != player_key::<P>()(ps[b]));
            }
            assert forall|id: u64| #[trigger] players.contains_key(id) implies exists|x: int| 0 <= x < out@.len() && (#[trigger] out@[x]).0.0 == id by {
                let x = choose|x: int| 0 <= x < ps.len() && player_key::<P>()(#[trigger] ps[x]) == id;
                assert(out@[x].0.0 == id);
            }
        }
        out
    }

    /// The handle of `player_id` in room `room_id`, if both exist.
    pub fn outbox(&self, room_id: &RoomId, player_id: PlayerId) -> (r: Option<&P>)
        requires
            self.wf(),
        ensures
            match r {
                Some(o) => self@.rooms.contains_key(room_id.0@)
                    && self@.rooms[room_id.0@].players.contains_key(player_id.0)
                    && *o == self@.rooms[room_id.0@].players[player_id.0].outbox,
                None => !(self@.rooms.contains_key(room_id.0@) && self@.rooms[room_id.0@].players.contains_key(player_id.0)),
            },
    {
        let i = match self.find_room(&room_id.0) {
            Some(i) => i,
            None => {
                return None;
            },
        };
        proof {
            lemma_room_at(self.rooms@, i as int);
            assert(room_wf(self.rooms@[i as int], self.next_room, self.next_player));
        }
        match find_player(&self.rooms[i].players, player_id) {
            Some(j) => {
                proof {
                    lemma_keyed_at(self.rooms@[i as int].players@, player_key(), player_seat(), j as int);
                }
                Some(&self.rooms[i].players[j].outbox)
            },
            None => None,
        }
    }

    /// The handle of the mission running in room `room_id`; `None` when the
    /// room is unknown or still waiting.
    pub fn game_channel(&self, room_id: &RoomId) -> (r: Option<&G>)
        requires
            self.wf(),
        ensures
            match r {
                Some(g) => self@.rooms.contains_key(room_id.0@) && self@.rooms[room_id.0@].game == Some(*g),
                None => !self@.rooms.contains_key(room_id.0@) || self@.rooms[room_id.0@].game is None,
            },
    {
        let i = match self.find_room(&room_id.0) {
            Some(i) => i,
            None => {
                return None;
            },
        };
        proof {
            lemma_room_at(self.rooms@, i as int);
        }
        match &self.rooms[i].game {
            Some(g) => Some(g),
            None => None,
        }
    }

    /// The seed of room `room_id`'s mission, if the room exists.
    pub fn room_seed(&self, room_id: &RoomId) -> (r: Option<u64>)
        requires
            self.wf(),
        ensures
            match r {
                Some(seed) => self@.rooms.contains_key(room_id.0@) && self@.rooms[room_id.0@].seed == seed,
                None => !self@.rooms.contains_key(room_id.0@),
            },
    {
        match self.find_room(&room_id.0) {
            Some(i) => {
                proof {
                    lemma_room_at(self.rooms@, i as int);
                }
                Some(self.rooms[i].seed)
            },
            None => None,
        }
    }

    /// How many players room `room_id` has, if the room exists.
    pub fn player_count(&self, room_id: &RoomId) -> (r: Option<usize>)
        requires
            self.wf(),
        ensures
            match r {
                Some(n) => self@.rooms.contains_key(room_id.0@) && self@.rooms[room_id.0@].players.len() == n,
                None => !self@.rooms.contains_key(room_id.0@),
            },
    {
        match self.find_room(&room_id.0) {
            Some(i) => {
                proof {
                    lemma_room_at(self.rooms@, i as int);
                    assert(room_wf(self.rooms@[i as int], self.next_room, self.next_player));
                    lemma_keyed_len(self.rooms@[i as int].players@, player_key(), player_seat());
                }
                Some(self.rooms[i].players.len())
            },
            None => None,
        }
    }

    /// Handles the first message of a connection: `CreateRoom` opens a room,
    /// `JoinRoom` joins one; anything else (`None` standing for a message
    /// that is no lobby command) is answered `RoomNotFound`. On success,
    /// returns the room's code, the new session and player ids and the role.
    pub fn register(&mut self, request: Option<&LobbyCommand>, outbox: P) -> (r: Result<(RoomId, SessionId, PlayerId, CrewRole), ProtocolError>)
        requires
            old(self).wf(),
            (request matches Some(LobbyCommand::CreateRoom { .. })) ==> old(self)@.next_room < u64::MAX,
            (request matches Some(LobbyCommand::CreateRoom { .. })) ==> old(self)@.next_player < u64::MAX,
            (request matches Some(LobbyCommand::JoinRoom { room_id, role }) && join_refusal(old(self)@, room_id.0@, *role) is None)
                ==> old(self)@.next_player < u64::MAX,
        ensures
            final(self).wf(),
            match request {
                Some(LobbyCommand::CreateRoom { role }) => {
                    &&& final(self)@ == after_create(old(self)@, *role, outbox)
                    &&& r matches Ok((room, session, player, held)) && room.0@ == room_code_text(old(self)@.next_room as nat)
                        && session == SessionId(old(self)@.next_session) && player == PlayerId(old(self)@.next_player)
                        && held == *role
                },
                Some(LobbyCommand::JoinRoom { room_id, role }) => match join_refusal(old(self)@, room_id.0@, *role) {
                    Some(e) => r == Err::<(RoomId, SessionId, PlayerId, CrewRole), ProtocolError>(e) && final(self)@ == old(self)@,
                    None => {
                        &&& final(self)@ == after_join(old(self)@, room_id.0@, *role, outbox)
                        &&& r matches Ok((room, session, player, held)) && room.0@ == room_id.0@
                            && session == SessionId(old(self)@.next_session) && player == PlayerId(old(self)@.next_player)
                            && held == *role
                    },
                },
                _ => r == Err::<(RoomId, SessionId, PlayerId, CrewRole), ProtocolError>(ProtocolError::RoomNotFound)
                    && final(self)@ == old(self)@,
            },
    {
        match request {
            Some(LobbyCommand::CreateRoom { role }) => {
                let (room_id, session_id, player_id) = self.create_room(*role, outbox);
                Ok((room_id, session_id, player_id, *role))
            },
            Some(LobbyCommand::JoinRoom { room_id, role }) => {
                match self.join_room(room_id, *role, outbox) {
                    Ok((session_id, player_id)) => Ok((RoomId(room_id.0.clone()), session_id, player_id, *role)),
                    Err(e) => Err(e),
                }
            },
            _ => Err(ProtocolError::RoomNotFound),
        }
    }
}

/// What became of a lobby command from a member of a room.
#[derive(Debug, Clone, PartialEq, Eq)]
pub enum LobbyOutcome {
    /// The lobby changed: every member is sent it again.
    Changed,
    /// The mission started with this seed: every member is told, sent the
    /// lobby again, and the mission runs.
    Started(u64),
    /// Refused: only the sender is told why.
    Refused(ProtocolError),
    /// Nothing to do: the connection already has its room.
    Ignored,
}

impl<P, G> RoomRegistry<P, G> {
    /// Applies a lobby command sent by `player_id` of room `room_id`:
    /// `SetReady` records the flag, `StartMission` starts the mission with
    /// the handle `game`, creating or joining a room again is ignored.
    pub fn member_command(&mut self, room_id: &RoomId, player_id: PlayerId, command: &LobbyCommand, game: G) -> (r: LobbyOutcome)
        requires
            old(self).wf(),
        ensures
            final(self).wf(),
            match command {
                LobbyCommand::SetReady { ready } => r == LobbyOutcome::Changed
                    && final(self)@ == after_ready(old(self)@, room_id.0@, player_id.0, *ready),
                LobbyCommand::StartMission => match start_refusal(old(self)@, room_id.0@) {
                    Some(e) => r == LobbyOutcome::Refused(e) && final(self)@ == old(self)@,
                    None => r == LobbyOutcome::Started(old(self)@.rooms[room_id.0@].seed)
                        && final(self)@ == after_start(old(self)@, room_id.0@, game),
                },
                _ => r == LobbyOutcome::Ignored && final(self)@ == old(self)@,
            },
    {
        match command {
            LobbyCommand::SetReady { ready } => {
                self.set_ready(room_id, player_id, *ready);
                LobbyOutcome::Changed
            },
            LobbyCommand::StartMission => match self.start_room(room_id, game) {
                Ok(seed) => LobbyOutcome::Started(seed),
                Err(e) => LobbyOutcome::Refused(e),
            },
            _ => LobbyOutcome::Ignored,
        }
    }

    /// Whether another room can still be numbered.
    pub fn can_open_room(&self) -> (r: bool)
        ensures
            r == (self@.next_room < u64::MAX),
    {
        self.next_room < u64::MAX
    }

    /// Whether another player can still be numbered.
    pub fn can_admit_player(&self) -> (r: bool)
        ensures
            r == (self@.next_player < u64::MAX),
    {
        self.next_player < u64::MAX
    }

    /// Why joining room `room_id` as `role` would be refused, if it would.
    pub fn join_refusal_of(&self, room_id: &RoomId, role: CrewRole) -> (r: Option<ProtocolError>)
        requires
            self.wf(),
        ensures
            r == join_refusal(self@, room_id.0@, role),
    {
        if !valid_room_code(room_id.0.as_str()) {
            return Some(ProtocolError::InvalidRoomCode);
        }
        let i = match self.find_room(&room_id.0) {
            Some(i) => i,
            None => {
                return Some(ProtocolError::RoomNotFound);
            },
        };
        proof {
            lemma_room_at(self.rooms@, i as int);
            lemma_role_held(self.rooms@[i as int], role);
        }
        if self.rooms[i].phase != LobbyPhase::Waiting {
            return Some(ProtocolError::RoomAlreadyStarted);
        }
        if role_holder(&self.rooms[i].players, role).is_some() {
            return Some(ProtocolError::RoleAlreadyTaken(role));
        }
        None
    }

    /// Where a mission command of room `room_id` goes: the handle of its
    /// running mission, or `GameNotStarted` while there is none.
    pub fn mission_target(&self, room_id: &RoomId) -> (r: Result<&G, ProtocolError>)
        requires
            self.wf(),
        ensures
            match r {
                Ok(g) => self@.rooms.contains_key(room_id.0@) && self@.rooms[room_id.0@].game == Some(*g),
                Err(e) => e == ProtocolError::GameNotStarted
                    && (!self@.rooms.contains_key(room_id.0@) || self@.rooms[room_id.0@].game is None),
            },
    {
        match self.game_channel(room_id) {
            Some(g) => Ok(g),
            None => Err(ProtocolError::GameNotStarted),
        }
    }
}

// ---------------------------------------------------------------------------
// Laws of the registry
// ---------------------------------------------------------------------------

/// Within a room, no two players hold the same role.
pub proof fn lemma_roles_unique<P, G>(reg: &RoomRegistry<P, G>, code: Seq<char>, a: u64, b: u64)
    requires
        reg.wf(),
        reg@.rooms.contains_key(code),
        reg@.rooms[code].players.contains_key(a),
        reg@.rooms[code].players.contains_key(b),
        a != b,
    ensures
        reg@.rooms[code].players[a].role != reg@.rooms[code].players[b].role,
{
    let rooms = reg.rooms@;
    let i = choose|i: int| 0 <= i < rooms.len() && room_key::<P, G>()(#[trigger] rooms[i]) == code;
    lemma_room_at(rooms, i);
    let r = rooms[i];
    assert(room_wf(r, reg.next_room, reg.next_player));
    let s = r.players@;
    let ia = choose|x: int| 0 <= x < s.len() && player_key::<P>()(#[trigger] s[x]) == a;
    let ib = choose|x: int| 0 <= x < s.len() && player_key::<P>()(#[trigger] s[x]) == b;
    lemma_keyed_at(s, player_key(), player_seat(), ia);
    lemma_keyed_at(s, player_key(), player_seat(), ib);
}

/// Every player id in the registry is below `next_player`, so the ids handed
/// out next are new; session and player numbers advance together.
pub proof fn lemma_ids_below_counters<P, G>(reg: &RoomRegistry<P, G>, code: Seq<char>, id: u64)
    requires
        reg.wf(),
        reg@.rooms.contains_key(code),
        reg@.rooms[code].players.contains_key(id),
    ensures
        id < reg@.next_player,
        reg@.next_session == reg@.next_player,
{
    let rooms = reg.rooms@;
    let i = choose|i: int| 0 <= i < rooms.len() && room_key::<P, G>()(#[trigger] rooms[i]) == code;
    lemma_room_at(rooms, i);
    let r = rooms[i];
    assert(room_wf(r, reg.next_room, reg.next_player));
    let s = r.players@;
    let x = choose|x: int| 0 <= x < s.len() && player_key::<P>()(#[trigger] s[x]) == id;
    assert(s[x].id.0 < reg.next_player);
}

/// Every room is known by the code of its seed, a number below
/// `next_room`; a room never stands empty; a room holds a mission handle
/// exactly while its mission runs.
pub proof fn lemma_room_shape<P, G>(reg: &RoomRegistry<P, G>, code: Seq<char>)
    requires
        reg.wf(),
        reg@.rooms.contains_key(code),
    ensures
        code == room_code_text(reg@.rooms[code].seed as nat),
        reg@.rooms[code].seed < reg@.next_room,
        reg@.rooms[code].players.len() >= 1,
        (reg@.rooms[code].phase == LobbyPhase::Running) == (reg@.rooms[code].game is Some),
{
    let rooms = reg.rooms@;
    let i = choose|i: int| 0 <= i < rooms.len() && room_key::<P, G>()(#[trigger] rooms[i]) == code;
    lemma_room_at(rooms, i);
    assert(room_wf(rooms[i], reg.next_room, reg.next_player));
    lemma_keyed_len(rooms[i].players@, player_key(), player_seat());
}

/// A room just created can be joined by its code at any other role, as long
/// as room numbers stay below a million (six digits).
pub proof fn lemma_created_room_is_joinable<P, G>(reg: RegistryState<P, G>, role: CrewRole, outbox: P, other: CrewRole)
    requires
        reg.next_room < 1_000_000,
        other != role,
    ensures
        join_refusal(after_create(reg, role, outbox), room_code_text(reg.next_room as nat), other) is None,
{
    lemma_room_code_valid(reg.next_room as nat);
    let after = after_create(reg, role, outbox);
    let room = after.rooms[room_code_text(reg.next_room as nat)];
    assert(room == fresh_room::<P, G>(reg.next_room, reg.next_player, role, outbox));
    if role_held(room, other) {
        let id = choose|id: u64| #[trigger] room.players.contains_key(id) && room.players[id].role == other;
        assert(id == reg.next_player);
    }
}

/// A free station of a waiting room can always be taken by joining the
/// room's code, so five players can hold the five stations (for rooms
/// numbered below a million, whose codes have six digits).
pub proof fn lemma_free_roles_can_be_joined<P, G>(reg: &RoomRegistry<P, G>, code: Seq<char>, role: CrewRole)
    requires
        reg.wf(),
        reg@.rooms.contains_key(code),
        reg@.rooms[code].phase == LobbyPhase::Waiting,
        !role_held(reg@.rooms[code], role),
        reg@.rooms[code].seed < 1_000_000,
    ensures
        join_refusal(reg@, code, role) is None,
{
    lemma_room_shape(reg, code);
    lemma_room_code_valid(reg@.rooms[code].seed as nat);
}

/// Rooms are independent: joining, leaving, setting readiness or starting
/// in one room leaves every other room as it was, and creating a room
/// leaves every existing room as it was.
pub proof fn lemma_rooms_independent<P, G>(
    reg: &RoomRegistry<P, G>,
    code: Seq<char>,
    other: Seq<char>,
    role: CrewRole,
    outbox: P,
    player: u64,
    ready: bool,
    game: G,
)
    requires
        reg.wf(),
        reg@.rooms.contains_key(other),
        code != other,
    ensures
        after_join(reg@, code, role, outbox).rooms[other] == reg@.rooms[other],
        after_leave(reg@, code, player).rooms.contains_key(other),
        after_leave(reg@, code, player).rooms[other] == reg@.rooms[other],
        after_ready(reg@, code, player, ready).rooms[other] == reg@.rooms[other],
        after_start(reg@, code, game).rooms[other] == reg@.rooms[other],
        after_create(reg@, role, outbox).rooms[other] == reg@.rooms[other],
{
    lemma_room_shape(reg, other);
    let seed = reg@.rooms[other].seed;
    if room_code_text(reg@.next_room as nat) == other {
        lemma_room_code_injective(reg@.next_room as nat, seed as nat);
    }
}

/// The stations of a room no human holds.
pub open spec fn free_stations<P, G>(room: RoomState<P, G>) -> Set<CrewRole> {
    Set::new(|r: CrewRole| !role_held(room, r))
}

/// Every station a human does not hold is kept by a bot: a room with `n`
/// players has `5 - n` free stations, shown as bots in its snapshot.
pub proof fn lemma_bots_fill_free_stations<P, G>(reg: &RoomRegistry<P, G>, code: Seq<char>)
    requires
        reg.wf(),
        reg@.rooms.contains_key(code),
    ensures
        free_stations(reg@.rooms[code]).finite(),
        free_stations(reg@.rooms[code]).len() == 5 - reg@.rooms[code].players.len(),
{
    broadcast use vstd::seq_lib::seq_to_set_is_finite;
    let rooms = reg.rooms@;
    let i = choose|i: int| 0 <= i < rooms.len() && room_key::<P, G>()(#[trigger] rooms[i]) == code;
    lemma_room_at(rooms, i);
    let r = rooms[i];
    assert(room_wf(r, reg.next_room, reg.next_player));
    let s = r.players@;
    lemma_keyed_len(s, player_key(), player_seat());
    let roles = s.map_values(|e: PlayerEntry<P>| e.role);
    assert(roles.no_duplicates()) by {
        assert forall|a: int, b: int| 0 <= a < roles.len() && 0 <= b < roles.len() && a != b implies roles[a] != roles[b] by {
            assert(roles[a] == s[a].role && roles[b] == s[b].role);
        }
    }
    roles.unique_seq_to_set();
    let held = roles.to_set();
    let every = all_roles().to_set();
    assert(all_roles().no_duplicates()) by {
        assert forall|a: int, b: int| 0 <= a < 5 && 0 <= b < 5 && a != b implies all_roles()[a] != all_roles()[b] by {
            assert(role_index(all_roles()[a]) == a && role_index(all_roles()[b]) == b);
        }
    }
    all_roles().unique_seq_to_set();
    assert forall|x: CrewRole| #[trigger] every.contains(x) by {
        assert(all_roles()[role_index(x)] == x);
    }
    let room = reg@.rooms[code];
    assert forall|x: CrewRole| #[trigger] held.contains(x) <==> role_held(room, x) by {
        lemma_role_held(r, x);
        if held.contains(x) {
            let k = choose|k: int| 0 <= k < roles.len() && roles[k] == x;
            assert(s[k].role == x);
        }
        if role_held(room, x) {
            let k = choose|k: int| 0 <= k < s.len() && (#[trigger] s[k]).role == x;
            assert(roles[k] == x);
        }
    }
    assert(free_stations(room) =~= every.difference(held));
    assert(every.intersect(held) =~= held);
    vstd::set_lib::lemma_set_difference_len(every, held);
}

} // verus!
