use vstd::prelude::*;
use vstd::utf8::encode_utf8;

use crate::game::GameType;
use crate::method::{MethodTable, StringTable};
use crate::packet::binarydata::BinaryData;
use crate::packet::packet::PacketModel;
use crate::packet::utils::be_bytes;
use crate::packet::Packet;

use super::error::Error;

verus! {

/// What a new room is made with.
pub struct RoomOption {
    pub name: String,
    pub max_people: usize,
    pub password: Option<String>,
    pub game_type: GameType,
}

/// What a room tells about itself.
pub struct RoomInfo {
    pub id: i32,
    pub name: String,
    pub max_people: usize,
    pub now_people: usize,
    pub is_password: bool,
    pub is_gaming: bool,
}

/// What a seat holds, as the player list shows it.
#[derive(Debug, Clone, Copy, PartialEq, Eq, Structural)]
pub enum PlayerType {
    Empty,
    Normal,
    Moderator,
}

impl PlayerType {
    pub open spec fn spec_code(self) -> i32 {
        match self {
            PlayerType::Empty => 0,
            PlayerType::Normal => 1,
            PlayerType::Moderator => 2,
        }
    }

    #[verifier::when_used_as_spec(spec_code)]
    pub fn code(self) -> (res: i32)
        ensures
            res == self.spec_code(),
    {
        match self {
            PlayerType::Empty => 0,
            PlayerType::Normal => 1,
            PlayerType::Moderator => 2,
        }
    }
}

/// A player in a seat: the session, by its number, and its nickname.
pub struct Player {
    pub id: u64,
    pub nickname: String,
}

/// How many seats are taken.
pub open spec fn count_taken(s: Seq<Option<Player>>) -> nat
    decreases s.len(),
{
    if s.len() == 0 {
        0
    } else {
        count_taken(s.drop_last()) + if s.last() is Some { 1nat } else { 0nat }
    }
}

/// The seat `k` holds the session `id`.
pub open spec fn holds(s: Seq<Option<Player>>, k: int, id: u64) -> bool {
    s[k] matches Some(p) && p.id == id
}

proof fn lemma_count_taken_bound(s: Seq<Option<Player>>)
    ensures
        count_taken(s) <= s.len(),
    decreases s.len(),
{
    if s.len() > 0 {
        lemma_count_taken_bound(s.drop_last());
    }
}

proof fn lemma_count_taken_update(s: Seq<Option<Player>>, i: int, v: Option<Player>)
    requires
        0 <= i < s.len(),
    ensures
        count_taken(s.update(i, v)) + (if s[i] is Some { 1nat } else { 0nat })
            == count_taken(s) + (if v is Some { 1nat } else { 0nat }),
    decreases s.len(),
{
    if i == s.len() - 1 {
        assert(s.update(i, v).drop_last() =~= s.drop_last());
    } else {
        lemma_count_taken_update(s.drop_last(), i, v);
        assert(s.update(i, v).drop_last() =~= s.drop_last().update(i, v));
    }
}

/// What came of a player leaving.
pub struct Leave {
    /// The seat that was freed.
    pub index: usize,
    /// Where the moderator left: the nickname at the moderator's seat now.
    pub moderator_nickname: Option<String>,
}

/// The nickname at seat `k` (empty for an empty seat).
pub open spec fn nickname_at(s: Seq<Option<Player>>, k: int) -> Seq<char> {
    match s[k] {
        Some(p) => p.nickname@,
        None => seq![],
    }
}

/// What seat `k` holds, as the player list shows it.
pub open spec fn player_type_at(s: Seq<Option<Player>>, moderator: nat, k: int) -> PlayerType {
    if s[k] is None {
        PlayerType::Empty
    } else if k == moderator {
        PlayerType::Moderator
    } else {
        PlayerType::Normal
    }
}

/// The items of the player list for the first `n` seats: what each holds and its nickname.
pub open spec fn player_list_items(s: Seq<Option<Player>>, moderator: nat, n: nat) -> Seq<Seq<u8>>
    decreases n,
{
    if n == 0 {
        seq![]
    } else {
        let k = n - 1;
        player_list_items(s, moderator, (n - 1) as nat)
            + seq![be_bytes(player_type_at(s, moderator, k).spec_code() as int), encode_utf8(nickname_at(s, k))]
    }
}

pub open spec fn packet_model(method: i32, items: Seq<Seq<u8>>) -> PacketModel {
    PacketModel { method, items }
}

/// The seats of a room and which of them is the moderator's.
pub struct Seats {
    players: Vec<Option<Player>>,
    moderator: usize,
    now_people: usize,
}

impl Seats {
    #[verifier::type_invariant]
    spec fn inv(self) -> bool {
        self.now_people == count_taken(self.players@)
    }

    /// What each seat holds.
    pub closed spec fn seats(self) -> Seq<Option<Player>> {
        self.players@
    }

    /// The moderator's seat.
    pub closed spec fn moderator(self) -> nat {
        self.moderator as nat
    }

    /// Moves the parts out, leaving no seats behind.
    fn take_parts(&mut self) -> (res: (Vec<Option<Player>>, usize, usize))
        ensures
            res.0@ == old(self).seats(),
            res.1 == old(self).moderator(),
            res.2 == count_taken(old(self).seats()),
    {
        proof { use_type_invariant(&*self); }
        let mut tmp = Seats { players: Vec::new(), moderator: 0, now_people: 0 };
        assert(count_taken(tmp.players@) == 0);
        std::mem::swap(&mut tmp, self);
        proof { use_type_invariant(&tmp); }
        let Seats { players, moderator, now_people } = tmp;
        (players, moderator, now_people)
    }

    /// `max_people` empty seats; the first is the moderator's.
    pub fn new(max_people: usize) -> (res: Seats)
        ensures
            res.seats() == Seq::new(max_people as nat, |i: int| None::<Player>),
            res.moderator() == 0,
    {
        let mut players: Vec<Option<Player>> = Vec::new();
        let mut i: usize = 0;
        while i < max_people
            invariant
                i <= max_people,
                players@ == Seq::new(i as nat, |k: int| None::<Player>),
                count_taken(players@) == 0,
            decreases max_people - i,
        {
            let ghost before = players@;
            players.push(None);
            i += 1;
            assert(players@.drop_last() =~= before);
            assert(players@ =~= Seq::new(i as nat, |k: int| None::<Player>));
        }
        Seats { players, moderator: 0, now_people: 0 }
    }

    /// How many seats are taken.
    pub fn now_people(&self) -> (res: usize)
        ensures
            res == count_taken(self.seats()),
    {
        proof { use_type_invariant(self); }
        self.now_people
    }

    /// Seats `player` in the first empty seat and returns it; a full room
    /// refuses.
    pub fn join(&mut self, player: Player) -> (res: Result<usize, Error>)
        ensures
            final(self).moderator() == old(self).moderator(),
            match res {
                Ok(i) => {
                    &&& i < old(self).seats().len()
                    &&& old(self).seats()[i as int] is None
                    &&& forall|k: int| 0 <= k < i ==> #[trigger] old(self).seats()[k] is Some
                    &&& final(self).seats() == old(self).seats().update(i as int, Some(player))
                },
                Err(e) => {
                    &&& e == Error::RoomIsFull
                    &&& forall|k: int| 0 <= k < old(self).seats().len() ==> #[trigger] old(self).seats()[k] is Some
                    &&& final(self).seats() == old(self).seats()
                },
            },
    {
        proof { use_type_invariant(&*self); }
        let mut i: usize = 0;
        while i < self.players.len()
            invariant
                self.seats() == old(self).seats(),
                self.moderator() == old(self).moderator(),
                i <= self.players@.len(),
                forall|k: int| 0 <= k < i ==> #[trigger] self.players@[k] is Some,
            decreases self.players@.len() - i,
        {
            if self.players[i].is_none() {
                let (mut players, moderator, now_people) = self.take_parts();
                let ghost before = players@;
                proof {
                    lemma_count_taken_update(before, i as int, Some(player));
                    lemma_count_taken_bound(before.update(i as int, Some(player)));
                }
                players.set(i, Some(player));
                *self = Seats { players, moderator, now_people: now_people + 1 };
                return Ok(i);
            }
            i += 1;
        }
        Err(Error::RoomIsFull)
    }

    /// The first seat that holds the session `id`.
    pub fn index(&self, id: u64) -> (res: Option<usize>)
        ensures
            match res {
                Some(i) => i < self.seats().len() && holds(self.seats(), i as int, id)
                    && forall|k: int| 0 <= k < i ==> !holds(self.seats(), k, id),
                None => forall|k: int| 0 <= k < self.seats().len() ==> !holds(self.seats(), k, id),
            },
    {
        let mut i: usize = 0;
        while i < self.players.len()
            invariant
                i <= self.players@.len(),
                forall|k: int| 0 <= k < i ==> !holds(self.players@, k, id),
            decreases self.players@.len() - i,
        {
            if let Some(p) = &self.players[i] {
                if p.id == id {
                    return Some(i);
                }
            }
            i += 1;
        }
        None
    }

    /// Whether the moderator's seat holds the session `id`; the moderator's
    /// seat must be taken.
    pub fn is_moderator(&self, id: u64) -> (res: bool)
        requires
            self.moderator() < self.seats().len(),
            self.seats()[self.moderator() as int] is Some,
        ensures
            res == holds(self.seats(), self.moderator() as int, id),
    {
        match &self.players[self.moderator] {
            Some(p) => p.id == id,
            None => false,
        }
    }

    /// Frees the first seat that holds the session `id`. Where that was the
    /// moderator's seat, the moderator's seat moves to the first taken seat
    /// (it stays where none is) and the new moderator's nickname comes back.
    pub fn leave(&mut self, id: u64) -> (res: Result<Leave, Error>)
        ensures
            match res {
                Err(e) => {
                    &&& e == Error::AlreadyLeft
                    &&& forall|k: int| 0 <= k < old(self).seats().len() ==> !holds(old(self).seats(), k, id)
                    &&& final(self).seats() == old(self).seats()
                    &&& final(self).moderator() == old(self).moderator()
                },
                Ok(l) => {
                    &&& l.index < old(self).seats().len()
                    &&& holds(old(self).seats(), l.index as int, id)
                    &&& forall|k: int| 0 <= k < l.index ==> !holds(old(self).seats(), k, id)
                    &&& final(self).seats() == old(self).seats().update(l.index as int, None)
                    &&& if l.index == old(self).moderator() {
                        &&& final(self).moderator() < final(self).seats().len()
                        &&& forall|k: int| 0 <= k < final(self).moderator() ==> #[trigger] final(self).seats()[k] is None
                        &&& (final(self).seats()[final(self).moderator() as int] is Some
                            || (final(self).moderator() == old(self).moderator()
                                && forall|k: int| 0 <= k < final(self).seats().len() ==> #[trigger] final(self).seats()[k] is None))
                        &&& l.moderator_nickname matches Some(n)
                            && n@ == nickname_at(final(self).seats(), final(self).moderator() as int)
                    } else {
                        &&& final(self).moderator() == old(self).moderator()
                        &&& l.moderator_nickname is None
                    }
                },
            },
    {
        let idx = match self.index(id) {
            Some(i) => i,
            None => { return Err(Error::AlreadyLeft); },
        };
        let (mut players, moderator, now_people) = self.take_parts();
        let ghost before = players@;
        proof { lemma_count_taken_update(before, idx as int, None); }
        players.set(idx, None);
        let now = now_people - 1;
        if idx != moderator {
            *self = Seats { players, moderator, now_people: now };
            return Ok(Leave { index: idx, moderator_nickname: None });
        }
        let mut k: usize = 0;
        while k < players.len() && players[k].is_none()
            invariant
                k <= players@.len(),
                forall|t: int| 0 <= t < k ==> #[trigger] players@[t] is None,
            decreases players@.len() - k,
        {
            k += 1;
        }
        let new_moderator = if k < players.len() { k } else { moderator };
        let nickname = match &players[new_moderator] {
            Some(p) => p.nickname.clone(),
            None => String::new(),
        };
        assert(nickname@ == nickname_at(players@, new_moderator as int));
        *self = Seats { players, moderator: new_moderator, now_people: now };
        Ok(Leave { index: idx, moderator_nickname: Some(nickname) })
    }

    /// The player list: for each seat, what it holds and the nickname (empty for an empty seat).
    pub fn player_list(&self, table: &MethodTable) -> (res: Packet)
        ensures
            res@ == packet_model(table.player_list, player_list_items(self.seats(), self.moderator(), self.seats().len())),
    {
        let mut items: Vec<BinaryData> = Vec::new();
        let n = self.players.len();
        let mut k: usize = 0;
        while k < n
            invariant
                n == self.seats().len(),
                k <= n,
                items@.map_values(|d: BinaryData| d@) == player_list_items(self.seats(), self.moderator(), k as nat),
            decreases n - k,
        {
            let ghost before = items@;
            let (kind, name) = match &self.players[k] {
                None => (PlayerType::Empty, String::new()),
                Some(p) => (if k == self.moderator { PlayerType::Moderator } else { PlayerType::Normal }, p.nickname.clone()),
            };
            items.push(BinaryData::from_i32(kind.code()));
            items.push(BinaryData::from_string(name));
            k += 1;
            assert(items@.map_values(|d: BinaryData| d@) =~= player_list_items(self.seats(), self.moderator(), k as nat));
        }
        Packet::from_data(table.player_list, items)
    }

    /// What the room tells about itself.
    pub fn info(&self, id: i32, option: &RoomOption, is_gaming: bool) -> (res: RoomInfo)
        ensures
            res.id == id,
            res.name@ == option.name@,
            res.max_people == option.max_people,
            res.now_people == count_taken(self.seats()),
            res.is_password == option.password is Some,
            res.is_gaming == is_gaming,
    {
        RoomInfo {
            id,
            name: option.name.clone(),
            max_people: option.max_people,
            now_people: self.now_people(),
            is_password: option.password.is_some(),
            is_gaming,
        }
    }

    /// Whether the moderator's seat is taken (`is_moderator` needs it).
    pub fn moderator_present(&self) -> (res: bool)
        ensures
            res == (self.moderator() < self.seats().len() && self.seats()[self.moderator() as int] is Some),
    {
        self.moderator < self.players.len() && self.players[self.moderator].is_some()
    }
}


/// How a chat message reaches a listener (`Null`: it does not).
#[derive(Debug, Clone, Copy, PartialEq, Eq, Structural)]
pub enum ChatType {
    Null,
    Normal,
    Dead,
    Mafia,
    Couple,
    System,
    Cult,
}

impl ChatType {
    /// The number that stands for the chat type on the wire.
    pub open spec fn spec_code(self) -> i32 {
        match self {
            ChatType::Null => 0,
            ChatType::Normal => 1,
            ChatType::Dead => 2,
            ChatType::Mafia => 3,
            ChatType::Couple => 4,
            ChatType::System => 5,
            ChatType::Cult => 6,
        }
    }

    #[verifier::when_used_as_spec(spec_code)]
    pub fn code(self) -> (res: i32)
        ensures
            res == self.spec_code(),
    {
        match self {
            ChatType::Null => 0,
            ChatType::Normal => 1,
            ChatType::Dead => 2,
            ChatType::Mafia => 3,
            ChatType::Couple => 4,
            ChatType::System => 5,
            ChatType::Cult => 6,
        }
    }
}

/// A player who joins and then looks up their seat finds the seat they got,
/// as long as they held no seat before.
pub proof fn lemma_join_then_index(s: Seq<Option<Player>>, i: int, p: Player)
    requires
        0 <= i < s.len(),
        s[i] is None,
        forall|k: int| 0 <= k < s.len() ==> !holds(s, k, p.id),
    ensures
        holds(s.update(i, Some(p)), i, p.id),
        forall|k: int| 0 <= k < i ==> !holds(s.update(i, Some(p)), k, p.id),
{
    assert forall|k: int| 0 <= k < i implies !holds(s.update(i, Some(p)), k, p.id) by {
        assert(s.update(i, Some(p))[k] == s[k]);
        assert(!holds(s, k, p.id));
    };
}

/// After a player leaves, their seat no longer holds them.
pub proof fn lemma_leave_frees_seat(s: Seq<Option<Player>>, i: int, id: u64)
    requires
        0 <= i < s.len(),
    ensures
        !holds(s.update(i, None), i, id),
        count_taken(s.update(i, None)) + (if s[i] is Some { 1nat } else { 0nat }) == count_taken(s),
{
    lemma_count_taken_update(s, i, None);
}

/// A packet whose one item is the text `text`.
pub fn text_packet(method: i32, text: String) -> (res: Packet)
    ensures
        res@ == packet_model(method, seq![encode_utf8(text@)]),
{
    let mut items: Vec<BinaryData> = Vec::new();
    items.push(BinaryData::from_string(text));
    let res = Packet::from_data(method, items);
    assert(res@.items =~= seq![encode_utf8(text@)]);
    res
}

/// A packet whose one item is the number `n`.
pub fn number_packet(method: i32, n: i32) -> (res: Packet)
    ensures
        res@ == packet_model(method, seq![be_bytes(n as int)]),
{
    let mut items: Vec<BinaryData> = Vec::new();
    items.push(BinaryData::from_i32(n));
    let res = Packet::from_data(method, items);
    assert(res@.items =~= seq![be_bytes(n as int)]);
    res
}

/// A chat message in a room without a game: heard by everyone as `Normal`.
pub fn lobby_chat_packet(table: &MethodTable, sender: String, message: String) -> (res: Packet)
    ensures
        res@ == packet_model(table.chat, seq![
            be_bytes(ChatType::Normal.spec_code() as int), encode_utf8(sender@), encode_utf8(message@)]),
{
    let mut items: Vec<BinaryData> = Vec::new();
    items.push(BinaryData::from_i32(ChatType::Normal.code()));
    items.push(BinaryData::from_string(sender));
    items.push(BinaryData::from_string(message));
    let res = Packet::from_data(table.chat, items);
    assert(res@.items =~= seq![be_bytes(ChatType::Normal.spec_code() as int), encode_utf8(sender@), encode_utf8(message@)]);
    res
}

/// The items that describe a room in the room list.
pub open spec fn room_list_entry(info: RoomInfo) -> Seq<Seq<u8>> {
    seq![
        be_bytes(info.id as int),
        encode_utf8(info.name@),
        be_bytes((info.now_people as i32) as int),
        be_bytes((info.max_people as i32) as int),
        be_bytes(if info.is_password { 1int } else { 0int }),
    ]
}

/// The room list items of the first `n` rooms of `infos`: the rooms with people in them.
pub open spec fn room_list_items(infos: Seq<RoomInfo>, n: nat) -> Seq<Seq<u8>>
    decreases n,
{
    if n == 0 {
        seq![]
    } else if infos[n - 1].now_people > 0 {
        room_list_items(infos, (n - 1) as nat) + room_list_entry(infos[n - 1])
    } else {
        room_list_items(infos, (n - 1) as nat)
    }
}

/// The player list has two items per seat, in seat order: the seat's kind
/// (0 for an empty seat, 2 for the moderator's seat, 1 for any other taken
/// seat) and the nickname sitting there (empty text for an empty seat).
pub proof fn lemma_player_list_layout(s: Seq<Option<Player>>, moderator: nat, n: nat)
    requires
        n <= s.len(),
    ensures
        player_list_items(s, moderator, n).len() == 2 * n,
        forall|k: int| 0 <= k < n ==> #[trigger] player_list_items(s, moderator, n)[2 * k] == be_bytes(
            if s[k] is None { 0int } else if k == moderator { 2int } else { 1int }),
        forall|k: int| 0 <= k < n ==> #[trigger] player_list_items(s, moderator, n)[2 * k + 1] == encode_utf8(
            match s[k] { Some(p) => p.nickname@, None => Seq::<char>::empty() }),
    decreases n,
{
    if n > 0 {
        lemma_player_list_layout(s, moderator, (n - 1) as nat);
        let prev = player_list_items(s, moderator, (n - 1) as nat);
        let items = player_list_items(s, moderator, n);
        assert forall|k: int| 0 <= k < n implies #[trigger] items[2 * k] == be_bytes(
            if s[k] is None { 0int } else if k == moderator { 2int } else { 1int }) by {
            if k < n - 1 {
                assert(items[2 * k] == prev[2 * k]);
            }
        };
        assert forall|k: int| 0 <= k < n implies #[trigger] items[2 * k + 1] == encode_utf8(
            match s[k] { Some(p) => p.nickname@, None => Seq::<char>::empty() }) by {
            if k < n - 1 {
                assert(items[2 * k + 1] == prev[2 * k + 1]);
            }
        };
    }
}

/// Only the moderator's seat is listed as the moderator: every other seat
/// is listed as taken (1) or empty (0).
pub proof fn lemma_player_list_one_moderator(s: Seq<Option<Player>>, moderator: nat, k: int)
    requires
        0 <= k < s.len(),
        k != moderator,
    ensures
        player_list_items(s, moderator, s.len())[2 * k] == be_bytes(if s[k] is None { 0int } else { 1int }),
{
    lemma_player_list_layout(s, moderator, s.len());
}

/// The room list entries only look at the first `n` rooms.
proof fn lemma_room_list_prefix(infos: Seq<RoomInfo>, more: Seq<RoomInfo>, n: nat)
    requires
        n <= infos.len(),
    ensures
        room_list_items(infos + more, n) == room_list_items(infos, n),
    decreases n,
{
    if n > 0 {
        lemma_room_list_prefix(infos, more, (n - 1) as nat);
        assert((infos + more)[n - 1] == infos[n - 1]);
    }
}

/// A room with nobody in it does not show in the room list.
pub proof fn lemma_room_list_skips_empty(infos: Seq<RoomInfo>, info: RoomInfo)
    requires
        info.now_people == 0,
    ensures
        room_list_items(infos.push(info), infos.len() + 1) == room_list_items(infos, infos.len()),
{
    lemma_room_list_prefix(infos, seq![info], infos.len());
    assert(infos + seq![info] =~= infos.push(info));
    assert(infos.push(info)[infos.len() as int] == info);
}

proof fn lemma_room_list_len(infos: Seq<RoomInfo>, n: nat)
    requires
        n <= infos.len(),
        forall|k: int| 0 <= k < n ==> #[trigger] infos[k].now_people > 0,
    ensures
        room_list_items(infos, n).len() == 5 * n,
    decreases n,
{
    if n > 0 {
        assert(infos[n - 1].now_people > 0);
        lemma_room_list_len(infos, (n - 1) as nat);
    }
}

proof fn lemma_room_list_at(infos: Seq<RoomInfo>, n: nat, k: int)
    requires
        n <= infos.len(),
        forall|i: int| 0 <= i < n ==> #[trigger] infos[i].now_people > 0,
        0 <= k < n,
    ensures
        room_list_items(infos, n)[5 * k] == be_bytes(infos[k].id as int),
        room_list_items(infos, n)[5 * k + 1] == encode_utf8(infos[k].name@),
        room_list_items(infos, n)[5 * k + 2] == be_bytes((infos[k].now_people as i32) as int),
        room_list_items(infos, n)[5 * k + 3] == be_bytes((infos[k].max_people as i32) as int),
        room_list_items(infos, n)[5 * k + 4] == be_bytes(if infos[k].is_password { 1int } else { 0int }),
    decreases n,
{
    let prev = room_list_items(infos, (n - 1) as nat);
    assert(infos[n - 1].now_people > 0);
    lemma_room_list_len(infos, (n - 1) as nat);
    assert(room_list_items(infos, n) == prev + room_list_entry(infos[n - 1]));
    if k < n - 1 {
        lemma_room_list_at(infos, (n - 1) as nat, k);
    }
}

/// Where every room has people in it, the room list holds five items per
/// room, in order: its id, its name, how many players it has now, how many
/// it seats, and 1 for a password room (0 otherwise).
pub proof fn lemma_room_list_layout(infos: Seq<RoomInfo>, n: nat)
    requires
        n <= infos.len(),
        forall|k: int| 0 <= k < n ==> #[trigger] infos[k].now_people > 0,
    ensures
        room_list_items(infos, n).len() == 5 * n,
        forall|k: int| 0 <= k < n ==> {
            &&& #[trigger] room_list_items(infos, n)[5 * k] == be_bytes(infos[k].id as int)
            &&& room_list_items(infos, n)[5 * k + 1] == encode_utf8(infos[k].name@)
            &&& room_list_items(infos, n)[5 * k + 2] == be_bytes((infos[k].now_people as i32) as int)
            &&& room_list_items(infos, n)[5 * k + 3] == be_bytes((infos[k].max_people as i32) as int)
            &&& room_list_items(infos, n)[5 * k + 4] == be_bytes(if infos[k].is_password { 1int } else { 0int })
        },
{
    lemma_room_list_len(infos, n);
    assert forall|k: int| 0 <= k < n implies {
        &&& #[trigger] room_list_items(infos, n)[5 * k] == be_bytes(infos[k].id as int)
        &&& room_list_items(infos, n)[5 * k + 1] == encode_utf8(infos[k].name@)
        &&& room_list_items(infos, n)[5 * k + 2] == be_bytes((infos[k].now_people as i32) as int)
        &&& room_list_items(infos, n)[5 * k + 3] == be_bytes((infos[k].max_people as i32) as int)
        &&& room_list_items(infos, n)[5 * k + 4] == be_bytes(if infos[k].is_password { 1int } else { 0int })
    } by {
        lemma_room_list_at(infos, n, k);
    };
}

/// The room list: each room of `infos` with people in it, in order.
pub fn room_list_packet(table: &MethodTable, infos: &Vec<RoomInfo>) -> (res: Packet)
    ensures
        res@ == packet_model(table.room_list, room_list_items(infos@, infos@.len())),
{
    let mut items: Vec<BinaryData> = Vec::new();
    let n = infos.len();
    let mut k: usize = 0;
    while k < n
        invariant
            n == infos@.len(),
            k <= n,
            items@.map_values(|d: BinaryData| d@) == room_list_items(infos@, k as nat),
        decreases n - k,
    {
        let info = &infos[k];
        if info.now_people > 0 {
            let ghost before = items@.map_values(|d: BinaryData| d@);
            items.push(BinaryData::from_i32(info.id));
            items.push(BinaryData::from_string(info.name.clone()));
            items.push(BinaryData::from_i32(info.now_people as i32));
            items.push(BinaryData::from_i32(info.max_people as i32));
            items.push(BinaryData::from_i32(if info.is_password { 1 } else { 0 }));
            assert(items@.map_values(|d: BinaryData| d@) =~= before + room_list_entry(*info));
        }
        k += 1;
    }
    Packet::from_data(table.room_list, items)
}

/// The answer to joining a room: its id, name, number of players and size.
pub fn join_room_packet(table: &MethodTable, info: &RoomInfo) -> (res: Packet)
    ensures
        res@ == packet_model(table.join_room, seq![
            be_bytes(info.id as int),
            encode_utf8(info.name@),
            be_bytes((info.now_people as i32) as int),
            be_bytes((info.max_people as i32) as int),
        ]),
{
    let mut items: Vec<BinaryData> = Vec::new();
    items.push(BinaryData::from_i32(info.id));
    items.push(BinaryData::from_string(info.name.clone()));
    items.push(BinaryData::from_i32(info.now_people as i32));
    items.push(BinaryData::from_i32(info.max_people as i32));
    let res = Packet::from_data(table.join_room, items);
    assert(res@.items =~= seq![
        be_bytes(info.id as int),
        encode_utf8(info.name@),
        be_bytes((info.now_people as i32) as int),
        be_bytes((info.max_people as i32) as int),
    ]);
    res
}

/// What a player is told about a try to join a room, before the room's
/// details: nothing when a seat was found, the "room is full" error when the
/// room is full; any other refusal ends the request.
pub fn join_refusal(methods: &MethodTable, strings: &StringTable, res: Result<(), Error>) -> (out: Result<Option<Packet>, Error>)
    ensures
        match res {
            Ok(()) => out matches Ok(None),
            Err(Error::RoomIsFull) => out matches Ok(Some(p))
                && p@ == packet_model(methods.error, seq![be_bytes(strings.room_is_full as int)]),
            Err(e) => out == Err::<Option<Packet>, Error>(e),
        },
{
    match res {
        Ok(()) => Ok(None),
        Err(Error::RoomIsFull) => Ok(Some(number_packet(methods.error, strings.room_is_full))),
        Err(e) => Err(e),
    }
}

/// Whether a game can start in a room with `now_people` players and
/// `game_running` telling whether one already runs: it needs four players
/// and no game running.
pub fn check_start(now_people: usize, game_running: bool) -> (res: Result<(), Error>)
    ensures
        now_people < 4 ==> res == Err::<(), Error>(Error::PlayerNotEnough),
        now_people >= 4 && game_running ==> res == Err::<(), Error>(Error::AlreadyStarted),
        now_people >= 4 && !game_running ==> res is Ok,
{
    if now_people < 4 {
        return Err(Error::PlayerNotEnough);
    }
    if game_running {
        return Err(Error::AlreadyStarted);
    }
    Ok(())
}

} // verus!
