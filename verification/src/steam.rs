//! Display names of players, by their Steam id.
//!
//! The names come from a remote service that is asked for at most a hundred
//! ids at a time. Nothing here talks to that service: [`SteamApi`] says what
//! to ask for and records what came back.

use std::collections::{HashMap, HashSet};
use crate::text::{decimal, decimal_value, parse_decimal, push_decimal};
use vstd::prelude::*;
use vstd::slice::slice_subrange;
use vstd::string::StringExecFns;

verus! {

/// The most ids that one request asks for.
pub const CHUNK_LEN: usize = 100;

/// One player, as the service describes them.
#[derive(Debug)]
pub struct Player {
    /// The Steam id, in decimal digits.
    pub steamid: String,
    /// The display name.
    pub personaname: String,
}

/// The players that the service knows among those that were asked for, in
/// any order.
#[derive(Debug)]
pub struct Response {
    pub players: Vec<Player>,
}

/// One answer of the service.
#[derive(Debug)]
pub struct SteamApiResponse {
    pub response: Response,
}

/// The display names learnt so far, and the key under which the service is
/// asked.
pub struct SteamApi {
    ids: HashMap<u64, String>,
    api_key: String,
}

impl View for SteamApi {
    type V = Map<u64, Seq<char>>;

    /// The display name recorded for each id.
    closed spec fn view(&self) -> Map<u64, Seq<char>> {
        self.ids@.map_values(|name: String| name@)
    }
}

/// The name given for an id of which nothing is recorded.
pub open spec fn unparsed_name() -> Seq<char> {
    "Unknown/Unparsed"@
}

/// The display name on record for `id`.
pub open spec fn name_of(names: Map<u64, Seq<char>>, id: u64) -> Seq<char> {
    if names.contains_key(id) {
        names[id]
    } else {
        unparsed_name()
    }
}

/// Ids in decimal digits, with a comma between one and the next.
pub open spec fn id_list(ids: Seq<u64>) -> Seq<char>
    decreases ids.len(),
{
    if ids.len() == 0 {
        Seq::empty()
    } else if ids.len() == 1 {
        decimal(ids[0] as nat)
    } else {
        id_list(ids.drop_last()) + seq![','] + decimal(ids.last() as nat)
    }
}

/// The address at which the service is asked, up to the key.
pub open spec fn url_head() -> Seq<char> {
    "http://api.steampowered.com/ISteamUser/GetPlayerSummaries/v0002/?key="@
}

/// What stands in the address between the key and the ids.
pub open spec fn url_ids() -> Seq<char> {
    "&steamids="@
}

/// The address under which the names of the players `ids` are asked for
/// with the key `key`.
pub open spec fn request_text(key: Seq<char>, ids: Seq<u64>) -> Seq<char> {
    url_head() + key + url_ids() + id_list(ids)
}

/// The id that a player is described with, if the text is one.
pub open spec fn answered_id(player: Player) -> Option<u64> {
    decimal_value(player.steamid@)
}

/// The names on record after the players of an answer were taken down one
/// after the other. A later player with the same id replaces an earlier one,
/// and a player whose id does not read as one is passed over.
pub open spec fn named(names: Map<u64, Seq<char>>, players: Seq<Player>) -> Map<u64, Seq<char>>
    decreases players.len(),
{
    if players.len() == 0 {
        names
    } else {
        let before = named(names, players.drop_last());
        match answered_id(players.last()) {
            Some(id) => before.insert(id, players.last().personaname@),
            None => before,
        }
    }
}

/// The ids that an answer describes a player for.
pub open spec fn answered(players: Seq<Player>) -> Set<u64> {
    Set::new(
        |id: u64|
            exists|i: int| 0 <= i < players.len() && answered_id(#[trigger] players[i]) == Some(id),
    )
}

/// The name given to an id that was asked for and that the answer passed
/// over.
pub open spec fn spoofed_name() -> Seq<char> {
    "Unknown/Spoofed"@
}

/// The names on record after one answer: those of its players, and
/// `Unknown/Spoofed` for each id that was asked for and that it describes no
/// player for, whatever was on record for that id before.
pub open spec fn recorded(names: Map<u64, Seq<char>>, chunk: Seq<u64>, players: Seq<Player>) -> Map<
    u64,
    Seq<char>,
> {
    let known = named(names, players);
    Map::new(
        |id: u64| known.contains_key(id) || chunk.contains(id),
        |id: u64|
            if chunk.contains(id) && !answered(players).contains(id) {
                spoofed_name()
            } else {
                known[id]
            },
    )
}

/// The number of requests that `len` ids take.
pub open spec fn chunks_in(len: nat) -> nat {
    (len + CHUNK_LEN - 1) as nat / CHUNK_LEN as nat
}

/// The ids of the request number `k`, counted from zero: up to a hundred ids
/// from the place `100 * k` on, and none beyond the end of the list.
pub open spec fn chunk_of(ids: Seq<u64>, k: int) -> Seq<u64> {
    let start = if CHUNK_LEN * k <= ids.len() {
        CHUNK_LEN * k
    } else {
        ids.len() as int
    };
    let end = if start + CHUNK_LEN <= ids.len() {
        start + CHUNK_LEN
    } else {
        ids.len() as int
    };
    ids.subrange(start, end)
}

/// The names on record after the answers to the first `count` requests for a
/// list of ids were taken down in turn. A request that has no answer, because
/// it failed or because the list of answers ends before it, changes nothing.
pub open spec fn after_answers(
    names: Map<u64, Seq<char>>,
    ids: Seq<u64>,
    answers: Seq<Option<SteamApiResponse>>,
    count: nat,
) -> Map<u64, Seq<char>>
    decreases count,
{
    if count == 0 {
        names
    } else {
        let k = count - 1;
        let before = after_answers(names, ids, answers, k as nat);
        if k < answers.len() && answers[k] is Some {
            recorded(before, chunk_of(ids, k), answers[k]->Some_0.response.players@)
        } else {
            before
        }
    }
}

impl SteamApi {
    /// The key under which the service is asked.
    pub closed spec fn key(&self) -> Seq<char> {
        self.api_key@
    }

    /// A record of names that is empty yet.
    pub fn new(api_key: String) -> (api: SteamApi)
        ensures
            api@ == Map::<u64, Seq<char>>::empty(),
            api.key() == api_key@,
    {
        let api = SteamApi { ids: HashMap::new(), api_key };
        assert(api@ =~= Map::<u64, Seq<char>>::empty());
        api
    }

    /// The display name on record for `id`, or `Unknown/Unparsed` where
    /// there is none.
    pub fn get(&self, id: u64) -> (name: &str)
        ensures
            name@ == name_of(self@, id),
    {
        if let Some(player) = self.ids.get(&id) {
            player.as_str()
        } else {
            "Unknown/Unparsed"
        }
    }
}

impl SteamApi {
    /// The address under which the names of the players in `chunk` are asked
    /// for: the key of this record, then the ids in decimal digits with
    /// commas between them.
    pub fn request_url(&self, chunk: &[u64]) -> (url: String)
        ensures
            url@ == request_text(self.key(), chunk@),
    {
        let mut url = "http://api.steampowered.com/ISteamUser/GetPlayerSummaries/v0002/?key="
            .to_owned();
        url.append(self.api_key.as_str());
        url.append("&steamids=");
        let ghost head = url@;
        let mut i: usize = 0;
        assert(chunk@.take(0) =~= Seq::<u64>::empty());
        while i < chunk.len()
            invariant
                i <= chunk.len(),
                head == url_head() + self.key() + url_ids(),
                url@ == head + id_list(chunk@.take(i as int)),
            decreases chunk.len() - i,
        {
            let ghost done = chunk@.take(i as int);
            let ghost next = chunk@.take(i + 1);
            proof {
                reveal_strlit(",");
                assert(next.drop_last() =~= done);
                assert(next.last() == chunk@[i as int]);
            }
            if i > 0 {
                url.append(",");
            }
            push_decimal(&mut url, chunk[i]);
            assert(url@ =~= head + id_list(next));
            i += 1;
        }
        assert(chunk@.take(i as int) =~= chunk@);
        url
    }
}

/// One more player at the end of an answer adds the id that the player is
/// described with, if there is one, to the ids that the answer describes a
/// player for.
pub proof fn lemma_answered_grows(players: Seq<Player>, player: Player, id: u64)
    ensures
        answered(players.push(player)).contains(id) <==> answered(players).contains(id)
            || answered_id(player) == Some(id),
{
    let more = players.push(player);
    if answered(more).contains(id) {
        let i = choose|i: int| 0 <= i < more.len() && answered_id(#[trigger] more[i]) == Some(id);
        if i < players.len() {
            assert(players[i] == more[i]);
        }
    }
    if answered(players).contains(id) {
        let i = choose|i: int|
            0 <= i < players.len() && answered_id(#[trigger] players[i]) == Some(id);
        assert(more[i] == players[i]);
    }
    if answered_id(player) == Some(id) {
        assert(more[players.len() as int] == player);
    }
}

/// The ids on record after an answer are those that were on record before
/// and those that the answer describes a player for.
pub proof fn lemma_answered_are_named(names: Map<u64, Seq<char>>, players: Seq<Player>, id: u64)
    ensures
        named(names, players).contains_key(id) <==> names.contains_key(id) || answered(
            players,
        ).contains(id),
    decreases players.len(),
{
    if players.len() > 0 {
        let front = players.drop_last();
        lemma_answered_are_named(names, front, id);
        lemma_answered_grows(front, players.last(), id);
        assert(players =~= front.push(players.last()));
    }
}

/// What one answer does to the record of one id. An id that the answer
/// describes a player for has the name of the last such player. An id that
/// was asked for and passed over is `Unknown/Spoofed`. Every other id is as
/// it was.
pub proof fn lemma_recorded_names(
    names: Map<u64, Seq<char>>,
    chunk: Seq<u64>,
    players: Seq<Player>,
    id: u64,
)
    ensures
        answered(players).contains(id) ==> recorded(names, chunk, players).contains_key(id)
            && recorded(names, chunk, players)[id] == named(names, players)[id],
        chunk.contains(id) && !answered(players).contains(id) ==> recorded(
            names,
            chunk,
            players,
        ).contains_key(id) && recorded(names, chunk, players)[id] == spoofed_name(),
        !chunk.contains(id) && !answered(players).contains(id) ==> (recorded(
            names,
            chunk,
            players,
        ).contains_key(id) <==> names.contains_key(id)) && (names.contains_key(id) ==> recorded(
            names,
            chunk,
            players,
        )[id] == names[id]),
{
    lemma_answered_are_named(names, players, id);
    if !answered(players).contains(id) {
        lemma_unanswered_keep_their_name(names, players, id);
    }
}

/// An id that an answer describes no player for keeps the name it had.
pub proof fn lemma_unanswered_keep_their_name(
    names: Map<u64, Seq<char>>,
    players: Seq<Player>,
    id: u64,
)
    requires
        !answered(players).contains(id),
    ensures
        named(names, players).contains_key(id) <==> names.contains_key(id),
        names.contains_key(id) ==> named(names, players)[id] == names[id],
    decreases players.len(),
{
    if players.len() > 0 {
        let front = players.drop_last();
        lemma_answered_grows(front, players.last(), id);
        assert(players =~= front.push(players.last()));
        lemma_unanswered_keep_their_name(names, front, id);
    }
}

impl SteamApi {
    /// Takes down one answer of the service to the request for the ids in
    /// `chunk`: the name of each player it describes, and `Unknown/Spoofed`
    /// for each id of the chunk that it passes over.
    pub fn record_players(&mut self, chunk: &[u64], players: &Vec<Player>)
        ensures
            final(self)@ == recorded(old(self)@, chunk@, players@),
            final(self).key() == old(self).key(),
    {
        let ghost names = self@;
        let mut recv_ids: HashSet<u64> = HashSet::new();
        let mut i: usize = 0;
        assert(players@.take(0) =~= Seq::<Player>::empty());
        assert(recv_ids@ =~= answered(players@.take(0)));
        while i < players.len()
            invariant
                i <= players.len(),
                self.key() == old(self).key(),
                self@ == named(names, players@.take(i as int)),
                recv_ids@ == answered(players@.take(i as int)),
            decreases players.len() - i,
        {
            let ghost done = players@.take(i as int);
            let ghost next = players@.take(i + 1);
            proof {
                assert(next =~= done.push(players@[i as int]));
                assert(next.drop_last() =~= done);
            }
            let player = &players[i];
            if let Some(id) = parse_decimal(player.steamid.as_str()) {
                self.ids.insert(id, player.personaname.clone());
                recv_ids.insert(id);
                assert(self@ =~= named(names, done).insert(id, player.personaname@));
            }
            proof {
                assert forall|id: u64| recv_ids@.contains(id) <==> answered(next).contains(id) by {
                    lemma_answered_grows(done, players@[i as int], id);
                }
                assert(recv_ids@ =~= answered(next));
            }
            i += 1;
        }
        assert(players@.take(i as int) =~= players@);
        let mut j: usize = 0;
        proof {
            assert(chunk@.take(0) =~= Seq::<u64>::empty());
            assert(self@ =~= recorded(names, chunk@.take(0), players@));
        }
        while j < chunk.len()
            invariant
                j <= chunk.len(),
                self.key() == old(self).key(),
                recv_ids@ == answered(players@),
                self@ == recorded(names, chunk@.take(j as int), players@),
            decreases chunk.len() - j,
        {
            let ghost done = chunk@.take(j as int);
            let ghost next = chunk@.take(j + 1);
            let id = chunk[j];
            proof {
                assert(next =~= done.push(id));
                assert forall|other: u64| next.contains(other) <==> done.contains(other) || other
                    == id by {
                    if done.contains(other) {
                        let k = choose|k: int| 0 <= k < done.len() && done[k] == other;
                        assert(next[k] == other);
                    }
                    if other == id {
                        assert(next[j as int] == other);
                    }
                }
                lemma_answered_are_named(names, players@, id);
            }
            let ghost so_far = self@;
            if !recv_ids.contains(&id) {
                self.ids.insert(id, "Unknown/Spoofed".to_owned());
                assert(self@ =~= so_far.insert(id, spoofed_name()));
            }
            assert(self@ =~= recorded(names, next, players@));
            j += 1;
        }
        assert(chunk@.take(j as int) =~= chunk@);
    }
}

/// The requests for a list of ids ask for every id once and in order: each
/// request but the last for a full hundred, the last for what is left, which
/// is at least one id.
pub proof fn lemma_chunks_cover(ids: Seq<u64>, k: int)
    requires
        0 <= k < chunks_in(ids.len()),
    ensures
        0 < chunk_of(ids, k).len() <= CHUNK_LEN,
        k + 1 < chunks_in(ids.len()) ==> chunk_of(ids, k).len() == CHUNK_LEN,
        ids.take(CHUNK_LEN * k) + chunk_of(ids, k) == ids.take(
            CHUNK_LEN * k + chunk_of(ids, k).len(),
        ),
        k + 1 == chunks_in(ids.len()) ==> CHUNK_LEN * k + chunk_of(ids, k).len() == ids.len(),
{
    assert(ids.take(CHUNK_LEN * k) + chunk_of(ids, k) =~= ids.take(
        CHUNK_LEN * k + chunk_of(ids, k).len(),
    ));
}

impl SteamApi {
    /// The number of requests that `len` ids take, a hundred ids to each.
    pub fn chunk_count(len: usize) -> (count: usize)
        ensures
            count == chunks_in(len as nat),
    {
        if len % CHUNK_LEN == 0 {
            len / CHUNK_LEN
        } else {
            len / CHUNK_LEN + 1
        }
    }

    /// The ids that request number `k` asks for. It is empty from the
    /// number of requests on.
    pub fn chunk(id_list: &[u64], k: usize) -> (ids: &[u64])
        ensures
            ids@ == chunk_of(id_list@, k as int),
    {
        let len = id_list.len();
        if k > len / CHUNK_LEN {
            return slice_subrange(id_list, len, len);
        }
        let start = k * CHUNK_LEN;
        let end = if len - start >= CHUNK_LEN {
            start + CHUNK_LEN
        } else {
            len
        };
        slice_subrange(id_list, start, end)
    }

    /// Takes down the answers to the requests for a list of ids, one request
    /// after the other: `answers[k]` is what came back for the ids of
    /// [`SteamApi::chunk`] number `k`, or `None` where nothing usable came
    /// back, and that request then changes nothing.
    pub fn add_ids(&mut self, id_list: &[u64], answers: &Vec<Option<SteamApiResponse>>)
        ensures
            final(self)@ == after_answers(
                old(self)@,
                id_list@,
                answers@,
                chunks_in(id_list@.len()),
            ),
            final(self).key() == old(self).key(),
    {
        let count = SteamApi::chunk_count(id_list.len());
        let ghost names = self@;
        let mut k: usize = 0;
        while k < count
            invariant
                k <= count,
                self.key() == old(self).key(),
                self@ == after_answers(names, id_list@, answers@, k as nat),
            decreases count - k,
        {
            if k < answers.len() {
                if let Some(answer) = &answers[k] {
                    self.record_players(SteamApi::chunk(id_list, k), &answer.response.players);
                }
            }
            k += 1;
        }
    }
}

impl Default for SteamApi {
    /// A record of names that is empty, with an empty key.
    fn default() -> (api: SteamApi)
        ensures
            api@ == Map::<u64, Seq<char>>::empty(),
            api.key() == Seq::<char>::empty(),
    {
        SteamApi::new(String::new())
    }
}

} // verus!
