use vstd::prelude::*;

use vstd::utf8::encode_utf8;

use crate::method::MethodTable;
use crate::packet::binarydata::BinaryData;
use crate::packet::packet::PacketModel;
use crate::packet::utils::be_bytes;
use crate::packet::Packet;
use crate::room::room::ChatType;
use crate::text::{decimal, push_decimal};

use super::classic_game_status::Status;
use super::error::Error;
use super::event::Event;
use super::job::job::{ChatFn, Job, PlayerJob};
use super::job::option::HandType;
use super::job::JobList;
use super::random::{new_shuffler, seeded_rng, shuffle_jobs};
use super::time::Time;
use super::GameString;

verus! {

broadcast use vstd::seq_lib::group_to_multiset_ensures;

/// The jobs of a room of `n` players are the first `n` of these, with each
/// `Special` and `Assist` later replaced by a special or an assisting job.
pub open spec fn job_template() -> Seq<JobList> {
    seq![
        JobList::Mafia, JobList::Police, JobList::Doctor, JobList::Special,
        JobList::Special,
        JobList::Assist,
        JobList::Special,
        JobList::Mafia,
        JobList::Cult,
        JobList::Special,
        JobList::Mafia,
        JobList::Special,
    ]
}

/// How many special jobs a room of `n` players gets.
pub open spec fn special_count(n: nat) -> nat {
    if n <= 3 { 0 }
    else if n == 4 { 1 }
    else if n <= 6 { 2 }
    else if n <= 9 { 3 }
    else if n <= 11 { 4 }
    else { 5 }
}

/// The special jobs.
pub open spec fn special_jobs() -> Seq<JobList> {
    seq![
        JobList::Couple, JobList::Soldier, JobList::Politician, JobList::Shaman,
        JobList::Reporter, JobList::Gangster, JobList::Ghoul, JobList::Terrorist,
        JobList::Detective, JobList::Priest,
    ]
}

/// The special jobs to draw from: without the couple when only one special
/// job is drawn (a lone lover makes no sense).
pub open spec fn special_pool(n: nat) -> Seq<JobList> {
    if special_count(n) == 1 {
        special_jobs().update(0, JobList::Priest).drop_last()
    } else {
        special_jobs()
    }
}

/// The assisting jobs.
pub open spec fn assist_jobs() -> Seq<JobList> {
    seq![JobList::Spy, JobList::Beastman, JobList::Madam, JobList::Thief]
}

/// `a` holds the same jobs as `b`, each as often.
pub open spec fn is_perm(a: Seq<JobList>, b: Seq<JobList>) -> bool {
    a.to_multiset() == b.to_multiset()
}

/// How often `j` occurs in `s`.
pub open spec fn count_in(s: Seq<JobList>, j: JobList) -> nat
    decreases s.len(),
{
    if s.len() == 0 {
        0
    } else {
        (if s[0] == j { 1nat } else { 0nat }) + count_in(s.drop_first(), j)
    }
}

/// The first index of `s` that does not hold the couple (`s.len()` if none).
pub open spec fn first_non_couple(s: Seq<JobList>) -> nat
    decreases s.len(),
{
    if s.len() == 0 || s[0] != JobList::Couple {
        0
    } else {
        1 + first_non_couple(s.drop_first())
    }
}

/// Lovers come in pairs: where the drawn jobs hold the couple, the first
/// other job becomes a couple too.
pub open spec fn pair_couple(s: Seq<JobList>) -> Seq<JobList> {
    if s.contains(JobList::Couple) && first_non_couple(s) < s.len() {
        s.update(first_non_couple(s) as int, JobList::Couple)
    } else {
        s
    }
}

/// `s` is the special jobs that come out of drawing the first of `q` (the
/// shuffled pool) for a room of `n`: as drawn, or, where a couple was drawn,
/// paired and shuffled again.
pub open spec fn special_outcome(n: nat, q: Seq<JobList>, s: Seq<JobList>) -> bool {
    let drawn = q.take(special_count(n) as int);
    if drawn.contains(JobList::Couple) {
        is_perm(s, pair_couple(drawn))
    } else {
        s == drawn
    }
}

/// The jobs of `p` with each `Special` replaced by the next of `s` and each
/// `Assist` by the next of `a`.
pub open spec fn fill_jobs(p: Seq<JobList>, s: Seq<JobList>, a: Seq<JobList>) -> Seq<JobList>
    decreases p.len(),
{
    if p.len() == 0 {
        seq![]
    } else if p[0] == JobList::Special {
        seq![s[0]] + fill_jobs(p.drop_first(), s.drop_first(), a)
    } else if p[0] == JobList::Assist {
        seq![a[0]] + fill_jobs(p.drop_first(), s, a.drop_first())
    } else {
        seq![p[0]] + fill_jobs(p.drop_first(), s, a)
    }
}

/// `v` is a possible job list for a room of `n` players: the room's
/// template in some order, its special jobs drawn from a shuffled pool, its
/// assisting job from a shuffled list.
pub open spec fn is_job_assignment(n: nat, v: Seq<JobList>) -> bool {
    exists|p: Seq<JobList>, q: Seq<JobList>, s: Seq<JobList>, a: Seq<JobList>|
        #![trigger fill_jobs(p, s, a), is_perm(q, special_pool(n))]
        is_perm(p, job_template().take(n as int))
        && is_perm(q, special_pool(n))
        && special_outcome(n, q, s)
        && is_perm(a, assist_jobs())
        && v == fill_jobs(p, s, a)
}

pub proof fn lemma_perm_len(a: Seq<JobList>, b: Seq<JobList>)
    requires
        is_perm(a, b),
    ensures
        a.len() == b.len(),
{
    assert(a.len() == a.to_multiset().len());
    assert(b.len() == b.to_multiset().len());
}

pub proof fn lemma_count_in_multiset(s: Seq<JobList>, j: JobList)
    ensures
        count_in(s, j) == s.to_multiset().count(j),
    decreases s.len(),
{
    if s.len() > 0 {
        lemma_count_in_multiset(s.drop_first(), j);
        assert(s.remove(0) =~= s.drop_first());
        assert(s.to_multiset().count(s[0]) > 0) by {
            assert(s.contains(s[0]));
        };
    }
}

fn template_vec(n: usize) -> (res: Vec<JobList>)
    requires
        n <= 12,
    ensures
        res@ == job_template().take(n as int),
{
    let all = vec![
        JobList::Mafia, JobList::Police, JobList::Doctor, JobList::Special,
        JobList::Special,
        JobList::Assist,
        JobList::Special,
        JobList::Mafia,
        JobList::Cult,
        JobList::Special,
        JobList::Mafia,
        JobList::Special,
    ];
    assert(all@ =~= job_template());
    let mut res: Vec<JobList> = Vec::new();
    let mut i: usize = 0;
    while i < n
        invariant
            i <= n <= 12,
            all@ == job_template(),
            res@ == job_template().take(i as int),
        decreases n - i,
    {
        res.push(all[i]);
        i += 1;
        assert(res@ =~= job_template().take(i as int));
    }
    res
}

fn special_count_exec(n: usize) -> (res: usize)
    ensures
        res == special_count(n as nat),
{
    if n <= 3 { 0 }
    else if n == 4 { 1 }
    else if n <= 6 { 2 }
    else if n <= 9 { 3 }
    else if n <= 11 { 4 }
    else { 5 }
}

fn contains_couple(s: &Vec<JobList>) -> (res: bool)
    ensures
        res == s@.contains(JobList::Couple),
{
    let mut i: usize = 0;
    while i < s.len()
        invariant
            i <= s@.len(),
            forall|k: int| 0 <= k < i ==> s@[k] != JobList::Couple,
        decreases s@.len() - i,
    {
        if s[i] == JobList::Couple {
            return true;
        }
        i += 1;
    }
    false
}

/// Pairs the lovers among the drawn special jobs (see `pair_couple`).
pub fn pair_couples(s: &mut Vec<JobList>)
    ensures
        final(s)@ == pair_couple(old(s)@),
{
    if !contains_couple(s) {
        return;
    }
    let mut i: usize = 0;
    assert(s@.skip(0) =~= s@);
    while i < s.len()
        invariant
            i <= s@.len(),
            s@ == old(s)@,
            s@.contains(JobList::Couple),
            forall|k: int| 0 <= k < i ==> s@[k] == JobList::Couple,
            first_non_couple(s@) == i + first_non_couple(s@.skip(i as int)),
        decreases s@.len() - i,
    {
        assert(s@.skip(i as int).drop_first() =~= s@.skip(i + 1));
        if s[i] != JobList::Couple {
            assert(s@.skip(i as int)[0] == s@[i as int]);
            assert(first_non_couple(s@.skip(i as int)) == 0);
            s.set(i, JobList::Couple);
            return;
        }
        i += 1;
    }
    assert(s@.skip(i as int).len() == 0);
}

/// Replaces each `Special` of `p` by the next of `s` and each `Assist` by
/// the next of `a`: the job list dealt from the shuffled template `p`, the
/// drawn special jobs `s` and the shuffled assisting jobs `a`.
pub fn fill_job_list(p: &Vec<JobList>, s: &Vec<JobList>, a: &Vec<JobList>) -> (res: Vec<JobList>)
    requires
        count_in(p@, JobList::Special) <= s@.len(),
        count_in(p@, JobList::Assist) <= a@.len(),
    ensures
        res@ == fill_jobs(p@, s@, a@),
{
    let mut res: Vec<JobList> = Vec::new();
    let mut i: usize = 0;
    let mut si: usize = 0;
    let mut ai: usize = 0;
    let slen = s.len();
    let alen = a.len();
    assert(p@.skip(0) =~= p@);
    assert(s@.skip(0) =~= s@);
    assert(a@.skip(0) =~= a@);
    while i < p.len()
        invariant
            i <= p@.len(),
            slen == s@.len(),
            alen == a@.len(),
            si <= s@.len(),
            ai <= a@.len(),
            count_in(p@.skip(i as int), JobList::Special) <= s@.len() - si,
            count_in(p@.skip(i as int), JobList::Assist) <= a@.len() - ai,
            fill_jobs(p@, s@, a@) == res@ + fill_jobs(p@.skip(i as int), s@.skip(si as int), a@.skip(ai as int)),
        decreases p@.len() - i,
    {
        let ghost rest = p@.skip(i as int);
        assert(rest.drop_first() =~= p@.skip(i + 1));
        let j = p[i];
        assert(rest[0] == j);
        if j == JobList::Special {
            assert(count_in(rest, JobList::Special) == 1 + count_in(rest.drop_first(), JobList::Special));
            assert(s@.skip(si as int).drop_first() =~= s@.skip(si + 1));
            res.push(s[si]);
            si += 1;
        } else if j == JobList::Assist {
            assert(count_in(rest, JobList::Assist) == 1 + count_in(rest.drop_first(), JobList::Assist));
            assert(a@.skip(ai as int).drop_first() =~= a@.skip(ai + 1));
            res.push(a[ai]);
            ai += 1;
        } else {
            res.push(j);
        }
        i += 1;
        proof {
            let prev = res@.drop_last();
            assert(prev + (seq![res@.last()] + fill_jobs(p@.skip(i as int), s@.skip(si as int), a@.skip(ai as int)))
                =~= res@ + fill_jobs(p@.skip(i as int), s@.skip(si as int), a@.skip(ai as int)));
        }
    }
    assert(p@.skip(i as int) =~= seq![]);
    assert(res@ + seq![] =~= res@);
    res
}

/// Draws the jobs of a room of `people_cnt` players at random: the first
/// `people_cnt` jobs of the template in random order, each `Special` a
/// special job drawn from a shuffled pool (lovers always in pairs, none in a
/// room of four), each `Assist` an assisting job from a shuffled list.
pub fn initialize_job(people_cnt: usize) -> (res: Result<Vec<JobList>, Error>)
    requires
        1 <= people_cnt <= 12,
    ensures
        res matches Ok(v) ==> is_job_assignment(people_cnt as nat, v@),
        res matches Err(e) ==> e == Error::RandomSource || e == Error::Shuffle,
{
    let mut rng = match seeded_rng() {
        Some(rng) => rng,
        None => return Err(Error::RandomSource),
    };
    let mut irs = new_shuffler();

    let mut job_arr = template_vec(people_cnt);
    let ghost template = job_arr@;
    if !shuffle_jobs(&mut irs, &mut job_arr, &mut rng) {
        return Err(Error::Shuffle);
    }

    let special_cnt = special_count_exec(people_cnt);
    let mut special_arr = vec![
        JobList::Couple, JobList::Soldier, JobList::Politician, JobList::Shaman,
        JobList::Reporter, JobList::Gangster, JobList::Ghoul, JobList::Terrorist,
        JobList::Detective, JobList::Priest,
    ];
    assert(special_arr@ =~= special_jobs());
    if special_cnt == 1 {
        let last = special_arr[special_arr.len() - 1];
        special_arr.set(0, last);
        special_arr.pop();
    }
    assert(special_arr@ =~= special_pool(people_cnt as nat));
    if !shuffle_jobs(&mut irs, &mut special_arr, &mut rng) {
        return Err(Error::Shuffle);
    }
    let ghost q = special_arr@;
    proof { lemma_perm_len(special_arr@, special_pool(people_cnt as nat)); }
    special_arr.truncate(special_cnt);
    let ghost drawn = special_arr@;
    assert(drawn =~= q.take(special_cnt as int));

    if contains_couple(&special_arr) {
        pair_couples(&mut special_arr);
        let ghost paired = special_arr@;
        if !shuffle_jobs(&mut irs, &mut special_arr, &mut rng) {
            return Err(Error::Shuffle);
        }
        proof { lemma_perm_len(special_arr@, paired); }
        assert(is_perm(special_arr@, pair_couple(drawn)));
    } else {
        assert(special_arr@ == drawn);
    }
    assert(special_outcome(people_cnt as nat, q, special_arr@));
    assert(special_arr@.len() == special_cnt);

    let mut assist_arr = vec![JobList::Spy, JobList::Beastman, JobList::Madam, JobList::Thief];
    assert(assist_arr@ =~= assist_jobs());
    if !shuffle_jobs(&mut irs, &mut assist_arr, &mut rng) {
        return Err(Error::Shuffle);
    }
    proof { lemma_perm_len(assist_arr@, assist_jobs()); }

    proof {
        super::assignment::lemma_template_counts_all(people_cnt as nat);
        lemma_count_in_multiset(job_arr@, JobList::Special);
        lemma_count_in_multiset(template, JobList::Special);
        lemma_count_in_multiset(job_arr@, JobList::Assist);
        lemma_count_in_multiset(template, JobList::Assist);
    }
    let res = fill_job_list(&job_arr, &special_arr, &assist_arr);
    proof {
        let n = people_cnt as nat;
        assert(is_perm(job_arr@, job_template().take(n as int)));
        assert(is_perm(q, special_pool(n)));
        assert(is_perm(assist_arr@, assist_jobs()));
        assert(fill_jobs(job_arr@, special_arr@, assist_arr@) == res@);
    }
    Ok(res)
}

/// What the game asks of the server after an event.
pub enum GameAction {
    /// Send the packet to every seated player.
    Broadcast(Packet),
    /// Send the packet to the player at the seat.
    SendTo(usize, Packet),
    /// Hand the event back to the game after the current one.
    Schedule(Event),
    /// Run the phase timer for the seconds, then hand back `TimeChanged` of the phase.
    RunTimer(i32, Time),
    /// Add the seconds (take them away when negative) to the running timer.
    AdjustTimer(i32),
}

/// Whether the game goes on after an event.
#[derive(Debug, Clone, Copy, PartialEq, Eq, Structural)]
pub enum Flow {
    Continue,
    /// The game is over.
    Stop,
    /// The game stops with an error.
    Fail(Error),
}

/// `a` sends a packet holding `m` to every seated player.
pub open spec fn sends_all(a: GameAction, m: PacketModel) -> bool {
    a matches GameAction::Broadcast(p) && p@ == m
}

/// `a` sends a packet holding `m` to the player at `seat`.
pub open spec fn sends_to(a: GameAction, seat: int, m: PacketModel) -> bool {
    a matches GameAction::SendTo(k, p) && k == seat && p@ == m
}

pub open spec fn packet_of(method: i32, items: Seq<Seq<u8>>) -> PacketModel {
    PacketModel { method, items }
}

/// The name the game uses for an empty seat: "플레이어 " and the seat's number from 1.
pub open spec fn seat_label(i: nat) -> Seq<char> {
    "플레이어 "@ + decimal(i + 1)
}

/// The nickname of seat `i`: its player's, or the seat's label when empty.
pub open spec fn nickname_of(p: Option<String>, i: nat) -> Seq<char> {
    match p {
        Some(s) => s@,
        None => seat_label(i),
    }
}

/// How many seats are taken.
pub open spec fn count_present(players: Seq<Option<String>>) -> nat
    decreases players.len(),
{
    if players.len() == 0 {
        0
    } else {
        count_present(players.drop_last()) + if players.last() is Some { 1nat } else { 0nat }
    }
}

/// The job each seat gets: taken seats get the jobs of `jobs` in order (a
/// citizen once they run out), empty seats none.
pub open spec fn assign_seats(players: Seq<Option<String>>, jobs: Seq<JobList>) -> Seq<Option<JobList>>
    decreases players.len(),
{
    if players.len() == 0 {
        seq![]
    } else if players[0] is Some {
        seq![Some(if jobs.len() > 0 { jobs[0] } else { JobList::Citizen })]
            + assign_seats(players.drop_first(), if jobs.len() > 0 { jobs.drop_first() } else { jobs })
    } else {
        seq![None] + assign_seats(players.drop_first(), jobs)
    }
}

/// The text of a word of a skill message.
pub open spec fn word_text(w: GameString, nicknames: Seq<Seq<char>>) -> Seq<char> {
    match w {
        GameString::Nickname(i) => nicknames[i as int],
        GameString::Jobname(j) => j.spec_name(),
    }
}

/// The seats that hear a chat under `rule`, among the first `n`, with how they hear it.
pub open spec fn chat_targets(
    rule: ChatFn,
    players: Seq<Option<String>>,
    jobs: Seq<Option<PlayerJob>>,
    status: Seq<Status>,
    n: nat,
) -> Seq<(int, ChatType)>
    decreases n,
{
    if n == 0 {
        seq![]
    } else {
        let k = n - 1;
        let rest = chat_targets(rule, players, jobs, status, (n - 1) as nat);
        if players[k] is Some && jobs[k] is Some
            && rule.spec_apply(jobs[k]->0.spec_option(), status[k]) != ChatType::Null {
            rest.push((k, rule.spec_apply(jobs[k]->0.spec_option(), status[k])))
        } else {
            rest
        }
    }
}

/// The seats told their job at the start, among the first `n`, with the job.
pub open spec fn job_targets(players: Seq<Option<String>>, jl: Seq<Option<JobList>>, n: nat) -> Seq<(int, JobList)>
    decreases n,
{
    if n == 0 {
        seq![]
    } else {
        let k = n - 1;
        let rest = job_targets(players, jl, (n - 1) as nat);
        if players[k] is Some && jl[k] is Some {
            rest.push((k, jl[k]->0))
        } else {
            rest
        }
    }
}

/// The job object of a seat given the job `o`: every job is played as a mafia.
pub open spec fn job_object(o: Option<JobList>) -> Option<PlayerJob> {
    match o {
        Some(_) => Some(PlayerJob::Mafia(super::job::mafia::mafia::Mafia)),
        None => None,
    }
}

proof fn lemma_assign_seats_len(players: Seq<Option<String>>, jobs: Seq<JobList>)
    ensures
        assign_seats(players, jobs).len() == players.len(),
        forall|k: int| 0 <= k < players.len() ==> (#[trigger] assign_seats(players, jobs)[k] is Some <==> players[k] is Some),
    decreases players.len(),
{
    if players.len() > 0 {
        let rest_jobs = if players[0] is Some && jobs.len() > 0 { jobs.drop_first() } else { jobs };
        lemma_assign_seats_len(players.drop_first(), rest_jobs);
        let a = assign_seats(players, jobs);
        assert forall|k: int| 0 <= k < players.len() implies (#[trigger] a[k] is Some <==> players[k] is Some) by {
            if k > 0 {
                assert(a[k] == assign_seats(players.drop_first(), rest_jobs)[k - 1]);
                assert(players[k] == players.drop_first()[k - 1]);
            }
        };
    }
}

/// The state of a classic game between events.
pub struct ClassicGameState {
    pub table: MethodTable,
    /// The nickname of each seat, fixed when the game was made.
    pub nicknames: Vec<String>,
    /// The job each seat was given (empty before the start).
    pub job_list: Vec<Option<JobList>>,
    /// The job object each seat plays (empty before the start).
    pub jobs: Vec<Option<PlayerJob>>,
    pub status: Vec<Status>,
    pub current_time: Time,
}

impl ClassicGameState {
    pub open spec fn nickname_views(&self) -> Seq<Seq<char>> {
        self.nicknames@.map_values(|s: String| s@)
    }

    /// The state is laid out for a room whose seats are `players`.
    pub open spec fn wf(&self, players: Seq<Option<String>>) -> bool {
        &&& self.status@.len() == players.len()
        &&& self.nicknames@.len() == players.len()
        &&& self.job_list@.len() == self.jobs@.len()
        &&& (self.jobs@.len() == 0 || self.jobs@.len() == players.len())
    }

    /// Everything but the statuses and the time is as in `old`.
    pub open spec fn same_setup(&self, old: &Self) -> bool {
        &&& self.table == old.table
        &&& self.nicknames@ == old.nicknames@
        &&& self.job_list@ == old.job_list@
        &&& self.jobs@ == old.jobs@
    }

    /// Nothing changed.
    pub open spec fn unchanged(&self, old: &Self) -> bool {
        &&& self.same_setup(old)
        &&& self.status@ == old.status@
        &&& self.current_time == old.current_time
    }

    /// After `TimeChanged(t)`: the phase is `t`, every status is reset for
    /// it, everyone is told the phase and its length, the mafia acts at
    /// nightfall, and the phase's timer runs.
    pub open spec fn time_changed_ok(old: &Self, new: &Self, t: Time, acts: Seq<GameAction>) -> bool {
        &&& new.same_setup(old)
        &&& new.current_time == t
        &&& new.status@ == old.status@.map_values(|s: Status| s.after_reset(t))
        &&& acts.len() == if t == Time::Night { 3int } else { 2int }
        &&& sends_all(acts[0], packet_of(old.table.time_changed,
                seq![be_bytes(t.spec_code() as int), be_bytes(t.spec_length() as int)]))
        &&& t == Time::Night ==> acts[1] == GameAction::Schedule(Event::MafiaKill)
        &&& acts.last() == GameAction::RunTimer(t.spec_length(), t.spec_next())
    }

    /// After `IncreaseTime(idx)` (`increase`) or `DecreaseTime(idx)`: by day,
    /// once a day per player, the timer moves by 15 seconds and everyone is
    /// told who moved it; otherwise nothing happens.
    pub open spec fn modify_time_ok(old: &Self, new: &Self, idx: usize, increase: bool, acts: Seq<GameAction>) -> bool {
        if old.current_time != Time::Day || old.status@[idx as int].modified_time {
            new.unchanged(old) && acts.len() == 0
        } else {
            &&& new.same_setup(old)
            &&& new.current_time == old.current_time
            &&& new.status@ == old.status@.update(idx as int, Status { modified_time: true, ..old.status@[idx as int] })
            &&& acts.len() == 2
            &&& acts[0] == GameAction::AdjustTimer(if increase { 15i32 } else { -15i32 })
            &&& sends_all(acts[1], packet_of(
                    if increase { old.table.increase_time } else { old.table.decrease_time },
                    seq![encode_utf8(old.nickname_views()[idx as int])]))
        }
    }

    /// The chat rule of the player at `idx` now.
    pub open spec fn chat_rule(&self, idx: usize) -> ChatFn {
        self.jobs@[idx as int]->0.spec_chat(self.current_time, self.status@[idx as int])
    }

    /// After `Chat(idx, msg)`: each seated player with a job who hears the
    /// message under the speaker's chat rule gets it, with how they hear it
    /// and the speaker's current nickname.
    pub open spec fn chat_ok(old: &Self, new: &Self, idx: usize, msg: Seq<char>, players: Seq<Option<String>>, acts: Seq<GameAction>) -> bool {
        let targets = chat_targets(old.chat_rule(idx), players, old.jobs@, old.status@, players.len());
        &&& new.unchanged(old)
        &&& acts.len() == targets.len()
        &&& forall|i: int| 0 <= i < targets.len() ==> sends_to(#[trigger] acts[i], targets[i].0, packet_of(old.table.chat,
                seq![be_bytes(targets[i].1.spec_code() as int), encode_utf8(players[idx as int]->0@), encode_utf8(msg)]))
    }

    /// After `Skill(id, words, receiver)`: a seated receiver gets the skill
    /// message with its words spelled out.
    pub open spec fn skill_ok(old: &Self, new: &Self, id: i32, words: Seq<GameString>, receiver: usize, players: Seq<Option<String>>, acts: Seq<GameAction>) -> bool {
        &&& new.unchanged(old)
        &&& if players[receiver as int] is Some {
            &&& acts.len() == 1
            &&& sends_to(acts[0], receiver as int, packet_of(old.table.skill,
                    seq![be_bytes(id as int)] + words.map_values(|w: GameString| encode_utf8(word_text(w, old.nickname_views())))))
        } else {
            acts.len() == 0
        }
    }

    /// After `Memo(my, target)`: a seated player `my` is told the seat and job of `target`.
    pub open spec fn memo_ok(old: &Self, new: &Self, my: usize, target: usize, players: Seq<Option<String>>, acts: Seq<GameAction>) -> bool {
        &&& new.unchanged(old)
        &&& if players[my as int] is Some {
            &&& acts.len() == 1
            &&& sends_to(acts[0], my as int, packet_of(old.table.memo, seq![
                    be_bytes((target as i32) as int),
                    be_bytes(old.jobs@[target as int]->0.spec_option().job_id.spec_code() as int)]))
        } else {
            acts.len() == 0
        }
    }

    /// Whether the player at `my` pointing at `target` takes effect.
    pub open spec fn hand_takes_effect(&self, my: usize, target: usize) -> bool {
        &&& self.jobs@[target as int] is Some
        &&& {
            let mj = self.jobs@[my as int]->0;
            let valid = mj.spec_is_valid_hand(self.current_time, self.status@[target as int]);
            match mj.spec_option().hand_type {
                HandType::FixedHand => self.status@[my as int].hand == usize::MAX && valid,
                HandType::MovingHand => valid,
                _ => false,
            }
        }
    }

    /// After `Hand(my, target)`: where it takes effect, the player's hand is
    /// set on `target` and the player is told; a fixed hand also hands the
    /// job's events back to the game. Otherwise nothing happens.
    pub open spec fn hand_ok(old: &Self, new: &Self, my: usize, target: usize, acts: Seq<GameAction>) -> bool {
        if !old.hand_takes_effect(my, target) {
            new.unchanged(old) && acts.len() == 0
        } else {
            let mj = old.jobs@[my as int]->0;
            &&& new.same_setup(old)
            &&& new.current_time == old.current_time
            &&& new.status@ == old.status@.update(my as int, Status { hand: target, ..old.status@[my as int] })
            &&& acts.len() >= 1
            &&& sends_to(acts[0], my as int, packet_of(old.table.hand, seq![]))
            &&& if mj.spec_option().hand_type == HandType::FixedHand {
                &&& forall|k: int| 1 <= k < acts.len() ==> #[trigger] acts[k] is Schedule
                &&& mj.spec_hand_ok(old.current_time, old.jobs@[target as int]->0.spec_option(), my, target,
                        acts.drop_first().map_values(|a: GameAction| scheduled(a)))
            } else {
                acts.len() == 1
            }
        }
    }

    /// After the jobs `v` are dealt: the seats get their jobs
    /// (`assign_seats`), each seated player is told their job, and night falls.
    pub open spec fn started_ok(old: &Self, new: &Self, players: Seq<Option<String>>, v: Seq<JobList>, acts: Seq<GameAction>) -> bool {
        let jl = assign_seats(players, v);
        let targets = job_targets(players, jl, players.len());
        &&& new.table == old.table
        &&& new.nicknames@ == old.nicknames@
        &&& new.status@ == old.status@
        &&& new.current_time == old.current_time
        &&& new.job_list@ == jl
        &&& new.jobs@ == jl.map_values(|o: Option<JobList>| job_object(o))
        &&& acts.len() == targets.len() + 1
        &&& forall|i: int| 0 <= i < targets.len() ==> sends_to(#[trigger] acts[i], targets[i].0,
                packet_of(old.table.job, seq![be_bytes(targets[i].1.spec_code() as int)]))
        &&& acts.last() == GameAction::Schedule(Event::TimeChanged(Time::Night))
    }

    /// After `Start`: everyone is told the game starts; with 4 to 12
    /// players seated, jobs are drawn for them and dealt, unless drawing
    /// fails; otherwise the game fails.
    pub open spec fn start_ok(old: &Self, new: &Self, players: Seq<Option<String>>, acts: Seq<GameAction>, flow: Flow) -> bool {
        let c = count_present(players);
        &&& acts.len() >= 1
        &&& sends_all(acts[0], packet_of(old.table.start_game, seq![]))
        &&& if c < 4 || c > 12 {
            flow == Flow::Fail(Error::IncorrectPeopleCount) && acts.len() == 1 && new.unchanged(old)
        } else {
            ||| (flow == Flow::Fail(Error::RandomSource) || flow == Flow::Fail(Error::Shuffle))
                    && acts.len() == 1 && new.unchanged(old)
            ||| flow == Flow::Continue && exists|v: Seq<JobList>|
                    is_job_assignment(c, v) && #[trigger] ClassicGameState::started_ok(old, new, players, v, acts.drop_first())
        }
    }

    /// What may go with an event without making the game fail on a missing
    /// seat or job.
    pub open spec fn accepts(&self, event: Event, players: Seq<Option<String>>) -> bool {
        match event {
            Event::IncreaseTime(idx) => self.current_time == Time::Day ==> idx < players.len(),
            Event::DecreaseTime(idx) => self.current_time == Time::Day ==> idx < players.len(),
            Event::Chat(idx, _) => idx < self.jobs@.len() && self.jobs@[idx as int] is Some && players[idx as int] is Some,
            Event::Hand(my, target) => {
                &&& target < self.jobs@.len()
                &&& self.jobs@[target as int] is Some ==> my < self.jobs@.len() && self.jobs@[my as int] is Some
                &&& self.jobs@[target as int] is Some && self.hand_takes_effect(my, target) ==> players[my as int] is Some
            },
            Event::Skill(_, words, receiver) => {
                &&& receiver < players.len()
                &&& players[receiver as int] is Some ==> forall|i: int| 0 <= i < words@.len()
                        ==> (#[trigger] words@[i] matches GameString::Nickname(k) ==> k < players.len())
            },
            Event::Memo(my, target) => {
                &&& my < players.len()
                &&& players[my as int] is Some ==> target < self.jobs@.len() && self.jobs@[target as int] is Some
            },
            _ => true,
        }
    }
}

fn utf8_item(s: &String) -> (res: BinaryData)
    ensures
        res@ == encode_utf8(s@),
{
    BinaryData::from_string(s.clone())
}

fn empty_items() -> (res: Vec<BinaryData>)
    ensures
        res@.map_values(|d: BinaryData| d@) == Seq::<Seq<u8>>::empty(),
{
    let v: Vec<BinaryData> = Vec::new();
    assert(v@.map_values(|d: BinaryData| d@) =~= Seq::<Seq<u8>>::empty());
    v
}

/// The label of an empty seat: "플레이어 " and the seat's number from 1.
fn seat_label_exec(i: usize) -> (res: String)
    requires
        i < usize::MAX,
    ensures
        res@ == seat_label(i as nat),
{
    let mut s = "플레이어 ".to_owned();
    push_decimal(&mut s, i + 1);
    s
}

impl ClassicGameState {
    /// A game for the seats `players`, before it starts: each seat's
    /// nickname is fixed now (an empty seat gets its label), every player
    /// is alive, and the phase is `Null`.
    pub fn new(table: MethodTable, players: &Vec<Option<String>>) -> (res: Self)
        ensures
            res.wf(players@),
            res.table == table,
            res.nickname_views() == Seq::new(players@.len(), |i: int| nickname_of(players@[i], i as nat)),
            res.status@ == Seq::new(players@.len(), |i: int| Status::initial()),
            res.job_list@.len() == 0,
            res.jobs@.len() == 0,
            res.current_time == Time::Null,
    {
        let mut nicknames: Vec<String> = Vec::new();
        let mut status: Vec<Status> = Vec::new();
        let mut i: usize = 0;
        let n = players.len();
        while i < n
            invariant
                n == players@.len(),
                i <= n,
                nicknames@.len() == i,
                status@.len() == i,
                forall|k: int| 0 <= k < i ==> #[trigger] nicknames@[k]@ == nickname_of(players@[k], k as nat),
                forall|k: int| 0 <= k < i ==> #[trigger] status@[k] == Status::initial(),
            decreases n - i,
        {
            let name = match &players[i] {
                Some(p) => p.clone(),
                None => seat_label_exec(i),
            };
            nicknames.push(name);
            status.push(Status::new());
            i += 1;
        }
        let res = ClassicGameState {
            table,
            nicknames,
            job_list: Vec::new(),
            jobs: Vec::new(),
            status,
            current_time: Time::Null,
        };
        assert(res.nickname_views() =~= Seq::new(players@.len(), |i: int| nickname_of(players@[i], i as nat)));
        assert(res.status@ =~= Seq::new(players@.len(), |i: int| Status::initial()));
        res
    }

    /// `TimeChanged(time)`.
    pub fn on_time_changed(&mut self, time: Time) -> (acts: Vec<GameAction>)
        ensures
            ClassicGameState::time_changed_ok(old(self), final(self), time, acts@),
    {
        self.current_time = time;
        let mut i: usize = 0;
        while i < self.status.len()
            invariant
                i <= self.status@.len(),
                self.status@.len() == old(self).status@.len(),
                self.same_setup(old(self)),
                self.current_time == time,
                forall|k: int| 0 <= k < i ==> #[trigger] self.status@[k] == old(self).status@[k].after_reset(time),
                forall|k: int| i <= k < self.status@.len() ==> #[trigger] self.status@[k] == old(self).status@[k],
            decreases self.status@.len() - i,
        {
            let mut st = self.status[i];
            st.reset(time);
            self.status.set(i, st);
            i += 1;
        }
        assert(self.status@ =~= old(self).status@.map_values(|s: Status| s.after_reset(time)));

        let mut acts: Vec<GameAction> = Vec::new();
        let mut items: Vec<BinaryData> = Vec::new();
        items.push(BinaryData::from_i32(time.code()));
        items.push(BinaryData::from_i32(time.length()));
        let p = Packet::from_data(self.table.time_changed, items);
        assert(p@.items =~= seq![be_bytes(time.spec_code() as int), be_bytes(time.spec_length() as int)]);
        acts.push(GameAction::Broadcast(p));
        if time == Time::Night {
            acts.push(GameAction::Schedule(Event::MafiaKill));
        }
        acts.push(GameAction::RunTimer(time.length(), time.next()));
        acts
    }

    /// `IncreaseTime(idx)` (`increase`) or `DecreaseTime(idx)`.
    pub fn on_modify_time(&mut self, idx: usize, increase: bool) -> (acts: Vec<GameAction>)
        requires
            old(self).nicknames@.len() == old(self).status@.len(),
            old(self).current_time == Time::Day ==> idx < old(self).status@.len(),
        ensures
            ClassicGameState::modify_time_ok(old(self), final(self), idx, increase, acts@),
    {
        let mut acts: Vec<GameAction> = Vec::new();
        if self.current_time != Time::Day {
            return acts;
        }
        if self.status[idx].modified_time {
            return acts;
        }
        let mut st = self.status[idx];
        st.modified_time = true;
        self.status.set(idx, st);
        acts.push(GameAction::AdjustTimer(if increase { 15 } else { -15 }));
        let mut items: Vec<BinaryData> = Vec::new();
        items.push(utf8_item(&self.nicknames[idx]));
        let method = if increase { self.table.increase_time } else { self.table.decrease_time };
        let p = Packet::from_data(method, items);
        assert(p@.items =~= seq![encode_utf8(old(self).nickname_views()[idx as int])]);
        acts.push(GameAction::Broadcast(p));
        acts
    }

    /// `Chat(idx, msg)`.
    pub fn on_chat(&self, idx: usize, msg: String, players: &Vec<Option<String>>) -> (acts: Vec<GameAction>)
        requires
            self.wf(players@),
            idx < self.jobs@.len(),
            self.jobs@[idx as int] is Some,
            players@[idx as int] is Some,
        ensures
            ClassicGameState::chat_ok(self, self, idx, msg@, players@, acts@),
    {
        let my_job = match &self.jobs[idx] {
            Some(j) => *j,
            None => { return Vec::new(); },
        };
        let chat_fn = my_job.chat(self.current_time, &self.status[idx]);
        let sender = match &players[idx] {
            Some(p) => p,
            None => { return Vec::new(); },
        };
        let ghost rule = self.chat_rule(idx);
        let mut acts: Vec<GameAction> = Vec::new();
        let n = players.len();
        let mut k: usize = 0;
        while k < n
            invariant
                n == players@.len(),
                self.wf(players@),
                self.jobs@.len() == n,
                k <= n,
                chat_fn == rule,
                sender@ == players@[idx as int]->0@,
                acts@.len() == chat_targets(rule, players@, self.jobs@, self.status@, k as nat).len(),
                forall|i: int| 0 <= i < acts@.len() ==> sends_to(#[trigger] acts@[i],
                    chat_targets(rule, players@, self.jobs@, self.status@, k as nat)[i].0,
                    packet_of(self.table.chat, seq![
                        be_bytes(chat_targets(rule, players@, self.jobs@, self.status@, k as nat)[i].1.spec_code() as int),
                        encode_utf8(sender@), encode_utf8(msg@)])),
            decreases n - k,
        {
            let ghost before = chat_targets(rule, players@, self.jobs@, self.status@, k as nat);
            if players[k].is_some() {
                if let Some(j) = &self.jobs[k] {
                    let chat_type = chat_fn.apply(&j.option(), &self.status[k]);
                    if chat_type != ChatType::Null {
                        let mut items: Vec<BinaryData> = Vec::new();
                        items.push(BinaryData::from_i32(chat_type.code()));
                        items.push(utf8_item(sender));
                        items.push(utf8_item(&msg));
                        let p = Packet::from_data(self.table.chat, items);
                        assert(p@.items =~= seq![be_bytes(chat_type.spec_code() as int), encode_utf8(sender@), encode_utf8(msg@)]);
                        acts.push(GameAction::SendTo(k, p));
                    }
                }
            }
            k += 1;
            proof {
                let after = chat_targets(rule, players@, self.jobs@, self.status@, k as nat);
                assert forall|i: int| 0 <= i < acts@.len() implies sends_to(#[trigger] acts@[i],
                    after[i].0,
                    packet_of(self.table.chat, seq![be_bytes(after[i].1.spec_code() as int),
                        encode_utf8(sender@), encode_utf8(msg@)])) by {
                    if i < before.len() {
                        assert(after[i] == before[i]);
                    }
                };
            }
        }
        acts
    }

    /// `Skill(skill_id, words, receiver)`.
    pub fn on_skill(&self, skill_id: i32, words: Vec<GameString>, receiver: usize, players: &Vec<Option<String>>) -> (acts: Vec<GameAction>)
        requires
            self.wf(players@),
            receiver < players@.len(),
            players@[receiver as int] is Some ==> forall|i: int| 0 <= i < words@.len()
                ==> (#[trigger] words@[i] matches GameString::Nickname(k) ==> k < players@.len()),
        ensures
            ClassicGameState::skill_ok(self, self, skill_id, words@, receiver, players@, acts@),
    {
        let mut acts: Vec<GameAction> = Vec::new();
        if players[receiver].is_none() {
            return acts;
        }
        let mut items: Vec<BinaryData> = Vec::new();
        items.push(BinaryData::from_i32(skill_id));
        let ghost texts = words@.map_values(|w: GameString| encode_utf8(word_text(w, self.nickname_views())));
        let mut i: usize = 0;
        while i < words.len()
            invariant
                self.wf(players@),
                receiver < players@.len(),
                players@[receiver as int] is Some,
                forall|t: int| 0 <= t < words@.len()
                    ==> (#[trigger] words@[t] matches GameString::Nickname(k) ==> k < players@.len()),
                texts == words@.map_values(|w: GameString| encode_utf8(word_text(w, self.nickname_views()))),
                i <= words@.len(),
                items@.map_values(|d: BinaryData| d@) == seq![be_bytes(skill_id as int)] + texts.take(i as int),
            decreases words@.len() - i,
        {
            let text = match words[i] {
                GameString::Nickname(k) => self.nicknames[k].clone(),
                GameString::Jobname(j) => j.name().to_owned(),
            };
            assert(text@ == word_text(words@[i as int], self.nickname_views()));
            assert(texts[i as int] == encode_utf8(text@));
            let ghost old_items = items@;
            items.push(BinaryData::from_string(text));
            assert(items@.map_values(|d: BinaryData| d@) =~= old_items.map_values(|d: BinaryData| d@).push(texts[i as int]));
            assert(texts.take(i + 1) =~= texts.take(i as int).push(texts[i as int]));
            i += 1;
            assert(items@.map_values(|d: BinaryData| d@) =~= seq![be_bytes(skill_id as int)] + texts.take(i as int));
        }
        assert(texts.take(i as int) =~= texts);
        let p = Packet::from_data(self.table.skill, items);
        acts.push(GameAction::SendTo(receiver, p));
        acts
    }

    /// `Memo(my_idx, target_idx)`.
    pub fn on_memo(&self, my_idx: usize, target_idx: usize, players: &Vec<Option<String>>) -> (acts: Vec<GameAction>)
        requires
            my_idx < players@.len(),
            players@[my_idx as int] is Some ==> target_idx < self.jobs@.len() && self.jobs@[target_idx as int] is Some,
        ensures
            ClassicGameState::memo_ok(self, self, my_idx, target_idx, players@, acts@),
    {
        let mut acts: Vec<GameAction> = Vec::new();
        if players[my_idx].is_none() {
            return acts;
        }
        let job_id = match &self.jobs[target_idx] {
            Some(j) => j.option().job_id,
            None => { return acts; },
        };
        let mut items: Vec<BinaryData> = Vec::new();
        items.push(BinaryData::from_i32(target_idx as i32));
        items.push(BinaryData::from_i32(job_id.code()));
        let p = Packet::from_data(self.table.memo, items);
        assert(p@.items =~= seq![be_bytes((target_idx as i32) as int), be_bytes(job_id.spec_code() as int)]);
        acts.push(GameAction::SendTo(my_idx, p));
        acts
    }

    /// Deals the drawn jobs `jobs` to the seats `players` and tells each
    /// seated player their job; night falls next.
    pub fn start_with_jobs(&mut self, players: &Vec<Option<String>>, jobs: &Vec<JobList>) -> (acts: Vec<GameAction>)
        requires
            old(self).wf(players@),
        ensures
            final(self).wf(players@),
            ClassicGameState::started_ok(old(self), final(self), players@, jobs@, acts@),
    {
        let n = players.len();
        let mut job_list: Vec<Option<JobList>> = Vec::new();
        let mut k: usize = 0;
        let mut ji: usize = 0;
        let jn = jobs.len();
        assert(players@.skip(0) =~= players@);
        assert(jobs@.skip(0) =~= jobs@);
        while k < n
            invariant
                n == players@.len(),
                jn == jobs@.len(),
                k <= n,
                ji <= jn,
                job_list@.len() == k,
                assign_seats(players@, jobs@) == job_list@ + assign_seats(players@.skip(k as int), jobs@.skip(ji as int)),
            decreases n - k,
        {
            let ghost rest = players@.skip(k as int);
            assert(rest.drop_first() =~= players@.skip(k + 1));
            assert(rest[0] == players@[k as int]);
            let ghost before = job_list@;
            if players[k].is_some() {
                if ji < jn {
                    assert(jobs@.skip(ji as int).drop_first() =~= jobs@.skip(ji + 1));
                    job_list.push(Some(jobs[ji]));
                    ji += 1;
                } else {
                    job_list.push(Some(JobList::Citizen));
                }
            } else {
                job_list.push(None);
            }
            k += 1;
            assert(before + (seq![job_list@.last()] + assign_seats(players@.skip(k as int), jobs@.skip(ji as int)))
                =~= job_list@ + assign_seats(players@.skip(k as int), jobs@.skip(ji as int)));
        }
        assert(players@.skip(k as int) =~= seq![]);
        assert(job_list@ + seq![] =~= job_list@);
        let ghost jl = job_list@;

        let mut job_objects: Vec<Option<PlayerJob>> = Vec::new();
        let mut k: usize = 0;
        while k < n
            invariant
                n == players@.len(),
                jl == job_list@,
                jl.len() == n,
                k <= n,
                job_objects@ == jl.take(k as int).map_values(|o: Option<JobList>| job_object(o)),
            decreases n - k,
        {
            let o = match job_list[k] {
                Some(j) => Some(j.create_job()),
                None => None,
            };
            job_objects.push(o);
            k += 1;
            assert(job_objects@ =~= jl.take(k as int).map_values(|o: Option<JobList>| job_object(o)));
        }
        assert(jl.take(n as int) =~= jl);

        let mut acts: Vec<GameAction> = Vec::new();
        let mut k: usize = 0;
        while k < n
            invariant
                n == players@.len(),
                jl == job_list@,
                jl.len() == n,
                k <= n,
                acts@.len() == job_targets(players@, jl, k as nat).len(),
                forall|i: int| 0 <= i < acts@.len() ==> sends_to(#[trigger] acts@[i],
                    job_targets(players@, jl, k as nat)[i].0,
                    packet_of(self.table.job, seq![be_bytes(job_targets(players@, jl, k as nat)[i].1.spec_code() as int)])),
            decreases n - k,
        {
            let ghost before = job_targets(players@, jl, k as nat);
            if players[k].is_some() {
                if let Some(j) = job_list[k] {
                    let mut items: Vec<BinaryData> = Vec::new();
                    items.push(BinaryData::from_i32(j.code()));
                    let p = Packet::from_data(self.table.job, items);
                    assert(p@.items =~= seq![be_bytes(j.spec_code() as int)]);
                    acts.push(GameAction::SendTo(k, p));
                }
            }
            k += 1;
            proof {
                let after = job_targets(players@, jl, k as nat);
                assert forall|i: int| 0 <= i < acts@.len() implies sends_to(#[trigger] acts@[i], after[i].0,
                    packet_of(self.table.job, seq![be_bytes(after[i].1.spec_code() as int)])) by {
                    if i < before.len() {
                        assert(after[i] == before[i]);
                    }
                };
            }
        }
        acts.push(GameAction::Schedule(Event::TimeChanged(Time::Night)));
        proof { lemma_assign_seats_len(players@, jobs@); }
        self.job_list = job_list;
        self.jobs = job_objects;
        acts
    }

    /// `Start`.
    pub fn on_start(&mut self, players: &Vec<Option<String>>) -> (res: (Vec<GameAction>, Flow))
        requires
            old(self).wf(players@),
        ensures
            final(self).wf(players@),
            ClassicGameState::start_ok(old(self), final(self), players@, res.0@, res.1),
    {
        let mut acts: Vec<GameAction> = Vec::new();
        acts.push(GameAction::Broadcast(Packet::from_data(self.table.start_game, empty_items())));
        let now_people = count_seated(players);
        if now_people < 4 || now_people > 12 {
            return (acts, Flow::Fail(Error::IncorrectPeopleCount));
        }
        let jobs = match initialize_job(now_people) {
            Ok(v) => v,
            Err(e) => { return (acts, Flow::Fail(e)); },
        };
        let ghost first = acts@[0];
        let mut more = self.start_with_jobs(players, &jobs);
        let ghost rest = more@;
        acts.append(&mut more);
        assert(acts@.drop_first() =~= rest);
        assert(ClassicGameState::started_ok(old(self), self, players@, jobs@, acts@.drop_first()));
        (acts, Flow::Continue)
    }

    /// Whether the player at `my` pointing at `target` takes effect.
    fn hand_takes_effect_exec(&self, my: usize, target: usize) -> (res: bool)
        requires
            target < self.jobs@.len(),
            self.jobs@[target as int] is Some ==> my < self.jobs@.len() && self.jobs@[my as int] is Some,
            self.jobs@.len() <= self.status@.len(),
        ensures
            res == self.hand_takes_effect(my, target),
    {
        let target_job = match &self.jobs[target] {
            Some(j) => *j,
            None => { return false; },
        };
        let my_job = match &self.jobs[my] {
            Some(j) => *j,
            None => { return false; },
        };
        let target_opt = target_job.option();
        let valid = my_job.is_valid_hand(self.current_time, &target_opt, &self.status[target], target);
        match my_job.option().hand_type {
            HandType::FixedHand => self.status[my].hand == usize::MAX && valid,
            HandType::MovingHand => valid,
            _ => false,
        }
    }

    /// Whether the state is laid out for the seats `players` (see `wf`).
    pub fn is_laid_out(&self, players: &Vec<Option<String>>) -> (res: bool)
        ensures
            res == self.wf(players@),
    {
        self.status.len() == players.len()
            && self.nicknames.len() == players.len()
            && self.job_list.len() == self.jobs.len()
            && (self.jobs.len() == 0 || self.jobs.len() == players.len())
    }

    /// Whether the game can take `event` with the seats `players` (see `accepts`).
    pub fn can_handle(&self, event: &Event, players: &Vec<Option<String>>) -> (res: bool)
        requires
            self.wf(players@),
        ensures
            res == self.accepts(*event, players@),
    {
        match event {
            Event::IncreaseTime(idx) => self.current_time != Time::Day || *idx < players.len(),
            Event::DecreaseTime(idx) => self.current_time != Time::Day || *idx < players.len(),
            Event::Chat(idx, _) => *idx < self.jobs.len() && self.jobs[*idx].is_some() && players[*idx].is_some(),
            Event::Hand(my, target) => {
                if *target >= self.jobs.len() {
                    return false;
                }
                if self.jobs[*target].is_none() {
                    return true;
                }
                if !(*my < self.jobs.len() && self.jobs[*my].is_some()) {
                    return false;
                }
                !self.hand_takes_effect_exec(*my, *target) || players[*my].is_some()
            },
            Event::Skill(id, words, receiver) => {
                assert(*event == Event::Skill(*id, *words, *receiver));
                if *receiver >= players.len() {
                    return false;
                }
                if players[*receiver].is_none() {
                    return true;
                }
                let mut i: usize = 0;
                while i < words.len()
                    invariant
                        *event == Event::Skill(*id, *words, *receiver),
                        *receiver < players@.len(),
                        players@[*receiver as int] is Some,
                        i <= words@.len(),
                        forall|t: int| 0 <= t < i ==> (#[trigger] words@[t] matches GameString::Nickname(k) ==> k < players@.len()),
                    decreases words@.len() - i,
                {
                    if let GameString::Nickname(k) = words[i] {
                        if k >= players.len() {
                            assert(!(words@[i as int] matches GameString::Nickname(kk) ==> kk < players@.len()));
                            return false;
                        }
                    }
                    i += 1;
                }
                true
            },
            Event::Memo(my, target) => {
                if *my >= players.len() {
                    return false;
                }
                players[*my].is_none() || (*target < self.jobs.len() && self.jobs[*target].is_some())
            },
            _ => true,
        }
    }

    /// Reacts to `event`, with `players` the nicknames of the seats' current
    /// players; returns what the server must do and whether the game goes on.
    pub fn step(&mut self, event: Event, players: &Vec<Option<String>>) -> (res: (Vec<GameAction>, Flow))
        requires
            old(self).wf(players@),
            old(self).accepts(event, players@),
        ensures
            final(self).wf(players@),
            match event {
                Event::Start => ClassicGameState::start_ok(old(self), final(self), players@, res.0@, res.1),
                Event::TimeChanged(t) => ClassicGameState::time_changed_ok(old(self), final(self), t, res.0@)
                    && res.1 == Flow::Continue,
                Event::IncreaseTime(idx) => ClassicGameState::modify_time_ok(old(self), final(self), idx, true, res.0@)
                    && res.1 == Flow::Continue,
                Event::DecreaseTime(idx) => ClassicGameState::modify_time_ok(old(self), final(self), idx, false, res.0@)
                    && res.1 == Flow::Continue,
                Event::Chat(idx, msg) => ClassicGameState::chat_ok(old(self), final(self), idx, msg@, players@, res.0@)
                    && res.1 == Flow::Continue,
                Event::Hand(my, target) => ClassicGameState::hand_ok(old(self), final(self), my, target, res.0@)
                    && res.1 == Flow::Continue,
                Event::Skill(id, words, receiver) => ClassicGameState::skill_ok(old(self), final(self), id, words@, receiver, players@, res.0@)
                    && res.1 == Flow::Continue,
                Event::Memo(my, target) => ClassicGameState::memo_ok(old(self), final(self), my, target, players@, res.0@)
                    && res.1 == Flow::Continue,
                Event::MafiaKill => final(self).unchanged(old(self)) && res.0@.len() == 0 && res.1 == Flow::Continue,
                Event::Close => final(self).unchanged(old(self)) && res.0@.len() == 0 && res.1 == Flow::Stop,
            },
    {
        match event {
            Event::Start => self.on_start(players),
            Event::TimeChanged(t) => (self.on_time_changed(t), Flow::Continue),
            Event::IncreaseTime(idx) => (self.on_modify_time(idx, true), Flow::Continue),
            Event::DecreaseTime(idx) => (self.on_modify_time(idx, false), Flow::Continue),
            Event::Chat(idx, msg) => (self.on_chat(idx, msg, players), Flow::Continue),
            Event::Hand(my, target) => (self.on_hand(my, target, players), Flow::Continue),
            Event::Skill(id, words, receiver) => (self.on_skill(id, words, receiver, players), Flow::Continue),
            Event::Memo(my, target) => (self.on_memo(my, target, players), Flow::Continue),
            Event::MafiaKill => (Vec::new(), Flow::Continue),
            Event::Close => (Vec::new(), Flow::Stop),
        }
    }

    /// `Hand(my_idx, target_idx)`.
    pub fn on_hand(&mut self, my_idx: usize, target_idx: usize, players: &Vec<Option<String>>) -> (acts: Vec<GameAction>)
        requires
            old(self).wf(players@),
            old(self).accepts(Event::Hand(my_idx, target_idx), players@),
        ensures
            ClassicGameState::hand_ok(old(self), final(self), my_idx, target_idx, acts@),
    {
        let mut acts: Vec<GameAction> = Vec::new();
        let target_job = match &self.jobs[target_idx] {
            Some(j) => *j,
            None => { return acts; },
        };
        let my_job = match &self.jobs[my_idx] {
            Some(j) => *j,
            None => { return acts; },
        };
        let opt = my_job.option();
        let target_opt = target_job.option();
        match opt.hand_type {
            HandType::FixedHand => {
                if self.status[my_idx].hand < usize::MAX {
                    return acts;
                }
                if !my_job.is_valid_hand(self.current_time, &target_opt, &self.status[target_idx], target_idx) {
                    return acts;
                }
                let mut st = self.status[my_idx];
                st.hand = target_idx;
                self.status.set(my_idx, st);
                let events = my_job.hand(self.current_time, &target_opt, &self.status[target_idx], my_idx, target_idx);
                acts.push(GameAction::SendTo(my_idx, Packet::from_data(self.table.hand, empty_items())));
                let ghost evs = events@;
                let total = events.len();
                let mut events = events;
                let mut k: usize = 0;
                assert(evs.skip(0) =~= evs);
                assert(acts@.drop_first().map_values(|a: GameAction| scheduled(a)) =~= evs.take(0));
                while events.len() > 0
                    invariant
                        acts@.len() >= 1,
                        acts@.len() == 1 + k,
                        sends_to(acts@[0], my_idx as int, packet_of(old(self).table.hand, seq![])),
                        k + events@.len() == evs.len(),
                        evs.len() == total,
                        forall|t: int| 1 <= t < acts@.len() ==> #[trigger] acts@[t] is Schedule,
                        acts@.drop_first().map_values(|a: GameAction| scheduled(a)) == evs.take(k as int),
                        events@ == evs.skip(k as int),
                    decreases events@.len(),
                {
                    let e = events.remove(0);
                    assert(e == evs[k as int]) by {
                        assert(evs.skip(k as int)[0] == evs[k as int]);
                    };
                    acts.push(GameAction::Schedule(e));
                    k += 1;
                    assert(acts@.drop_first().map_values(|a: GameAction| scheduled(a)) =~= evs.take(k as int));
                    assert(events@ =~= evs.skip(k as int));
                }
                assert(evs.take(k as int) =~= evs);
                acts
            },
            HandType::MovingHand => {
                if !my_job.is_valid_hand(self.current_time, &target_opt, &self.status[target_idx], target_idx) {
                    return acts;
                }
                let mut st = self.status[my_idx];
                st.hand = target_idx;
                self.status.set(my_idx, st);
                acts.push(GameAction::SendTo(my_idx, Packet::from_data(self.table.hand, empty_items())));
                acts
            },
            _ => acts,
        }
    }
}

/// How many seats are taken.
pub fn count_seated(players: &Vec<Option<String>>) -> (res: usize)
    ensures
        res == count_present(players@),
{
    let mut c: usize = 0;
    let mut k: usize = 0;
    while k < players.len()
        invariant
            k <= players@.len(),
            c == count_present(players@.take(k as int)),
            c <= k,
        decreases players@.len() - k,
    {
        assert(players@.take(k + 1).drop_last() =~= players@.take(k as int));
        if players[k].is_some() {
            c += 1;
        }
        k += 1;
    }
    assert(players@.take(k as int) =~= players@);
    c
}

/// Outside the night, pointing at a player does nothing: the state stays
/// as it was and nothing is sent.
pub proof fn lemma_hand_only_at_night(
    old: ClassicGameState,
    new: ClassicGameState,
    my: usize,
    target: usize,
    acts: Seq<GameAction>,
)
    requires
        old.current_time != Time::Night,
        ClassicGameState::hand_ok(&old, &new, my, target, acts),
    ensures
        new.unchanged(&old),
        acts.len() == 0,
{
    super::job::job::lemma_hands_only_at_night(old.jobs@[my as int]->0, old.current_time, old.status@[target as int]);
}

/// A player changes the day's length at most once a day: a second request
/// on the same day does nothing.
pub proof fn lemma_modify_time_once_a_day(
    old: ClassicGameState,
    mid: ClassicGameState,
    new: ClassicGameState,
    idx: usize,
    first: bool,
    second: bool,
    a1: Seq<GameAction>,
    a2: Seq<GameAction>,
)
    requires
        idx < old.status@.len(),
        ClassicGameState::modify_time_ok(&old, &mid, idx, first, a1),
        ClassicGameState::modify_time_ok(&mid, &new, idx, second, a2),
    ensures
        a2.len() == 0,
        new.unchanged(&mid),
{
}

/// A change of phase leaves nobody pointing at anyone, and a new day lets
/// everyone change its length again.
pub proof fn lemma_phase_change_resets(old: ClassicGameState, new: ClassicGameState, t: Time, acts: Seq<GameAction>)
    requires
        ClassicGameState::time_changed_ok(&old, &new, t, acts),
    ensures
        forall|i: int| 0 <= i < new.status@.len() ==> (#[trigger] new.status@[i]).hand == usize::MAX,
        t == Time::Day ==> forall|i: int| 0 <= i < new.status@.len() ==> !(#[trigger] new.status@[i]).modified_time,
        new.status@.len() == old.status@.len(),
{
}

/// The event a `Schedule` action hands back.
pub open spec fn scheduled(a: GameAction) -> Event {
    match a {
        GameAction::Schedule(e) => e,
        _ => Event::MafiaKill,
    }
}

} // verus!
