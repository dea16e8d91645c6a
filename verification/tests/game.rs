use mafia_server::method::skill::{skill_string, CAUGHT_MAFIA, CULT_RINGS, MAFIA_KILL};
use mafia_server::game::classic_game::{
    count_seated, fill_job_list, initialize_job, pair_couples, ClassicGameState, Flow, GameAction,
};
use mafia_server::game::classic_game_status::{LifeStatus, Status};
use mafia_server::game::error::Error;
use mafia_server::game::event::Event;
use mafia_server::game::job::citizen::citizen::Citizen;
use mafia_server::game::job::citizen::police::Police;
use mafia_server::game::job::default_chat::chat_default;
use mafia_server::game::job::job::{ChatFn, Job, PlayerJob};
use mafia_server::game::job::mafia::chat_mafia;
use mafia_server::game::job::mafia::mafia::Mafia;
use mafia_server::game::job::option::HandType;
use mafia_server::game::job::{JobList, Team};
use mafia_server::game::time::Time;
use mafia_server::game::GameString;
use mafia_server::method::{skill, MethodTable};
use mafia_server::room::room::ChatType;

fn table() -> MethodTable {
    MethodTable {
        ping: 1, pong: 2, hello: 3, nickname: 4, room_list: 5, create_room: 6, join_room: 7,
        leave_room: 8, chat: 9, index: 10, start_game: 11, increase_time: 12, decrease_time: 13,
        error: 14, player_list: 15, player_joined: 16, player_left: 17, moderator_changed: 18,
        time_changed: 19, job: 20, hand: 21, skill: 22, memo: 23,
    }
}

fn seats(names: &[Option<&str>]) -> Vec<Option<String>> {
    names.iter().map(|n| n.map(|s| s.to_string())).collect()
}

fn count(v: &[JobList], j: JobList) -> usize {
    v.iter().filter(|x| **x == j).count()
}

#[test]
fn time_table() {
    assert_eq!(Time::Night.code(), 1);
    assert_eq!(Time::End.code(), 6);
    assert_eq!(Time::Night.length(), 25);
    assert_eq!(Time::Day.length(), 60);
    assert_eq!(Time::YesnoVote.length(), 10);
    assert_eq!(Time::End.length(), -1);
    let mut t = Time::Night;
    let cycle = [Time::Day, Time::Vote, Time::FinalObjection, Time::YesnoVote, Time::Night];
    for expected in cycle {
        t = t.next();
        assert_eq!(t, expected);
    }
    assert_eq!(Time::End.next(), Time::Null);
}

#[test]
fn status_reset() {
    let mut s = Status::new();
    assert_eq!(s.hand, usize::MAX);
    assert_eq!(s.life_status, LifeStatus::Alive);
    s.hand = 3;
    s.lynched = true;
    s.modified_time = true;
    s.reset(Time::Night);
    assert_eq!(s.hand, usize::MAX);
    assert!(!s.lynched);
    assert!(s.modified_time);
    s.reset(Time::Day);
    assert!(!s.modified_time);
    assert_eq!(Status::default(), Status::new());
}

#[test]
fn job_list_codes_and_names() {
    assert_eq!(JobList::NoJob.code(), 0);
    assert_eq!(JobList::Mafia.code(), 1);
    assert_eq!(JobList::Couple.code(), 23);
    assert_eq!(JobList::Fanatic.code(), 39);
    assert_eq!(JobList::Mafia.name(), "마피아");
    assert_eq!(JobList::Police.name(), "경찰");
    assert_eq!(JobList::NoJob.name(), "무직");
    assert_eq!(JobList::default(), JobList::NoJob);
    assert_eq!(JobList::Police.create_job(), PlayerJob::Mafia(Mafia));
    assert_eq!(JobList::Mafia.create_job().option().job_id, JobList::Mafia);
}

#[test]
fn job_options_and_hands() {
    let alive = Status::new();
    let mut dead = Status::new();
    dead.life_status = LifeStatus::Dead;
    let mafia_opt = Mafia::new().option();
    assert_eq!(mafia_opt.team, Team::MafiaTeam);
    assert_eq!(mafia_opt.hand_type, HandType::MovingHand);
    assert!(mafia_opt.shared_hand);
    let police = Police::new();
    assert_eq!(police.option().hand_type, HandType::FixedHand);
    assert!(police.is_valid_hand(Time::Night, &mafia_opt, &alive, 1));
    assert!(!police.is_valid_hand(Time::Day, &mafia_opt, &alive, 1));
    assert!(!police.is_valid_hand(Time::Night, &mafia_opt, &dead, 1));
    assert!(!Citizen::new().is_valid_hand(Time::Night, &mafia_opt, &alive, 1));
    assert_eq!(Citizen::new().option().hand_type, HandType::NoHand);

    let caught = police.hand(Time::Night, &mafia_opt, &alive, 0, 2);
    assert_eq!(caught.len(), 2);
    match &caught[0] {
        Event::Skill(id, words, to) => {
            assert_eq!(*id, skill::CAUGHT_MAFIA);
            assert_eq!(words.as_slice(), &[GameString::Nickname(2)]);
            assert_eq!(*to, 0);
        },
        _ => panic!("expected a skill"),
    }
    assert!(matches!(caught[1], Event::Memo(0, 2)));
    let none = police.hand(Time::Night, &Citizen::new().option(), &alive, 0, 2);
    assert_eq!(none.len(), 1);
    assert!(matches!(&none[0], Event::Skill(id, _, 0) if *id == skill::NO_MAFIA));
    assert_eq!(police.hand(Time::Day, &mafia_opt, &alive, 0, 2).len(), 0);
    assert_eq!(Mafia::new().hand(Time::Night, &mafia_opt, &alive, 0, 2).len(), 0);
}

#[test]
fn chat_rules() {
    let alive = Status::new();
    let mut dead = Status::new();
    dead.life_status = LifeStatus::Dead;
    let mut rest = Status::new();
    rest.life_status = LifeStatus::Seongbul;
    assert_eq!(chat_default(Time::Night, &dead), Some(ChatFn::Dead));
    assert_eq!(chat_default(Time::Night, &rest), Some(ChatFn::Silent));
    assert_eq!(chat_default(Time::Day, &alive), Some(ChatFn::Everyone));
    assert_eq!(chat_default(Time::Night, &alive), None);
    assert_eq!(chat_mafia(Time::Night, &alive), Some(ChatFn::Mafia));
    assert_eq!(chat_mafia(Time::Day, &alive), None);
    assert_eq!(Mafia::new().chat(Time::Night, &alive), ChatFn::Mafia);
    assert_eq!(Police::new().chat(Time::Night, &alive), ChatFn::Silent);
    assert_eq!(Citizen::new().chat(Time::Day, &alive), ChatFn::Everyone);

    let citizen = Citizen::new().option();
    let mafia = Mafia::new().option();
    let mut shaman = Citizen::new().option();
    shaman.job_id = JobList::Shaman;
    assert_eq!(ChatFn::Dead.apply(&citizen, &alive), ChatType::Null);
    assert_eq!(ChatFn::Dead.apply(&citizen, &dead), ChatType::Dead);
    assert_eq!(ChatFn::Dead.apply(&shaman, &alive), ChatType::Dead);
    assert_eq!(ChatFn::Mafia.apply(&mafia, &alive), ChatType::Mafia);
    assert_eq!(ChatFn::Mafia.apply(&citizen, &alive), ChatType::Null);
    assert_eq!(ChatFn::Everyone.apply(&citizen, &alive), ChatType::Normal);
    assert_eq!(ChatFn::Silent.apply(&mafia, &dead), ChatType::Null);
    assert_eq!(ChatType::Mafia.code(), 3);
}

#[test]
fn initialize_job_deals_whole_rooms() {
    for n in 4..=12usize {
        for _ in 0..20 {
            let jobs = initialize_job(n).unwrap();
            assert_eq!(jobs.len(), n);
            assert_eq!(count(&jobs, JobList::Special), 0);
            assert_eq!(count(&jobs, JobList::Assist), 0);
            let mafia = if n >= 11 { 3 } else if n >= 8 { 2 } else { 1 };
            assert_eq!(count(&jobs, JobList::Mafia), mafia);
            assert_eq!(count(&jobs, JobList::Police), 1);
            assert_eq!(count(&jobs, JobList::Doctor), 1);
            assert_eq!(count(&jobs, JobList::Cult), if n >= 9 { 1 } else { 0 });
            let couples = count(&jobs, JobList::Couple);
            assert!(couples == 0 || couples == 2);
            if n == 4 {
                assert_eq!(couples, 0);
            }
            let assists = [JobList::Spy, JobList::Beastman, JobList::Madam, JobList::Thief]
                .iter().map(|j| count(&jobs, *j)).sum::<usize>();
            assert_eq!(assists, if n >= 6 { 1 } else { 0 });
        }
    }
}

#[test]
fn game_new_names_empty_seats() {
    let players = seats(&[Some("a"), None, Some("c")]);
    let g = ClassicGameState::new(table(), &players);
    assert_eq!(g.nicknames, vec!["a".to_string(), "플레이어 2".to_string(), "c".to_string()]);
    assert_eq!(g.status.len(), 3);
    assert_eq!(g.current_time, Time::Null);
    assert!(g.jobs.is_empty());
    assert_eq!(count_seated(&players), 2);
}

#[test]
fn game_start_needs_four_players() {
    let players = seats(&[Some("a"), Some("b"), Some("c"), None]);
    let mut g = ClassicGameState::new(table(), &players);
    let (acts, flow) = g.step(Event::Start, &players);
    assert_eq!(flow, Flow::Fail(Error::IncorrectPeopleCount));
    assert_eq!(acts.len(), 1);
    assert!(matches!(&acts[0], GameAction::Broadcast(p) if p.get_method() == 11 && p.len() == 0));
}

#[test]
fn game_start_deals_jobs() {
    let players = seats(&[Some("a"), None, Some("b"), Some("c"), Some("d")]);
    let mut g = ClassicGameState::new(table(), &players);
    let (acts, flow) = g.step(Event::Start, &players);
    assert_eq!(flow, Flow::Continue);
    // start broadcast, four jobs, nightfall
    assert_eq!(acts.len(), 6);
    assert!(matches!(&acts[5], GameAction::Schedule(Event::TimeChanged(Time::Night))));
    assert!(g.job_list[1].is_none());
    assert!(g.job_list[0].is_some());
    assert!(g.jobs.iter().flatten().all(|j| *j == PlayerJob::Mafia(Mafia)));
}

#[test]
fn game_start_with_fixed_jobs() {
    let players = seats(&[Some("a"), None, Some("b"), Some("c")]);
    let mut g = ClassicGameState::new(table(), &players);
    let acts = g.start_with_jobs(&players, &vec![JobList::Police, JobList::Doctor]);
    assert_eq!(g.job_list, vec![Some(JobList::Police), None, Some(JobList::Doctor), Some(JobList::Citizen)]);
    assert_eq!(acts.len(), 4);
    match &acts[1] {
        GameAction::SendTo(2, p) => {
            assert_eq!(p.get_method(), 20);
            assert_eq!(p.get(0).to_i32(), JobList::Doctor.code());
        },
        _ => panic!("expected the doctor's job"),
    }
}

#[test]
fn game_time_changes() {
    let players = seats(&[Some("a"), Some("b"), Some("c"), Some("d")]);
    let mut g = ClassicGameState::new(table(), &players);
    g.status[0].hand = 2;
    let (acts, flow) = g.step(Event::TimeChanged(Time::Night), &players);
    assert_eq!(flow, Flow::Continue);
    assert_eq!(g.current_time, Time::Night);
    assert_eq!(g.status[0].hand, usize::MAX);
    assert_eq!(acts.len(), 3);
    match &acts[0] {
        GameAction::Broadcast(p) => {
            assert_eq!(p.get_method(), 19);
            assert_eq!(p.get(0).to_i32(), 1);
            assert_eq!(p.get(1).to_i32(), 25);
        },
        _ => panic!("expected the new phase"),
    }
    assert!(matches!(acts[1], GameAction::Schedule(Event::MafiaKill)));
    assert!(matches!(acts[2], GameAction::RunTimer(25, Time::Day)));
    let (acts, _) = g.step(Event::TimeChanged(Time::Day), &players);
    assert_eq!(acts.len(), 2);
    assert!(matches!(acts[1], GameAction::RunTimer(60, Time::Vote)));
}

#[test]
fn game_day_length_changes_once_a_day() {
    let players = seats(&[Some("a"), Some("b"), Some("c"), Some("d")]);
    let mut g = ClassicGameState::new(table(), &players);
    let (acts, _) = g.step(Event::IncreaseTime(1), &players);
    assert_eq!(acts.len(), 0);
    g.step(Event::TimeChanged(Time::Day), &players);
    let (acts, _) = g.step(Event::IncreaseTime(1), &players);
    assert_eq!(acts.len(), 2);
    assert!(matches!(acts[0], GameAction::AdjustTimer(15)));
    assert!(matches!(&acts[1], GameAction::Broadcast(p) if p.get_method() == 12 && p.get(0).vec == b"b".to_vec()));
    let (acts, _) = g.step(Event::DecreaseTime(1), &players);
    assert_eq!(acts.len(), 0);
    let (acts, _) = g.step(Event::DecreaseTime(2), &players);
    assert!(matches!(acts[0], GameAction::AdjustTimer(-15)));
    g.step(Event::TimeChanged(Time::Vote), &players);
    g.step(Event::TimeChanged(Time::Day), &players);
    let (acts, _) = g.step(Event::DecreaseTime(1), &players);
    assert_eq!(acts.len(), 2);
}

#[test]
fn game_chat_hand_skill_memo() {
    let players = seats(&[Some("a"), Some("b"), None, Some("d")]);
    let mut g = ClassicGameState::new(table(), &players);
    g.start_with_jobs(&players, &vec![JobList::Mafia, JobList::Police, JobList::Doctor]);
    g.step(Event::TimeChanged(Time::Night), &players);

    // every job plays as a mafia: at night the mafia chat reaches the other players
    let ev = Event::Chat(0, "hi".to_string());
    assert!(g.can_handle(&ev, &players));
    let (acts, _) = g.step(ev, &players);
    assert_eq!(acts.len(), 3);
    match &acts[1] {
        GameAction::SendTo(1, p) => {
            assert_eq!(p.get_method(), 9);
            assert_eq!(p.get(0).to_i32(), ChatType::Mafia.code());
            assert_eq!(p.get(1).vec, b"a".to_vec());
            assert_eq!(p.get(2).vec, b"hi".to_vec());
        },
        _ => panic!("expected a chat to seat 1"),
    }
    assert!(!g.can_handle(&Event::Chat(2, "x".to_string()), &players));

    let (acts, _) = g.step(Event::Hand(0, 3), &players);
    assert_eq!(acts.len(), 1);
    assert!(matches!(&acts[0], GameAction::SendTo(0, p) if p.get_method() == 21));
    assert_eq!(g.status[0].hand, 3);
    let (acts, _) = g.step(Event::Hand(0, 2), &players);
    assert_eq!(acts.len(), 0);

    let (acts, _) = g.step(Event::Skill(skill::CAUGHT_MAFIA, vec![GameString::Nickname(2), GameString::Jobname(JobList::Police)], 1), &players);
    match &acts[0] {
        GameAction::SendTo(1, p) => {
            assert_eq!(p.get_method(), 22);
            assert_eq!(p.get(0).to_i32(), skill::CAUGHT_MAFIA);
            assert_eq!(p.get(1).vec, "플레이어 3".as_bytes().to_vec());
            assert_eq!(p.get(2).vec, "경찰".as_bytes().to_vec());
        },
        _ => panic!("expected a skill message"),
    }
    let (acts, _) = g.step(Event::Skill(0, vec![], 2), &players);
    assert_eq!(acts.len(), 0);

    let (acts, _) = g.step(Event::Memo(1, 0), &players);
    match &acts[0] {
        GameAction::SendTo(1, p) => {
            assert_eq!(p.get_method(), 23);
            assert_eq!(p.get(0).to_i32(), 0);
            assert_eq!(p.get(1).to_i32(), JobList::Mafia.code());
        },
        _ => panic!("expected a memo"),
    }
    let (acts, flow) = g.step(Event::MafiaKill, &players);
    assert_eq!(acts.len(), 0);
    assert_eq!(flow, Flow::Continue);
    let (_, flow) = g.step(Event::Close, &players);
    assert_eq!(flow, Flow::Stop);
}

#[test]
fn job_names_are_distinct_and_non_empty() {
    let jobs = [
        JobList::NoJob, JobList::Mafia, JobList::Police, JobList::Doctor, JobList::Special,
        JobList::Assist, JobList::Cult, JobList::Citizen, JobList::Soldier, JobList::Politician,
        JobList::Shaman, JobList::Reporter, JobList::Gangster, JobList::Detective, JobList::Ghoul,
        JobList::Terrorist, JobList::Priest, JobList::Magician, JobList::Hacker, JobList::Prophet,
        JobList::Judge, JobList::Nurse, JobList::Mentalist, JobList::Couple, JobList::Villain,
        JobList::Spy, JobList::Beastman, JobList::Madam, JobList::Thief, JobList::Scientist,
        JobList::Witch, JobList::Frog, JobList::Swindler, JobList::HitMan, JobList::Agent,
        JobList::Mercenary, JobList::Administrator, JobList::Cabal, JobList::Paparazzi, JobList::Fanatic,
    ];
    for (i, a) in jobs.iter().enumerate() {
        assert!(!a.name().is_empty());
        for b in jobs.iter().skip(i + 1) {
            assert_ne!(a.name(), b.name());
        }
    }
    assert_eq!(JobList::NoJob.name(), "무직");
    assert_eq!(JobList::Mafia.name(), "마피아");
    assert_eq!(JobList::Police.name(), "경찰");
}

#[test]
fn skill_strings_by_number() {
    assert_eq!(skill_string(MAFIA_KILL), Some("%s님이 살해당했습니다."));
    assert_eq!(skill_string(CAUGHT_MAFIA), Some("%s님은 마피아입니다!"));
    assert_eq!(skill_string(CULT_RINGS), Some("교주의 종소리가 울려퍼졌습니다."));
    assert_eq!(skill_string(41), None);
    assert_eq!(skill_string(-1), None);
}

#[test]
fn initialize_job_small_rooms() {
    for n in 1..=3usize {
        let mut jobs = initialize_job(n).unwrap();
        jobs.sort_by_key(|j| j.code());
        let mut expected = vec![JobList::Mafia, JobList::Police, JobList::Doctor];
        expected.truncate(n);
        expected.sort_by_key(|j| j.code());
        assert_eq!(jobs, expected);
    }
}

#[test]
fn fill_job_list_replaces_placeholders_in_order() {
    let template = vec![JobList::Special, JobList::Mafia, JobList::Assist, JobList::Special, JobList::Police];
    let specials = vec![JobList::Soldier, JobList::Shaman, JobList::Priest];
    let assists = vec![JobList::Madam, JobList::Spy];
    assert_eq!(
        fill_job_list(&template, &specials, &assists),
        vec![JobList::Soldier, JobList::Mafia, JobList::Madam, JobList::Shaman, JobList::Police]
    );
}

#[test]
fn pair_couples_gives_the_lover_a_partner() {
    let mut drawn = vec![JobList::Soldier, JobList::Couple, JobList::Priest];
    pair_couples(&mut drawn);
    assert_eq!(drawn, vec![JobList::Couple, JobList::Couple, JobList::Priest]);
    let mut no_lover = vec![JobList::Soldier, JobList::Priest];
    pair_couples(&mut no_lover);
    assert_eq!(no_lover, vec![JobList::Soldier, JobList::Priest]);
}

#[test]
fn state_is_laid_out_for_its_room() {
    let seats = vec![Some("a".to_string()), None, Some("b".to_string())];
    let state = ClassicGameState::new(table(), &seats);
    assert!(state.is_laid_out(&seats));
    assert!(!state.is_laid_out(&vec![Some("a".to_string())]));
}
