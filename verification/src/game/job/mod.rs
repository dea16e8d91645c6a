pub mod citizen;
pub mod default_chat;
pub mod job;
pub mod mafia;
pub mod option;

use vstd::prelude::*;

use job::PlayerJob;
use mafia::mafia::Mafia;

verus! {

/// Every job of the game, with the placeholders `Special` and `Assist`
/// that job assignment replaces by a special or an assisting job.
#[derive(Debug, Clone, Copy, PartialEq, Eq, Structural)]
pub enum JobList {
    NoJob,
    Mafia,
    Police,
    Doctor,
    Special,
    Assist,
    Cult,
    Citizen,
    Soldier,
    Politician,
    Shaman,
    Reporter,
    Gangster,
    Detective,
    Ghoul,
    Terrorist,
    Priest,
    Magician,
    Hacker,
    Prophet,
    Judge,
    Nurse,
    Mentalist,
    Couple,
    Villain,
    Spy,
    Beastman,
    Madam,
    Thief,
    Scientist,
    Witch,
    Frog,
    Swindler,
    HitMan,
    Agent,
    Mercenary,
    Administrator,
    Cabal,
    Paparazzi,
    Fanatic,
}

impl JobList {
    /// The number that stands for the job on the wire (its position in the list).
    pub open spec fn spec_code(self) -> i32 {
        match self {
            JobList::NoJob => 0,
            JobList::Mafia => 1,
            JobList::Police => 2,
            JobList::Doctor => 3,
            JobList::Special => 4,
            JobList::Assist => 5,
            JobList::Cult => 6,
            JobList::Citizen => 7,
            JobList::Soldier => 8,
            JobList::Politician => 9,
            JobList::Shaman => 10,
            JobList::Reporter => 11,
            JobList::Gangster => 12,
            JobList::Detective => 13,
            JobList::Ghoul => 14,
            JobList::Terrorist => 15,
            JobList::Priest => 16,
            JobList::Magician => 17,
            JobList::Hacker => 18,
            JobList::Prophet => 19,
            JobList::Judge => 20,
            JobList::Nurse => 21,
            JobList::Mentalist => 22,
            JobList::Couple => 23,
            JobList::Villain => 24,
            JobList::Spy => 25,
            JobList::Beastman => 26,
            JobList::Madam => 27,
            JobList::Thief => 28,
            JobList::Scientist => 29,
            JobList::Witch => 30,
            JobList::Frog => 31,
            JobList::Swindler => 32,
            JobList::HitMan => 33,
            JobList::Agent => 34,
            JobList::Mercenary => 35,
            JobList::Administrator => 36,
            JobList::Cabal => 37,
            JobList::Paparazzi => 38,
            JobList::Fanatic => 39,
        }
    }

    /// The job's name as players see it.
    pub open spec fn spec_name(self) -> Seq<char> {
        match self {
            JobList::NoJob => "무직"@,
            JobList::Mafia => "마피아"@,
            JobList::Police => "경찰"@,
            JobList::Doctor => "의사"@,
            JobList::Special => "특수 직업"@,
            JobList::Assist => "보조 직업"@,
            JobList::Cult => "교주"@,
            JobList::Citizen => "시민"@,
            JobList::Soldier => "군인"@,
            JobList::Politician => "정치인"@,
            JobList::Shaman => "영매"@,
            JobList::Reporter => "기자"@,
            JobList::Gangster => "건달"@,
            JobList::Detective => "사립탐정"@,
            JobList::Ghoul => "도굴꾼"@,
            JobList::Terrorist => "테러리스트"@,
            JobList::Priest => "성직자"@,
            JobList::Magician => "마술사"@,
            JobList::Hacker => "해커"@,
            JobList::Prophet => "예언자"@,
            JobList::Judge => "판사"@,
            JobList::Nurse => "간호사"@,
            JobList::Mentalist => "심리학자"@,
            JobList::Couple => "연인"@,
            JobList::Villain => "악인"@,
            JobList::Spy => "스파이"@,
            JobList::Beastman => "짐승인간"@,
            JobList::Madam => "마담"@,
            JobList::Thief => "도둑"@,
            JobList::Scientist => "과학자"@,
            JobList::Witch => "마녀"@,
            JobList::Frog => "개구리"@,
            JobList::Swindler => "사기꾼"@,
            JobList::HitMan => "청부업자"@,
            JobList::Agent => "요원"@,
            JobList::Mercenary => "용병"@,
            JobList::Administrator => "공무원"@,
            JobList::Cabal => "비밀결사"@,
            JobList::Paparazzi => "파파라치"@,
            JobList::Fanatic => "광신도"@,
        }
    }

    #[verifier::when_used_as_spec(spec_code)]
    pub fn code(self) -> (res: i32)
        ensures
            res == self.spec_code(),
    {
        match self {
            JobList::NoJob => 0,
            JobList::Mafia => 1,
            JobList::Police => 2,
            JobList::Doctor => 3,
            JobList::Special => 4,
            JobList::Assist => 5,
            JobList::Cult => 6,
            JobList::Citizen => 7,
            JobList::Soldier => 8,
            JobList::Politician => 9,
            JobList::Shaman => 10,
            JobList::Reporter => 11,
            JobList::Gangster => 12,
            JobList::Detective => 13,
            JobList::Ghoul => 14,
            JobList::Terrorist => 15,
            JobList::Priest => 16,
            JobList::Magician => 17,
            JobList::Hacker => 18,
            JobList::Prophet => 19,
            JobList::Judge => 20,
            JobList::Nurse => 21,
            JobList::Mentalist => 22,
            JobList::Couple => 23,
            JobList::Villain => 24,
            JobList::Spy => 25,
            JobList::Beastman => 26,
            JobList::Madam => 27,
            JobList::Thief => 28,
            JobList::Scientist => 29,
            JobList::Witch => 30,
            JobList::Frog => 31,
            JobList::Swindler => 32,
            JobList::HitMan => 33,
            JobList::Agent => 34,
            JobList::Mercenary => 35,
            JobList::Administrator => 36,
            JobList::Cabal => 37,
            JobList::Paparazzi => 38,
            JobList::Fanatic => 39,
        }
    }

    /// The job's name as players see it.
    pub fn name(self) -> (res: &'static str)
        ensures
            res@ == self.spec_name(),
    {
        match self {
            JobList::NoJob => "무직",
            JobList::Mafia => "마피아",
            JobList::Police => "경찰",
            JobList::Doctor => "의사",
            JobList::Special => "특수 직업",
            JobList::Assist => "보조 직업",
            JobList::Cult => "교주",
            JobList::Citizen => "시민",
            JobList::Soldier => "군인",
            JobList::Politician => "정치인",
            JobList::Shaman => "영매",
            JobList::Reporter => "기자",
            JobList::Gangster => "건달",
            JobList::Detective => "사립탐정",
            JobList::Ghoul => "도굴꾼",
            JobList::Terrorist => "테러리스트",
            JobList::Priest => "성직자",
            JobList::Magician => "마술사",
            JobList::Hacker => "해커",
            JobList::Prophet => "예언자",
            JobList::Judge => "판사",
            JobList::Nurse => "간호사",
            JobList::Mentalist => "심리학자",
            JobList::Couple => "연인",
            JobList::Villain => "악인",
            JobList::Spy => "스파이",
            JobList::Beastman => "짐승인간",
            JobList::Madam => "마담",
            JobList::Thief => "도둑",
            JobList::Scientist => "과학자",
            JobList::Witch => "마녀",
            JobList::Frog => "개구리",
            JobList::Swindler => "사기꾼",
            JobList::HitMan => "청부업자",
            JobList::Agent => "요원",
            JobList::Mercenary => "용병",
            JobList::Administrator => "공무원",
            JobList::Cabal => "비밀결사",
            JobList::Paparazzi => "파파라치",
            JobList::Fanatic => "광신도",
        }
    }

    /// The job object that plays this job: every job is played as a mafia.
    pub fn create_job(self) -> (res: PlayerJob)
        ensures
            res == PlayerJob::Mafia(Mafia),
    {
        match self {
            JobList::Mafia => PlayerJob::Mafia(Mafia::new()),
            _ => PlayerJob::Mafia(Mafia::new()),
        }
    }
}

/// Every job has a name of its own, and no name is empty.
pub proof fn lemma_job_names_distinct(a: JobList, b: JobList)
    ensures
        a.spec_name().len() > 0,
        a != b ==> a.spec_name() != b.spec_name(),
{
    reveal_strlit("무직");
    reveal_strlit("마피아");
    reveal_strlit("경찰");
    reveal_strlit("의사");
    reveal_strlit("특수 직업");
    reveal_strlit("보조 직업");
    reveal_strlit("교주");
    reveal_strlit("시민");
    reveal_strlit("군인");
    reveal_strlit("정치인");
    reveal_strlit("영매");
    reveal_strlit("기자");
    reveal_strlit("건달");
    reveal_strlit("사립탐정");
    reveal_strlit("도굴꾼");
    reveal_strlit("테러리스트");
    reveal_strlit("성직자");
    reveal_strlit("마술사");
    reveal_strlit("해커");
    reveal_strlit("예언자");
    reveal_strlit("판사");
    reveal_strlit("간호사");
    reveal_strlit("심리학자");
    reveal_strlit("연인");
    reveal_strlit("악인");
    reveal_strlit("스파이");
    reveal_strlit("짐승인간");
    reveal_strlit("마담");
    reveal_strlit("도둑");
    reveal_strlit("과학자");
    reveal_strlit("마녀");
    reveal_strlit("개구리");
    reveal_strlit("사기꾼");
    reveal_strlit("청부업자");
    reveal_strlit("요원");
    reveal_strlit("용병");
    reveal_strlit("공무원");
    reveal_strlit("비밀결사");
    reveal_strlit("파파라치");
    reveal_strlit("광신도");
    if a != b && a.spec_name() == b.spec_name() {
        assert(a.spec_name()[0] == b.spec_name()[0]);
        assert(a.spec_name()[1] == b.spec_name()[1]);
    }
}

/// A job's number on the wire is its place in the job list, counted from 0
/// (no job 0, mafia 1, police 2, doctor 3, ...), so different jobs have
/// different numbers, all from 0 to 39.
pub proof fn lemma_job_codes(a: JobList, b: JobList)
    ensures
        JobList::NoJob.spec_code() == 0,
        JobList::Mafia.spec_code() == 1,
        JobList::Police.spec_code() == 2,
        JobList::Doctor.spec_code() == 3,
        JobList::Special.spec_code() == 4,
        JobList::Assist.spec_code() == 5,
        JobList::Cult.spec_code() == 6,
        JobList::Citizen.spec_code() == 7,
        JobList::Soldier.spec_code() == 8,
        JobList::Politician.spec_code() == 9,
        JobList::Shaman.spec_code() == 10,
        JobList::Reporter.spec_code() == 11,
        JobList::Gangster.spec_code() == 12,
        JobList::Detective.spec_code() == 13,
        JobList::Ghoul.spec_code() == 14,
        JobList::Terrorist.spec_code() == 15,
        JobList::Priest.spec_code() == 16,
        JobList::Magician.spec_code() == 17,
        JobList::Hacker.spec_code() == 18,
        JobList::Prophet.spec_code() == 19,
        JobList::Judge.spec_code() == 20,
        JobList::Nurse.spec_code() == 21,
        JobList::Mentalist.spec_code() == 22,
        JobList::Couple.spec_code() == 23,
        JobList::Villain.spec_code() == 24,
        JobList::Spy.spec_code() == 25,
        JobList::Beastman.spec_code() == 26,
        JobList::Madam.spec_code() == 27,
        JobList::Thief.spec_code() == 28,
        JobList::Scientist.spec_code() == 29,
        JobList::Witch.spec_code() == 30,
        JobList::Frog.spec_code() == 31,
        JobList::Swindler.spec_code() == 32,
        JobList::HitMan.spec_code() == 33,
        JobList::Agent.spec_code() == 34,
        JobList::Mercenary.spec_code() == 35,
        JobList::Administrator.spec_code() == 36,
        JobList::Cabal.spec_code() == 37,
        JobList::Paparazzi.spec_code() == 38,
        JobList::Fanatic.spec_code() == 39,
        0 <= a.spec_code() <= 39,
        a != b ==> a.spec_code() != b.spec_code(),
{
}

impl Default for JobList {
    fn default() -> (res: Self)
        ensures
            res == JobList::NoJob,
    {
        JobList::NoJob
    }
}

/// The side a job plays for.
#[derive(Debug, Clone, Copy, PartialEq, Eq, Structural)]
pub enum Team {
    MafiaTeam,
    CitizenTeam,
    CultTeam,
}

} // verus!
