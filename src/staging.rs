//! The puzzles staged for upload, with the account token and target study.

use vstd::prelude::*;
use vstd::string::StrSliceExecFns;
use crate::puzzle::Puzzle;
use crate::format::push_str;
use crate::text::string_of;

verus! {

/// How many puzzles a study can take.
pub const STAGE_CAPACITY: usize = 64;

/// Why a staging or upload request is refused.
#[derive(Clone, Copy, Debug, PartialEq, Eq, Structural)]
pub enum StageError {
    /// The stage already holds as many puzzles as a study takes.
    StageFull,
    /// The staged puzzles were already uploaded to the current study.
    AlreadyUploaded,
    /// No target study is set.
    NoStudy,
    /// Nothing is staged.
    NothingStaged,
}

/// The message shown for a refusal.
pub open spec fn stage_error_text(e: StageError) -> Seq<char> {
    match e {
        StageError::StageFull => "Stage is already full; use 'c' to clear it first"@,
        StageError::AlreadyUploaded => "The currently staged puzzles have already been uploaded to this study"@,
        StageError::NoStudy => "Must enter a target study id before attempting to upload"@,
        StageError::NothingStaged => "Must stage at least one puzzle before attempting to upload"@,
    }
}

impl StageError {
    /// Returns the message shown for this refusal.
    pub fn message(&self) -> (s: String)
        ensures
            s@ == stage_error_text(*self),
    {
        let mut out: Vec<char> = Vec::new();
        match self {
            StageError::StageFull => push_str(&mut out, "Stage is already full; use 'c' to clear it first"),
            StageError::AlreadyUploaded => push_str(
                &mut out,
                "The currently staged puzzles have already been uploaded to this study",
            ),
            StageError::NoStudy => push_str(&mut out, "Must enter a target study id before attempting to upload"),
            StageError::NothingStaged => push_str(
                &mut out,
                "Must stage at least one puzzle before attempting to upload",
            ),
        }
        string_of(&out)
    }
}

/// The state of an upload session: the personal access token, the target
/// study, the staged puzzles, and whether they were already uploaded there.
pub struct App {
    pub pat: String,
    pub study_id: String,
    pub puzzles: Vec<Puzzle>,
    pub is_data_stale: bool,
}

impl App {
    /// A session with no token, no study and nothing staged.
    pub fn new() -> (a: App)
        ensures
            a.pat@.len() == 0,
            a.study_id@.len() == 0,
            a.puzzles@.len() == 0,
            !a.is_data_stale,
    {
        App { pat: String::new(), study_id: String::new(), puzzles: Vec::new(), is_data_stale: false }
    }

    /// Returns the ids of the staged puzzles, in order.
    pub fn get_staged_ids(&self) -> (ids: Vec<String>)
        ensures
            ids@.len() == self.puzzles@.len(),
            forall|i: int| 0 <= i < ids@.len() ==> (#[trigger] ids@[i])@ == self.puzzles@[i].id@,
    {
        let mut ids: Vec<String> = Vec::new();
        let mut i: usize = 0;
        while i < self.puzzles.len()
            invariant
                i <= self.puzzles@.len(),
                ids@.len() == i,
                forall|j: int| 0 <= j < i ==> (#[trigger] ids@[j])@ == self.puzzles@[j].id@,
            decreases self.puzzles@.len() - i,
        {
            ids.push(self.puzzles[i].id.clone());
            i = i + 1;
        }
        ids
    }

    /// Returns how many puzzles fit on the stage, or `StageFull`; when there
    /// is room the staged set counts as not yet uploaded.
    pub fn begin_autofill(&mut self) -> (r: Result<usize, StageError>)
        ensures
            old(self).puzzles@.len() >= STAGE_CAPACITY ==> r == Err::<usize, StageError>(StageError::StageFull)
                && *final(self) == *old(self),
            old(self).puzzles@.len() < STAGE_CAPACITY ==> r == Ok::<usize, StageError>(
                (STAGE_CAPACITY - old(self).puzzles@.len()) as usize,
            ) && final(self).puzzles == old(self).puzzles && final(self).pat == old(self).pat
                && final(self).study_id == old(self).study_id && !final(self).is_data_stale,
    {
        if self.puzzles.len() >= STAGE_CAPACITY {
            return Err(StageError::StageFull);
        }
        self.is_data_stale = false;
        Ok(STAGE_CAPACITY - self.puzzles.len())
    }

    /// Adds `fetched` to the stage, as many as fit, and returns how many did
    /// not fit.
    pub fn stage(&mut self, fetched: Vec<Puzzle>) -> (dropped: usize)
        ensures
            ({
                let room = if old(self).puzzles@.len() >= STAGE_CAPACITY {
                    0
                } else {
                    STAGE_CAPACITY - old(self).puzzles@.len()
                };
                let taken = if fetched@.len() <= room {
                    fetched@.len() as int
                } else {
                    room
                };
                &&& final(self).puzzles@ == old(self).puzzles@ + fetched@.take(taken)
                &&& dropped == fetched@.len() - taken
            }),
            final(self).pat == old(self).pat,
            final(self).study_id == old(self).study_id,
            final(self).is_data_stale == old(self).is_data_stale,
    {
        let ghost start = self.puzzles@;
        let room: usize = if self.puzzles.len() >= STAGE_CAPACITY {
            0
        } else {
            STAGE_CAPACITY - self.puzzles.len()
        };
        let total = fetched.len();
        let mut rest = fetched;
        let mut i: usize = 0;
        let ghost all = rest@;
        while i < room && rest.len() > 0
            invariant
                i <= room,
                i <= total,
                all.len() == total,
                rest@ == all.skip(i as int),
                self.puzzles@ == start + all.take(i as int),
                self.pat == old(self).pat,
                self.study_id == old(self).study_id,
                self.is_data_stale == old(self).is_data_stale,
            decreases rest@.len(),
        {
            let p = rest.remove(0);
            assert(p == all[i as int]);
            assert(rest@ =~= all.skip(i + 1));
            self.puzzles.push(p);
            assert(start + all.take(i + 1) =~= (start + all.take(i as int)).push(p));
            i = i + 1;
        }
        total - i
    }

    /// Returns `Ok` when the stage can be uploaded: not already uploaded, a
    /// study set, and something staged; else the first of these that fails.
    pub fn check_upload(&self) -> (r: Result<(), StageError>)
        ensures
            r == (if self.is_data_stale {
                Err(StageError::AlreadyUploaded)
            } else if self.study_id@.len() == 0 {
                Err(StageError::NoStudy)
            } else if self.puzzles@.len() == 0 {
                Err(StageError::NothingStaged)
            } else {
                Ok(())
            }),
    {
        if self.is_data_stale {
            Err(StageError::AlreadyUploaded)
        } else if self.study_id.as_str().unicode_len() == 0 {
            Err(StageError::NoStudy)
        } else if self.puzzles.len() == 0 {
            Err(StageError::NothingStaged)
        } else {
            Ok(())
        }
    }

    /// Empties the stage and returns how many puzzles it held.
    pub fn clear_puzzles(&mut self) -> (n: usize)
        ensures
            n == old(self).puzzles@.len(),
            final(self).puzzles@.len() == 0,
            !final(self).is_data_stale,
            final(self).pat == old(self).pat,
            final(self).study_id == old(self).study_id,
    {
        let n = self.puzzles.len();
        self.puzzles = Vec::new();
        self.is_data_stale = false;
        n
    }
}

} // verus!

verus! {

/// What a line typed at the prompt asks for.
#[derive(Clone, Copy, Debug, PartialEq, Eq, Structural)]
pub enum Command {
    Quit,
    Help,
    ChangePat,
    SetStudy,
    Clear,
    Autofill,
    Upload,
    /// Anything else: possibly a list of puzzle ids.
    Other,
}

/// The command a one-letter line names, in either case.
pub open spec fn command_of(line: Seq<char>) -> Command {
    if line.len() != 1 {
        Command::Other
    } else {
        let c = line[0];
        if c == 'q' || c == 'Q' {
            Command::Quit
        } else if c == 'h' || c == 'H' {
            Command::Help
        } else if c == 'p' || c == 'P' {
            Command::ChangePat
        } else if c == 's' || c == 'S' {
            Command::SetStudy
        } else if c == 'c' || c == 'C' {
            Command::Clear
        } else if c == 'f' || c == 'F' {
            Command::Autofill
        } else if c == 'u' || c == 'U' {
            Command::Upload
        } else {
            Command::Other
        }
    }
}

impl Command {
    /// Reads a line typed at the prompt.
    pub fn parse(line: &str) -> (c: Command)
        ensures
            c == command_of(line@),
    {
        if line.unicode_len() != 1 {
            return Command::Other;
        }
        match line.get_char(0) {
            'q' | 'Q' => Command::Quit,
            'h' | 'H' => Command::Help,
            'p' | 'P' => Command::ChangePat,
            's' | 'S' => Command::SetStudy,
            'c' | 'C' => Command::Clear,
            'f' | 'F' => Command::Autofill,
            'u' | 'U' => Command::Upload,
            _ => Command::Other,
        }
    }
}

} // verus!
