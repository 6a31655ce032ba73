//! One save directory, whether it may be written to, and what a load decides.
//!
//! The decisions are all in what happens when the file is missing, corrupt,
//! or from a build that does not exist yet:
//!
//! - **The backup rotates on load, not on write**, and only from a primary
//!   that was just proven to parse. A backup that followed every write would
//!   be worthless against a bug writing a valid-but-wrong save.
//! - **An unreadable primary is quarantined, never deleted.** It is the only
//!   evidence a bug report will carry.
//! - **A save from a newer build disarms every write.** Refusing to load is
//!   the harmless half; the hazard is a fresh game autosaving over the
//!   player's real save a minute later. Nothing re-arms writes except the
//!   player choosing to start over.
//! - **A first launch says nothing**, and is told apart from a lost save
//!   before any parse.

use vstd::prelude::*;
use crate::save::SCHEMA_VERSION;

verus! {

pub const SAVE_FILE: &'static str = "save.ron";
pub const BACKUP_FILE: &'static str = "save.backup.ron";
pub const SETTINGS_FILE: &'static str = "settings.ron";

/// When the game writes. These four are the whole policy.
#[derive(Debug, Clone, Copy, PartialEq, Eq, Structural)]
pub enum Trigger {
    /// Primary: the window lost focus.
    FocusLost,
    /// Backstop: the platform suspended the app.
    Suspended,
    /// The floor under every other trigger.
    Timer,
    /// A commit point: prestige is the only irreversible destructive act.
    Prestige,
}

#[verifier::external_type_specification]
#[verifier::external_body]
pub struct ExIoError(std::io::Error);

/// Why a write did not happen.
#[derive(Debug)]
pub enum Error {
    /// The save is from a newer build, so writing would destroy it.
    WritesDisarmed,
    Io(std::io::Error),
    Serialise(String),
}

impl From<std::io::Error> for Error {
    fn from(e: std::io::Error) -> (r: Self) {
        Error::Io(e)
    }
}

impl vstd::std_specs::convert::FromSpecImpl<std::io::Error> for Error {
    open spec fn obeys_from_spec() -> bool {
        true
    }

    open spec fn from_spec(e: std::io::Error) -> Self {
        Error::Io(e)
    }
}

/// Player preferences, in their own file. Nothing is settled about what goes
/// in here yet, so it is empty rather than speculative.
#[derive(Debug, Clone, Copy, PartialEq, Eq, Structural)]
pub struct Settings {}

impl Default for Settings {
    fn default() -> (s: Self)
        ensures
            s == (Settings {}),
    {
        Settings {}
    }
}

/// `name` inside directory `dir`: joined with a separator unless `dir` is
/// empty or already ends in one.
pub open spec fn path_in(dir: Seq<char>, name: Seq<char>) -> Seq<char> {
    if dir.len() == 0 || dir.last() == '/' { dir + name } else { dir + seq!['/'] + name }
}

fn join(dir: &String, name: &str) -> (p: String)
    ensures
        p@ == path_in(dir@, name@),
{
    let s = dir.as_str();
    let len = s.unicode_len();
    let mut p = dir.clone();
    if len == 0 || s.get_char(len - 1) == '/' {
        p.append(name);
    } else {
        proof {
            reveal_strlit("/");
        }
        p.append("/");
        p.append(name);
        assert(p@ =~= dir@ + seq!['/'] + name@);
    }
    p
}

/// How the primary save file read.
#[derive(Debug, Clone, Copy, PartialEq, Eq, Structural)]
pub enum PrimaryFile {
    /// There is no file: a first launch, unless a backup survives it.
    Missing,
    /// There is a file but it could not be read — permissions, a bad mount.
    Unreadable,
    /// The file was read. `probed` is the version a lenient probe found in
    /// it, if it found one; `parses` is whether the whole save parsed and
    /// validated.
    Read { probed: Option<u32>, parses: bool },
}

/// How the backup file read.
#[derive(Debug, Clone, Copy, PartialEq, Eq, Structural)]
pub enum BackupFile {
    /// Missing or unreadable.
    Unreadable,
    /// Read, with the same two findings as a primary.
    Read { probed: Option<u32>, parses: bool },
}

/// What happened when the save was read.
#[derive(Debug, Clone, Copy, PartialEq, Eq, Structural)]
pub enum Outcome {
    /// No save and no backup. A new game, and nothing is said about it.
    FreshStart,
    /// The primary loaded.
    Restored,
    /// The primary could not be used; the backup, the state the last session
    /// ended in, was.
    RestoredFromBackup,
    /// The primary was unusable and there was no usable backup behind it.
    Lost,
    /// Written by a build that does not exist yet. Writes are disarmed.
    RefusedNewerVersion { found: u32, known: u32 },
}

/// What a load does: its outcome, and the two things it does to the files.
#[derive(Debug, Clone, Copy, PartialEq, Eq, Structural)]
pub struct LoadPlan {
    pub outcome: Outcome,
    /// Copy the primary, byte for byte, over the backup.
    pub rotate_backup: bool,
    /// Move the primary aside under a quarantine name.
    pub quarantine_primary: bool,
}

/// Whether a probed version comes from a newer build.
pub open spec fn newer(probed: Option<u32>) -> bool {
    probed matches Some(v) && v > SCHEMA_VERSION
}

/// Whether the backup can be restored from: read, not from a newer build,
/// and parsed.
pub open spec fn backup_usable(b: BackupFile) -> bool {
    b matches BackupFile::Read { probed, parses } && !newer(probed) && parses
}

/// The outcome that falls back to the backup.
pub open spec fn fallback(b: BackupFile, otherwise: Outcome) -> Outcome {
    if backup_usable(b) { Outcome::RestoredFromBackup } else { otherwise }
}

/// What a load with these findings decides.
pub open spec fn spec_plan(p: PrimaryFile, b: BackupFile) -> LoadPlan {
    match p {
        PrimaryFile::Missing => LoadPlan {
            outcome: fallback(b, Outcome::FreshStart),
            rotate_backup: false,
            quarantine_primary: false,
        },
        PrimaryFile::Unreadable => LoadPlan {
            outcome: fallback(b, Outcome::Lost),
            rotate_backup: false,
            quarantine_primary: false,
        },
        PrimaryFile::Read { probed, parses } => if newer(probed) {
            LoadPlan {
                outcome: Outcome::RefusedNewerVersion { found: probed->0, known: SCHEMA_VERSION },
                rotate_backup: false,
                quarantine_primary: false,
            }
        } else if parses {
            LoadPlan { outcome: Outcome::Restored, rotate_backup: true, quarantine_primary: false }
        } else {
            LoadPlan {
                outcome: fallback(b, Outcome::Lost),
                rotate_backup: false,
                quarantine_primary: true,
            }
        },
    }
}

/// Whether these findings disarm writes: a primary that is present but
/// unreadable is probably still intact, and one from a newer build must not
/// be overwritten.
pub open spec fn disarms(p: PrimaryFile) -> bool {
    match p {
        PrimaryFile::Unreadable => true,
        PrimaryFile::Read { probed, .. } => newer(probed),
        PrimaryFile::Missing => false,
    }
}

/// One call on a slot that can touch whether it may write: a load with what
/// it found in the primary, a write on a trigger, or the player's choice to
/// start over.
#[derive(Debug, Clone, Copy, PartialEq, Eq, Structural)]
pub enum SlotCall {
    Load(PrimaryFile),
    Write(Trigger),
    StartOver,
}

/// Whether writes are armed after `call`, given whether they were before:
/// what [`SaveSlot::plan_load`], [`SaveSlot::check_write`] and
/// [`SaveSlot::arm_writes_and_discard_newer_save`] each do to the flag.
pub open spec fn armed_after_call(armed: bool, call: SlotCall) -> bool {
    match call {
        SlotCall::Load(p) => armed && !disarms(p),
        SlotCall::Write(_) => armed,
        SlotCall::StartOver => true,
    }
}

/// Whether writes are armed on a slot made by [`SaveSlot::new`], which arms
/// it, after `calls` in order.
pub open spec fn armed_after(calls: Seq<SlotCall>) -> bool
    decreases calls.len(),
{
    if calls.len() == 0 {
        true
    } else {
        armed_after_call(armed_after(calls.drop_last()), calls.last())
    }
}

/// Whether `calls[i]` is a load that disarms writes and no start-over follows
/// it.
pub open spec fn disarming_load_stands(calls: Seq<SlotCall>, i: int) -> bool {
    &&& 0 <= i < calls.len()
    &&& calls[i] matches SlotCall::Load(p) && disarms(p)
    &&& forall|j: int| i < j < calls.len() ==> !(#[trigger] calls[j] is StartOver)
}

fn is_newer(probed: Option<u32>) -> (b: bool)
    ensures
        b == newer(probed),
{
    match probed {
        Some(v) => v > SCHEMA_VERSION,
        None => false,
    }
}

fn usable(b: BackupFile) -> (u: bool)
    ensures
        u == backup_usable(b),
{
    match b {
        BackupFile::Read { probed, parses } => !is_newer(probed) && parses,
        BackupFile::Unreadable => false,
    }
}

/// One save directory, and whether it may be written to.
#[derive(Debug, Clone)]
pub struct SaveSlot {
    dir: String,
    writes_armed: bool,
}

impl SaveSlot {
    pub closed spec fn spec_dir(&self) -> Seq<char> {
        self.dir@
    }

    pub closed spec fn armed(&self) -> bool {
        self.writes_armed
    }

    /// A slot on `dir`, armed for writing.
    pub fn new(dir: String) -> (s: Self)
        ensures
            s.spec_dir() == dir@,
            s.armed(),
    {
        SaveSlot { dir, writes_armed: true }
    }

    pub fn dir(&self) -> (d: &str)
        ensures
            d@ == self.spec_dir(),
    {
        self.dir.as_str()
    }

    pub fn primary_path(&self) -> (p: String)
        ensures
            p@ == path_in(self.spec_dir(), SAVE_FILE@),
    {
        join(&self.dir, SAVE_FILE)
    }

    pub fn backup_path(&self) -> (p: String)
        ensures
            p@ == path_in(self.spec_dir(), BACKUP_FILE@),
    {
        join(&self.dir, BACKUP_FILE)
    }

    /// False once a newer-version save has been seen, or a present save could
    /// not be read.
    pub fn writes_armed(&self) -> (b: bool)
        ensures
            b == self.armed(),
    {
        self.writes_armed
    }

    /// Deliberate, player-initiated "start a new tower" — the only thing that
    /// re-arms writes after a newer-version save has locked them.
    pub fn arm_writes_and_discard_newer_save(&mut self)
        ensures
            final(self).armed(),
            final(self).armed() == armed_after_call(old(self).armed(), SlotCall::StartOver),
            final(self).spec_dir() == old(self).spec_dir(),
    {
        self.writes_armed = true;
    }

    /// Decides a load from what the two files held, disarming writes where
    /// the findings call for it. Writes are never re-armed here.
    pub fn plan_load(&mut self, primary: PrimaryFile, backup: BackupFile) -> (plan: LoadPlan)
        ensures
            plan == spec_plan(primary, backup),
            (primary matches PrimaryFile::Read { probed, parses } && parses
                && !(probed matches Some(v) && v > SCHEMA_VERSION)) ==> plan == (LoadPlan {
                outcome: Outcome::Restored,
                rotate_backup: true,
                quarantine_primary: false,
            }),
            final(self).armed() == (old(self).armed() && !disarms(primary)),
            final(self).armed() == armed_after_call(old(self).armed(), SlotCall::Load(primary)),
            final(self).spec_dir() == old(self).spec_dir(),
    {
        match primary {
            PrimaryFile::Missing => LoadPlan {
                outcome: if usable(backup) { Outcome::RestoredFromBackup } else { Outcome::FreshStart },
                rotate_backup: false,
                quarantine_primary: false,
            },
            PrimaryFile::Unreadable => {
                self.writes_armed = false;
                LoadPlan {
                    outcome: if usable(backup) { Outcome::RestoredFromBackup } else { Outcome::Lost },
                    rotate_backup: false,
                    quarantine_primary: false,
                }
            },
            PrimaryFile::Read { probed, parses } => {
                if is_newer(probed) {
                    self.writes_armed = false;
                    let found = match probed {
                        Some(v) => v,
                        None => 0,
                    };
                    LoadPlan {
                        outcome: Outcome::RefusedNewerVersion { found, known: SCHEMA_VERSION },
                        rotate_backup: false,
                        quarantine_primary: false,
                    }
                } else if parses {
                    LoadPlan { outcome: Outcome::Restored, rotate_backup: true, quarantine_primary: false }
                } else {
                    LoadPlan {
                        outcome: if usable(backup) { Outcome::RestoredFromBackup } else { Outcome::Lost },
                        rotate_backup: false,
                        quarantine_primary: true,
                    }
                }
            },
        }
    }

    /// Whether a write on `trigger` may go ahead. Every trigger is refused
    /// alike while writes are disarmed.
    pub fn check_write(&self, trigger: Trigger) -> (r: Result<(), Error>)
        ensures
            r is Ok <==> self.armed(),
            r matches Err(e) ==> e is WritesDisarmed,
    {
        if self.writes_armed {
            Ok(())
        } else {
            Err(Error::WritesDisarmed)
        }
    }
}

#[verifier::external_type_specification]
#[verifier::external_body]
pub struct ExSystemTime(std::time::SystemTime);

/// `std::time::SystemTime::now`. The wall clock: nothing is promised of it.
#[verifier::external_body]
fn system_now() -> std::time::SystemTime {
    std::time::SystemTime::now()
}

/// `SystemTime::duration_since(UNIX_EPOCH)`, with its error dropped: `None`
/// for a clock set before 1970. Nothing about the duration is stated.
#[verifier::external_body]
fn since_epoch(t: &std::time::SystemTime) -> Option<std::time::Duration> {
    t.duration_since(std::time::UNIX_EPOCH).ok()
}

/// `Duration::as_millis`: the whole milliseconds in `d`. Nothing about the
/// value is stated, since the duration is opaque here.
#[verifier::external_body]
fn whole_millis(d: &std::time::Duration) -> u128 {
    d.as_millis()
}

/// What a clock reading comes to in Unix milliseconds: the whole
/// milliseconds since 1970, cut to 64 bits, or 0 for a clock set before 1970.
pub fn unix_millis(since_epoch_millis: Option<u128>) -> (ms: u64)
    ensures
        ms == (match since_epoch_millis {
            Some(m) => m as u64,
            None => 0u64,
        }),
{
    match since_epoch_millis {
        Some(m) => m as u64,
        None => 0,
    }
}

/// The wall clock in Unix milliseconds, or 0 for a clock before 1970. The
/// clock itself is read outside: what holds of every reading is only what
/// [`unix_millis`] makes of it.
pub fn now_unix_millis() -> u64 {
    let reading = match since_epoch(&system_now()) {
        Some(d) => Some(whole_millis(&d)),
        None => None,
    };
    unix_millis(reading)
}

} // verus!
