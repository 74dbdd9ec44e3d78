//! Outcomes and errors of data preparation, the second step of game loading.

use vstd::prelude::*;

use crate::data::MountKind;
use crate::level::LevelError;
use crate::text::eq_ignore_ascii_case;
use crate::tracker::LoadTracker;
use crate::vfs::{extension_of, prefix_of, FileRef};

verus! {

/// What a preparation step gave.
#[derive(Debug)]
pub enum Outcome<T, E> {
    Cancelled,
    /// The input was checked and is not of the expected kind, or is empty.
    Skipped,
    Failed(E),
    Done(T),
}

/// Things that can go wrong during (non-preparation) datum management
/// operations, like lookup and mutation.
#[derive(Debug, Clone, PartialEq, Eq)]
pub enum DatumError {
    /// A data object ID didn't resolve to anything.
    NotFound(String),
}

/// The errors that can happen during data preparation.
#[derive(Debug, Clone, PartialEq, Eq)]
pub enum PrepErrorKind {
    /// A COLORMAP lump is the wrong size; holds the size found.
    ColorMap(usize),
    /// An ENDOOM lump is the wrong size; holds the size found.
    EnDoom(usize),
    /// A file between the `F_START` and `F_END` markers was not 4096 bytes in size.
    Flat,
    Level(LevelError),
    /// Tried to decode a non-picture format image and failed; holds the decoder's message.
    Image(String),
    /// Reading from the file system failed; holds the message.
    Io(String),
    /// A mount declared a script root file that was not found.
    MissingVzsDir,
    /// A PNAMES lump is too short or an incorrect size.
    PNames,
    /// A file between the `S_START` and `S_END` markers is not in picture
    /// format, or any other recognized image format.
    Sprite,
    /// A TEXTURE1 or TEXTURE2 lump is too short or an incorrect size.
    TextureX,
    /// A file was expected to have some byte or string content, but was
    /// instead empty or a directory; holds its path.
    Unreadable(String),
    /// A script failed to parse; holds the parser's message.
    VzsParse(String),
    /// Failure to decode a FLAC, MP3, Ogg, or WAV file; holds the decoder's message.
    WaveformAudio(String),
}

/// An error of data preparation, and the virtual path of the file it concerns.
#[derive(Debug, Clone, PartialEq, Eq)]
pub struct PrepError {
    pub path: String,
    pub kind: PrepErrorKind,
}

impl PrepError {
    /// Whether this error stops the whole load: I/O failures and script
    /// problems do; everything else only spoils the file concerned.
    pub fn is_fatal(&self) -> (r: bool)
        ensures
            r == (self.kind is Io || self.kind is MissingVzsDir || self.kind is VzsParse),
    {
        match self.kind {
            PrepErrorKind::Io(_) | PrepErrorKind::MissingVzsDir | PrepErrorKind::VzsParse(_) => true,
            _ => false,
        }
    }
}

pub open spec fn spec_is_fatal(e: PrepError) -> bool {
    e.kind is Io || e.kind is MissingVzsDir || e.kind is VzsParse
}

/// Whether any mount's errors include a fatal one.
pub open spec fn spec_any_fatal(errors: Seq<Vec<PrepError>>) -> bool {
    exists|i: int, j: int| 0 <= i < errors.len() && 0 <= j < errors[i]@.len() && spec_is_fatal(#[trigger] errors[i]@[j])
}

/// Whether any of the per-mount error lists holds a fatal error.
pub fn any_fatal_errors(errors: &Vec<Vec<PrepError>>) -> (r: bool)
    ensures
        r == spec_any_fatal(errors@),
{
    let mut i: usize = 0;
    while i < errors.len()
        invariant
            i <= errors@.len(),
            forall|a: int, b: int| 0 <= a < i && 0 <= b < errors@[a]@.len() ==> !spec_is_fatal(#[trigger] errors@[a]@[b]),
        decreases errors@.len() - i,
    {
        let mut j: usize = 0;
        while j < errors[i].len()
            invariant
                i < errors@.len(),
                j <= errors@[i as int]@.len(),
                forall|b: int| 0 <= b < j ==> !spec_is_fatal(#[trigger] errors@[i as int]@[b]),
            decreases errors@[i as int]@.len() - j,
        {
            if errors[i][j].is_fatal() {
                return true;
            }
            j = j + 1;
        }
        i = i + 1;
    }
    false
}

/// The passes of data preparation: scripts and metadata first, then
/// dependency-free assets, then assets that depend on those.
#[derive(Debug, Clone, Copy, PartialEq, Eq)]
pub enum PrepPass {
    First,
    Second,
    Third,
}

/// What the preparation driver asks for next.
#[derive(Debug, Clone, Copy, PartialEq, Eq)]
pub enum PrepAction {
    /// Run the given pass over the given mount.
    Run { pass: PrepPass, mount: usize },
    /// A pass has gone over every mount without fatal errors; do what
    /// follows it (after the second pass, take over its artifacts, with
    /// [`post_pass2`](crate::wad::post_pass2); the third pass needs a palette
    /// set, found with [`last_paletteset`](crate::wad::last_paletteset)).
    PassDone(PrepPass),
    /// A cancel was requested: stop, leaving the catalog as it was.
    Cancelled,
    /// A pass ended with fatal errors: finish the tracker and report them.
    Failed,
    /// All passes are done: finish the tracker and keep the results.
    Complete,
}

/// Where preparation stands: the pass under way, the next mount it is to
/// visit, and whether it has stopped.
#[derive(Debug, Clone, Copy, PartialEq, Eq)]
pub struct PrepDriver {
    pub pass: PrepPass,
    pub mount: usize,
    pub mounts_len: usize,
    pub stopped: bool,
}

pub open spec fn next_pass(p: PrepPass) -> PrepPass {
    match p {
        PrepPass::First => PrepPass::Second,
        _ => PrepPass::Third,
    }
}

/// The driver's next state and action. Before each mount of a pass, a
/// requested cancel stops preparation; after the last mount of a pass, a
/// fatal error stops it, the third pass completes it, and any other pass
/// hands over to the next one.
pub open spec fn spec_step(d: PrepDriver, cancelled: bool, fatal: bool) -> (PrepDriver, PrepAction) {
    if d.stopped {
        (d, PrepAction::Complete)
    } else if d.mount < d.mounts_len {
        if cancelled {
            (PrepDriver { stopped: true, ..d }, PrepAction::Cancelled)
        } else {
            (PrepDriver { mount: (d.mount + 1) as usize, ..d }, PrepAction::Run { pass: d.pass, mount: d.mount })
        }
    } else if fatal {
        (PrepDriver { stopped: true, ..d }, PrepAction::Failed)
    } else if d.pass == PrepPass::Third {
        (PrepDriver { stopped: true, ..d }, PrepAction::Complete)
    } else {
        (PrepDriver { pass: next_pass(d.pass), mount: 0, ..d }, PrepAction::PassDone(d.pass))
    }
}

impl PrepDriver {
    /// Preparation of `mounts_len` mounts, about to start the first pass.
    pub fn new(mounts_len: usize) -> (r: PrepDriver)
        ensures
            r == (PrepDriver { pass: PrepPass::First, mount: 0, mounts_len, stopped: false }),
    {
        PrepDriver { pass: PrepPass::First, mount: 0, mounts_len, stopped: false }
    }

    /// Takes the next step. `cancelled` tells whether a cancel has been
    /// requested; `fatal`, whether the errors so far include a fatal one.
    /// Once stopped, the driver stays stopped.
    pub fn step(&mut self, cancelled: bool, fatal: bool) -> (r: PrepAction)
        requires
            old(self).mount <= old(self).mounts_len,
        ensures
            (*final(self), r) == spec_step(*old(self), cancelled, fatal),
            final(self).mount <= final(self).mounts_len,
    {
        if self.stopped {
            return PrepAction::Complete;
        }
        if self.mount < self.mounts_len {
            if cancelled {
                self.stopped = true;
                return PrepAction::Cancelled;
            }
            let m = self.mount;
            self.mount = self.mount + 1;
            return PrepAction::Run { pass: self.pass, mount: m };
        }
        if fatal {
            self.stopped = true;
            return PrepAction::Failed;
        }
        match self.pass {
            PrepPass::Third => {
                self.stopped = true;
                PrepAction::Complete
            },
            PrepPass::First => {
                self.pass = PrepPass::Second;
                self.mount = 0;
                PrepAction::PassDone(PrepPass::First)
            },
            PrepPass::Second => {
                self.pass = PrepPass::Third;
                self.mount = 0;
                PrepAction::PassDone(PrepPass::Second)
            },
        }
    }
}

/// The states and actions of `k` steps taken with no cancel and no fatal error.
pub open spec fn run(d: PrepDriver, k: nat) -> (PrepDriver, Seq<PrepAction>)
    decreases k,
{
    if k == 0 {
        (d, Seq::empty())
    } else {
        let (d1, a) = spec_step(d, false, false);
        let (d2, rest) = run(d1, (k - 1) as nat);
        (d2, seq![a] + rest)
    }
}

/// The actions of a pass over mounts `from .. n`.
pub open spec fn runs(p: PrepPass, from: int, n: int) -> Seq<PrepAction> {
    Seq::new((n - from) as nat, |i: int| PrepAction::Run { pass: p, mount: (from + i) as usize })
}

proof fn lemma_run_split(d: PrepDriver, j: nat, k: nat)
    ensures
        run(d, j + k) == (run(run(d, j).0, k).0, run(d, j).1 + run(run(d, j).0, k).1),
    decreases j,
{
    if j == 0 {
        assert(run(d, 0).1 + run(d, k).1 =~= run(d, k).1);
    } else {
        let d1 = spec_step(d, false, false).0;
        lemma_run_split(d1, (j - 1) as nat, k);
        assert((j + k - 1) as nat == ((j - 1) as nat + k) as nat);
        let a = spec_step(d, false, false).1;
        assert(seq![a] + (run(d1, (j - 1) as nat).1 + run(run(d1, (j - 1) as nat).0, k).1) =~= (seq![a] + run(
            d1,
            (j - 1) as nat,
        ).1) + run(run(d1, (j - 1) as nat).0, k).1);
    }
}

proof fn lemma_run_pass(d: PrepDriver)
    requires
        !d.stopped,
        d.mount <= d.mounts_len,
    ensures
        run(d, (d.mounts_len - d.mount) as nat) == (PrepDriver { mount: d.mounts_len, ..d }, runs(
            d.pass,
            d.mount as int,
            d.mounts_len as int,
        )),
    decreases d.mounts_len - d.mount,
{
    if d.mount < d.mounts_len {
        let d1 = PrepDriver { mount: (d.mount + 1) as usize, ..d };
        lemma_run_pass(d1);
        assert(runs(d.pass, d.mount as int, d.mounts_len as int) =~= seq![
            PrepAction::Run { pass: d.pass, mount: d.mount },
        ] + runs(d.pass, d.mount + 1, d.mounts_len as int));
    } else {
        assert(runs(d.pass, d.mount as int, d.mounts_len as int) =~= Seq::<PrepAction>::empty());
    }
}

/// With no cancel and no fatal error, preparing `n` mounts runs the first
/// pass over every mount in order, then the second, then the third, each
/// pass followed by its end, and then completes.
pub proof fn law_passes_run_in_order(n: usize)
    ensures
        ({
            let (d, acts) = run(
                PrepDriver { pass: PrepPass::First, mount: 0, mounts_len: n, stopped: false },
                (3 * n + 3) as nat,
            );
            &&& d.stopped
            &&& acts == runs(PrepPass::First, 0, n as int).push(PrepAction::PassDone(PrepPass::First)) + runs(
                PrepPass::Second,
                0,
                n as int,
            ).push(PrepAction::PassDone(PrepPass::Second)) + runs(PrepPass::Third, 0, n as int).push(
                PrepAction::Complete,
            )
        }),
{
    let d0 = PrepDriver { pass: PrepPass::First, mount: 0, mounts_len: n, stopped: false };
    let e1 = PrepDriver { mount: n, ..d0 };
    let d1 = PrepDriver { pass: PrepPass::Second, mount: 0, ..d0 };
    let e2 = PrepDriver { mount: n, ..d1 };
    let d2 = PrepDriver { pass: PrepPass::Third, mount: 0, ..d0 };
    let e3 = PrepDriver { mount: n, ..d2 };
    lemma_run_pass(d0);
    lemma_run_pass(d1);
    lemma_run_pass(d2);
    reveal_with_fuel(run, 2);
    assert(run(e1, 1) == (d1, seq![PrepAction::PassDone(PrepPass::First)]));
    assert(run(e2, 1) == (d2, seq![PrepAction::PassDone(PrepPass::Second)]));
    assert(run(e3, 1) == (PrepDriver { stopped: true, ..e3 }, seq![PrepAction::Complete]));
    let m = n as nat;
    lemma_run_split(d0, m, 1);
    lemma_run_split(d0, m + 1, m);
    lemma_run_split(d0, m + 1 + m, 1);
    lemma_run_split(d0, m + 1 + m + 1, m);
    lemma_run_split(d0, m + 1 + m + 1 + m, 1);
    assert((3 * n + 3) as nat == m + 1 + m + 1 + m + 1);
    let acts = run(d0, (3 * n + 3) as nat).1;
    assert(acts =~= runs(PrepPass::First, 0, n as int).push(PrepAction::PassDone(PrepPass::First)) + runs(
        PrepPass::Second,
        0,
        n as int,
    ).push(PrepAction::PassDone(PrepPass::Second)) + runs(PrepPass::Third, 0, n as int).push(
        PrepAction::Complete,
    ));
}

/// Whether a text file at `path` is a script of a kind that the first pass
/// does not handle yet: a `.vzs` file, or one whose prefix is `decorate`,
/// `zscript` or `edfroot` (all ASCII-case-ignored).
pub open spec fn unhandled_script(path: Seq<char>) -> bool {
    ||| (extension_of(path) matches Some(e) && eq_ignore_ascii_case(e, "vzs"@))
    ||| eq_ignore_ascii_case(prefix_of(path), "decorate"@)
    ||| eq_ignore_ascii_case(prefix_of(path), "zscript"@)
    ||| eq_ignore_ascii_case(prefix_of(path), "edfroot"@)
}

/// The first pass over a mount that is a single file: only text files
/// matter to it, and none of the kinds it will read is handled yet.
pub fn prep_pass1_file(file: FileRef<'_>, tracker: &LoadTracker) -> (r: Outcome<(), ()>)
    requires
        file.file_view() is Text ==> !unhandled_script(file.path_view()),
    ensures
        !(file.file_view() is Text) ==> r is Skipped,
        file.file_view() is Text ==> r is Skipped || r is Cancelled,
{
    if !file.is_text() {
        return Outcome::Skipped;
    }
    if tracker.is_cancelled() {
        return Outcome::Cancelled;
    }
    Outcome::Skipped
}

/// What a pass does with one mount, by the mount's kind.
#[derive(Debug, Clone, Copy, PartialEq, Eq)]
pub enum PassWork {
    /// Nothing yet for this kind in this pass.
    Nothing,
    /// Read the package's scripts (first pass of a VileTech package).
    Package,
    /// The first pass over a ZDoom package.
    ZDoomPackage,
    /// The pass over a WAD.
    Wad,
    /// The first pass over a single file ([`prep_pass1_file`]).
    SingleFile,
}

/// The work of `pass` on a mount of kind `kind`. Eternity packages are not
/// handled by any pass yet, nor are ZDoom packages and single files after the
/// first.
pub open spec fn spec_pass_work(pass: PrepPass, kind: MountKind) -> PassWork {
    match pass {
        PrepPass::First => match kind {
            MountKind::VileTech => PassWork::Package,
            MountKind::ZDoom => PassWork::ZDoomPackage,
            MountKind::Wad => PassWork::Wad,
            _ => PassWork::SingleFile,
        },
        _ => match kind {
            MountKind::Wad => PassWork::Wad,
            _ => PassWork::Nothing,
        },
    }
}

/// Whether some pass handles mounts of kind `kind`.
pub open spec fn pass_handles(pass: PrepPass, kind: MountKind) -> bool {
    match pass {
        PrepPass::First => kind != MountKind::Eternity,
        _ => kind == MountKind::Wad || kind == MountKind::VileTech,
    }
}

/// Chooses what a pass does with a mount of the given kind.
pub fn pass_work(pass: PrepPass, kind: MountKind) -> (r: PassWork)
    requires
        pass_handles(pass, kind),
    ensures
        r == spec_pass_work(pass, kind),
{
    match pass {
        PrepPass::First => match kind {
            MountKind::VileTech => PassWork::Package,
            MountKind::ZDoom => PassWork::ZDoomPackage,
            MountKind::Wad => PassWork::Wad,
            _ => PassWork::SingleFile,
        },
        _ => match kind {
            MountKind::Wad => PassWork::Wad,
            _ => PassWork::Nothing,
        },
    }
}

} // verus!
