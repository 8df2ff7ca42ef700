//! Per-level resolution for the literal and prefix strategies, and the
//! two-tier error model.
//!
//! One level is one (ancestor, pattern) pair. The directory read itself is
//! I/O and stays with the caller: it reads the candidate directory once and
//! hands the outcome in as a `DirListing` value. Resolution of that value —
//! which entries match, which errors surface, and that a missing directory
//! is silently treated as empty — is pure and verified here.
//!
//! The not-found policy is fixed here once: only a missing directory at
//! the directory-read step is treated as an empty result; every per-entry
//! failure is surfaced in place, whatever its kind.

use vstd::prelude::*;

use crate::matching::name_matches;
use crate::paths::join_of;
use crate::paths::join;

verus! {

/// A fatal outcome for one (ancestor, pattern) level. It never aborts the
/// walk: other levels are resolved independently.
#[derive(Debug, PartialEq, Eq)]
pub enum LevelError {
    /// The candidate directory exists but could not be enumerated.
    DirectoryUnreadable { message: String },
    /// The combined path is not representable as text; carries the raw
    /// bytes that failed to convert.
    PathNotText { raw: Vec<u8> },
    /// The pattern is syntactically invalid for the glob engine.
    PatternInvalid { message: String },
}

/// A failed outcome for one entry of a level; siblings are unaffected.
#[derive(Debug, PartialEq, Eq)]
pub enum EntryError {
    /// The entry could not be read while its siblings could.
    EntryUnreadable { message: String },
    /// The glob engine reported an error for this entry.
    GlobEngine { message: String },
}

/// What the caller saw when reading one candidate directory.
#[derive(Debug, PartialEq, Eq)]
pub enum DirListing {
    /// The directory does not exist: the common, benign case of an
    /// ancestor level without the target sub-directory.
    Missing,
    /// The directory exists but enumerating it failed.
    Unreadable { message: String },
    /// The directory's immediate entries, in the order the caller read
    /// them.
    Entries(Vec<EntryEvent>),
}

/// One entry of a directory listing, as the caller saw it.
#[derive(Debug, PartialEq, Eq)]
pub enum EntryEvent {
    /// The entry's name: its final path component, as raw bytes.
    Name(Vec<u8>),
    /// The entry could not be read.
    Unreadable { message: String },
}

/// Mathematical model of one resolved entry.
pub enum EntryModel {
    /// A matched path.
    Found(Seq<u8>),
    /// A per-entry read failure, with its diagnostic.
    Unreadable(Seq<char>),
    /// A glob-engine failure, with its diagnostic.
    Engine(Seq<char>),
}

/// Mathematical model of one resolved level.
pub enum LevelModel {
    /// The level's entry outcomes, in order.
    Outcomes(Seq<EntryModel>),
    /// The candidate directory could not be enumerated.
    Unreadable(Seq<char>),
    /// The combined path was not representable as text.
    NotText(Seq<u8>),
    /// The pattern was rejected by the glob engine.
    BadPattern(Seq<char>),
}

/// The model of one per-entry outcome value.
pub open spec fn entry_outcome_model(o: Result<Vec<u8>, EntryError>) -> EntryModel {
    match o {
        Ok(p) => EntryModel::Found(p@),
        Err(EntryError::EntryUnreadable { message }) => EntryModel::Unreadable(message@),
        Err(EntryError::GlobEngine { message }) => EntryModel::Engine(message@),
    }
}

/// The model of a whole level result value.
pub open spec fn level_result_model(r: Result<Vec<Result<Vec<u8>, EntryError>>, LevelError>) -> LevelModel {
    match r {
        Ok(v) => LevelModel::Outcomes(v@.map_values(|o| entry_outcome_model(o))),
        Err(LevelError::DirectoryUnreadable { message }) => LevelModel::Unreadable(message@),
        Err(LevelError::PathNotText { raw }) => LevelModel::NotText(raw@),
        Err(LevelError::PatternInvalid { message }) => LevelModel::BadPattern(message@),
    }
}

/// What one listing entry contributes to the level: a matched name becomes
/// the full path of the entry, a non-matching name contributes nothing, and
/// a per-entry failure is kept in place.
pub open spec fn event_model(dir: Seq<u8>, target: Seq<u8>, prefix: bool, e: EntryEvent) -> Seq<
    EntryModel,
> {
    match e {
        EntryEvent::Name(n) => if name_matches(n@, target, prefix) {
            seq![EntryModel::Found(join_of(dir, n@))]
        } else {
            Seq::empty()
        },
        EntryEvent::Unreadable { message } => seq![EntryModel::Unreadable(message@)],
    }
}

/// The entry outcomes of a level, entry by entry, in listing order.
pub open spec fn events_model(dir: Seq<u8>, target: Seq<u8>, prefix: bool, events: Seq<EntryEvent>) -> Seq<
    EntryModel,
>
    decreases events.len(),
{
    if events.len() == 0 {
        Seq::empty()
    } else {
        events_model(dir, target, prefix, events.drop_last()) + event_model(
            dir,
            target,
            prefix,
            events.last(),
        )
    }
}

/// The outcome of one literal or prefix level for a given listing: a
/// missing directory is treated as an empty result, a failed read surfaces
/// as `DirectoryUnreadable`, and a listing is resolved entry by entry.
pub open spec fn literal_level_model(
    dir: Seq<u8>,
    target: Seq<u8>,
    prefix: bool,
    listing: DirListing,
) -> LevelModel {
    match listing {
        DirListing::Missing => LevelModel::Outcomes(Seq::empty()),
        DirListing::Unreadable { message } => LevelModel::Unreadable(message@),
        DirListing::Entries(events) => LevelModel::Outcomes(
            events_model(dir, target, prefix, events@),
        ),
    }
}

/// One literal or prefix level, ready to be resolved: read `dir` once and
/// hand the outcome to `resolve`.
#[derive(Debug, PartialEq, Eq)]
pub struct LiteralLevel {
    /// The candidate directory to read.
    pub dir: Vec<u8>,
    /// The pattern's final component, to match entry names against.
    pub name: Vec<u8>,
    /// Prefix mode instead of exact equality.
    pub prefix: bool,
}

impl LiteralLevel {
    /// Resolves the level against what the caller read. The result is
    /// exactly `literal_level_model`: a missing directory yields no entries
    /// and no error, an unreadable one yields `DirectoryUnreadable`, and in
    /// a listing each matching name yields its full path while per-entry
    /// failures are kept in place, in listing order.
    pub fn resolve(&self, listing: DirListing) -> (r: Result<
        Vec<Result<Vec<u8>, EntryError>>,
        LevelError,
    >)
        ensures
            level_result_model(r) == literal_level_model(
                self.dir@,
                self.name@,
                self.prefix,
                listing,
            ),
    {
        match listing {
            DirListing::Missing => {
                let out: Vec<Result<Vec<u8>, EntryError>> = Vec::new();
                assert(out@.map_values(|o| entry_outcome_model(o)) =~= Seq::<EntryModel>::empty());
                Ok(out)
            },
            DirListing::Unreadable { message } => Err(
                LevelError::DirectoryUnreadable { message },
            ),
            DirListing::Entries(events) => {
                let mut out: Vec<Result<Vec<u8>, EntryError>> = Vec::new();
                let mut k: usize = 0;
                assert(out@.map_values(|o| entry_outcome_model(o)) =~= events_model(
                    self.dir@,
                    self.name@,
                    self.prefix,
                    events@.take(0),
                ));
                while k < events.len()
                    invariant
                        k <= events.len(),
                        out@.map_values(|o| entry_outcome_model(o)) == events_model(
                            self.dir@,
                            self.name@,
                            self.prefix,
                            events@.take(k as int),
                        ),
                    decreases events.len() - k,
                {
                    let ghost prev = out@.map_values(|o| entry_outcome_model(o));
                    match &events[k] {
                        EntryEvent::Name(n) => {
                            if crate::matching::matches_name(n, &self.name, self.prefix) {
                                let full = join(&self.dir, n);
                                out.push(Ok(full));
                            }
                        },
                        EntryEvent::Unreadable { message } => {
                            out.push(
                                Err(
                                    EntryError::EntryUnreadable {
                                        message: clone_message(message),
                                    },
                                ),
                            );
                        },
                    }
                    proof {
                        let dirv = self.dir@;
                        let tgt = self.name@;
                        let pfx = self.prefix;
                        assert(events@.take(k + 1).drop_last() =~= events@.take(k as int));
                        assert(events@.take(k + 1).last() == events@[k as int]);
                        assert(out@.map_values(|o| entry_outcome_model(o)) =~= prev + event_model(
                            dirv,
                            tgt,
                            pfx,
                            events@[k as int],
                        ));
                    }
                    k = k + 1;
                }
                assert(events@.take(events.len() as int) =~= events@);
                Ok(out)
            },
        }
    }
}

/// A copy of a diagnostic message with the same characters.
pub fn clone_message(m: &String) -> (r: String)
    ensures
        r@ == m@,
{
    m.clone()
}

/// Resolving a level is a pure function of the candidate directory, the
/// target name, the mode and the listing: equal inputs give equal level
/// outcomes. Together with `resolve`'s contract, two resolutions of one
/// level against an unchanged listing yield the same outcome sequence.
pub proof fn lemma_level_resolution_idempotent(
    dir1: Seq<u8>,
    target1: Seq<u8>,
    prefix1: bool,
    l1: DirListing,
    dir2: Seq<u8>,
    target2: Seq<u8>,
    prefix2: bool,
    l2: DirListing,
)
    requires
        dir1 == dir2,
        target1 == target2,
        prefix1 == prefix2,
        l1 == l2,
    ensures
        literal_level_model(dir1, target1, prefix1, l1) == literal_level_model(
            dir2,
            target2,
            prefix2,
            l2,
        ),
{
}

/// A level whose candidate directory does not exist yields no entries and
/// no error: the walk simply goes on above it.
pub proof fn lemma_missing_directory_is_benign(dir: Seq<u8>, target: Seq<u8>, prefix: bool)
    ensures
        literal_level_model(dir, target, prefix, DirListing::Missing) == LevelModel::Outcomes(
            Seq::<EntryModel>::empty(),
        ),
{
}

/// True iff the listing entry `e` is a name that matches and whose full
/// path at the candidate directory `dir` is `p`.
pub open spec fn found_from(
    dir: Seq<u8>,
    target: Seq<u8>,
    prefix: bool,
    e: EntryEvent,
    p: Seq<u8>,
) -> bool {
    match e {
        EntryEvent::Name(n) => name_matches(n@, target, prefix) && p == join_of(dir, n@),
        EntryEvent::Unreadable { .. } => false,
    }
}

/// Completeness of a literal or prefix level: every listed name that
/// matches contributes its full path to the outcomes.
pub proof fn lemma_literal_level_complete(
    dir: Seq<u8>,
    target: Seq<u8>,
    prefix: bool,
    events: Seq<EntryEvent>,
    i: int,
    p: Seq<u8>,
)
    requires
        0 <= i < events.len(),
        found_from(dir, target, prefix, events[i], p),
    ensures
        events_model(dir, target, prefix, events).contains(EntryModel::Found(p)),
    decreases events.len(),
{
    if i == events.len() - 1 {
        assert(events.last() == events[i]);
        let fore = events_model(dir, target, prefix, events.drop_last());
        assert(events_model(dir, target, prefix, events)[fore.len() as int] == EntryModel::Found(
            p,
        ));
    } else {
        assert(events.drop_last()[i] == events[i]);
        lemma_literal_level_complete(dir, target, prefix, events.drop_last(), i, p);
        let m = EntryModel::Found(p);
        let fore = events_model(dir, target, prefix, events.drop_last());
        let j = choose|j: int| 0 <= j < fore.len() && fore[j] == m;
        assert(events_model(dir, target, prefix, events)[j] == m);
    }
}

/// Soundness of a literal or prefix level: every path among the outcomes
/// comes from a listed name that matches, joined onto the candidate
/// directory.
pub proof fn lemma_literal_level_sound(
    dir: Seq<u8>,
    target: Seq<u8>,
    prefix: bool,
    events: Seq<EntryEvent>,
    p: Seq<u8>,
)
    requires
        events_model(dir, target, prefix, events).contains(EntryModel::Found(p)),
    ensures
        exists|i: int| 0 <= i < events.len() && found_from(
            dir,
            target,
            prefix,
            #[trigger] events[i],
            p,
        ),
    decreases events.len(),
{
    let models = events_model(dir, target, prefix, events);
    let j = choose|j: int| 0 <= j < models.len() && models[j] == EntryModel::Found(p);
    let fore = events_model(dir, target, prefix, events.drop_last());
    if j < fore.len() {
        assert(fore[j] == EntryModel::Found(p));
        lemma_literal_level_sound(dir, target, prefix, events.drop_last(), p);
        let i = choose|i: int| 0 <= i < events.drop_last().len() && found_from(
            dir,
            target,
            prefix,
            #[trigger] events.drop_last()[i],
            p,
        );
        assert(events[i] == events.drop_last()[i]);
        assert(found_from(dir, target, prefix, events[i], p));
    } else {
        assert(models[j] == event_model(dir, target, prefix, events.last())[j - fore.len()]);
        assert(events[events.len() - 1] == events.last());
        assert(found_from(dir, target, prefix, events[events.len() - 1], p));
    }
}

} // verus!
