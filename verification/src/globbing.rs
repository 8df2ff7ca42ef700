//! The glob strategy: one (ancestor, pattern) level delegated to the glob
//! engine.
//!
//! The combined candidate path must be representable as text; a path that
//! is not fails that one level with `PathNotText`, carrying the raw bytes.
//! The engine's raw results are post-filtered here, in verified code: a
//! result whose rendered text ends in a `/.` or `/..` segment is a matching
//! artifact of wildcard patterns and is never a meaningful match.

use vstd::prelude::*;

use vstd::utf8::valid_utf8;
use vstd::utf8::decode_utf8;
use crate::level::EntryError;
use crate::level::EntryModel;
use crate::level::LevelError;
use crate::level::entry_outcome_model;
use crate::level::clone_message;
use crate::paths::SEP;
use crate::paths::clone_bytes;

verus! {

/// The dot byte, `.`.
pub const DOT: u8 = 46;

/// The glob engine's result stream, declared so that it can stand in
/// signatures; its contents stay opaque.
#[verifier::external_type_specification]
#[verifier::external_body]
pub struct ExPaths(glob::Paths);

/// The glob engine's per-entry error type, declared because the result
/// stream's items carry it; its contents stay opaque.
#[verifier::external_type_specification]
#[verifier::external_body]
pub struct ExGlobError(glob::GlobError);

/// The owned path type that the glob engine yields, declared because the
/// result stream's items carry it; its contents stay opaque.
#[verifier::external_type_specification]
#[verifier::external_body]
pub struct ExPathBuf(std::path::PathBuf);

/// Whether the glob engine's pattern parser accepts the pattern text.
pub uninterp spec fn glob_pattern_ok(pattern: Seq<char>) -> bool;

/// One raw item drawn from the glob engine.
pub enum GlobEvent {
    /// A matched path, rendered as text, as raw bytes.
    Match(Vec<u8>),
    /// A matched path that could not be rendered as text. The engine
    /// matches names as text, so this does not arise from it; it is kept so
    /// that no result is ever silently dropped.
    NonText,
    /// An engine error for one entry, with its diagnostic.
    Error(String),
}

/// Relies on `String::from_utf8`: it succeeds exactly on valid UTF-8 bytes,
/// and the resulting text decodes those same bytes.
#[verifier::external_body]
fn bytes_text(b: &Vec<u8>) -> (r: Option<String>)
    ensures
        r is Some <==> valid_utf8(b@),
        r matches Some(s) ==> s@ == decode_utf8(b@),
{
    match String::from_utf8(b.clone()) {
        Ok(s) => Some(s),
        Err(_) => None,
    }
}

/// Relies on `glob::glob`: it returns an error iff its pattern parser
/// rejects the pattern text, before any directory is read.
#[verifier::external_body]
fn glob_start(pattern: &str) -> (r: Result<glob::Paths, String>)
    ensures
        r is Ok <==> glob_pattern_ok(pattern@),
{
    match glob::glob(pattern) {
        Ok(paths) => Ok(paths),
        Err(e) => Err(format!("{e}")),
    }
}

/// Relies on `glob::Paths` (its `Iterator` impl): each item drawn is either
/// a matched path or a per-entry engine error. The engine reads directories
/// itself while it is drawn from; all of this level's items are drawn here.
#[verifier::external_body]
fn glob_events(paths: glob::Paths) -> (r: Vec<GlobEvent>)
{
    let mut out = Vec::new();
    for item in paths {
        out.push(match item {
            Ok(p) => match p.to_str() {
                Some(s) => GlobEvent::Match(s.as_bytes().to_vec()),
                None => GlobEvent::NonText,
            },
            Err(e) => GlobEvent::Error(format!("{e}")),
        });
    }
    out
}

/// True iff the rendered path ends in a `/.` or `/..` segment.
pub open spec fn ends_meaningless(s: Seq<u8>) -> bool {
    seq![SEP, DOT].is_suffix_of(s) || seq![SEP, DOT, DOT].is_suffix_of(s)
}

/// Whether `b` ends in a `/.` or `/..` segment, as `ends_meaningless`
/// defines it.
pub fn is_meaningless(b: &Vec<u8>) -> (r: bool)
    ensures
        r == ends_meaningless(b@),
{
    let n = b.len();
    if n >= 2 && b[n - 2] == SEP && b[n - 1] == DOT {
        assert(seq![SEP, DOT] =~= b@.subrange(n - 2, n as int));
        return true;
    }
    if n >= 3 && b[n - 3] == SEP && b[n - 2] == DOT && b[n - 1] == DOT {
        assert(seq![SEP, DOT, DOT] =~= b@.subrange(n - 3, n as int));
        return true;
    }
    proof {
        if seq![SEP, DOT].is_suffix_of(b@) {
            assert(b@[n - 2] == seq![SEP, DOT][0]);
            assert(b@[n - 1] == seq![SEP, DOT][1]);
        }
        if seq![SEP, DOT, DOT].is_suffix_of(b@) {
            assert(b@[n - 3] == seq![SEP, DOT, DOT][0]);
            assert(b@[n - 2] == seq![SEP, DOT, DOT][1]);
            assert(b@[n - 1] == seq![SEP, DOT, DOT][2]);
        }
    }
    false
}

/// The diagnostic for a match that could not be rendered as text.
pub open spec fn nontext_message() -> Seq<char> {
    "glob match not representable as text"@
}

/// The diagnostic for a match that could not be rendered as text.
fn nontext_text() -> (s: String)
    ensures
        s@ == nontext_message(),
{
    "glob match not representable as text".to_owned()
}

/// What one raw engine item contributes to the level: a meaningless match
/// is dropped, any other match is kept, and an engine failure is kept in
/// place as a per-entry error.
pub open spec fn glob_event_model(e: GlobEvent) -> Seq<EntryModel> {
    match e {
        GlobEvent::Match(b) => if ends_meaningless(b@) {
            Seq::empty()
        } else {
            seq![EntryModel::Found(b@)]
        },
        GlobEvent::NonText => seq![EntryModel::Engine(nontext_message())],
        GlobEvent::Error(m) => seq![EntryModel::Engine(m@)],
    }
}

/// The entry outcomes of a glob level, item by item, in engine order.
pub open spec fn glob_events_model(events: Seq<GlobEvent>) -> Seq<EntryModel>
    decreases events.len(),
{
    if events.len() == 0 {
        Seq::empty()
    } else {
        glob_events_model(events.drop_last()) + glob_event_model(events.last())
    }
}

/// The post-filtered outcomes of one glob level: exactly
/// `glob_events_model` of the raw items, so every meaningless match is
/// dropped and every other item is kept in place.
fn glob_outcomes(events: &Vec<GlobEvent>) -> (r: Vec<Result<Vec<u8>, EntryError>>)
    ensures
        r@.map_values(|o| entry_outcome_model(o)) == glob_events_model(events@),
{
    let mut out: Vec<Result<Vec<u8>, EntryError>> = Vec::new();
    let mut k: usize = 0;
    assert(out@.map_values(|o| entry_outcome_model(o)) =~= glob_events_model(events@.take(0)));
    while k < events.len()
        invariant
            k <= events.len(),
            out@.map_values(|o| entry_outcome_model(o)) == glob_events_model(
                events@.take(k as int),
            ),
        decreases events.len() - k,
    {
        let ghost prev = out@.map_values(|o| entry_outcome_model(o));
        match &events[k] {
            GlobEvent::Match(b) => {
                if !is_meaningless(b) {
                    out.push(Ok(clone_bytes(b)));
                }
            },
            GlobEvent::NonText => {
                out.push(Err(EntryError::GlobEngine { message: nontext_text() }));
            },
            GlobEvent::Error(m) => {
                out.push(Err(EntryError::GlobEngine { message: clone_message(m) }));
            },
        }
        proof {
            assert(events@.take(k + 1).drop_last() =~= events@.take(k as int));
            assert(events@.take(k + 1).last() == events@[k as int]);
            assert(out@.map_values(|o| entry_outcome_model(o)) =~= prev + glob_event_model(
                events@[k as int],
            ));
        }
        k = k + 1;
    }
    assert(events@.take(events.len() as int) =~= events@);
    out
}

/// No meaningless match survives the post-filter, whatever the engine
/// yielded; and a glob level's failures are always engine failures, never
/// per-entry read failures.
pub proof fn lemma_glob_outcomes_filtered(events: Seq<GlobEvent>)
    ensures
        forall|i: int| 0 <= i < glob_events_model(events).len() ==> (
        #[trigger] glob_events_model(events)[i] matches EntryModel::Found(p)
            ==> !ends_meaningless(p)),
        forall|i: int| 0 <= i < glob_events_model(events).len() ==> !(
        #[trigger] glob_events_model(events)[i] is Unreadable),
    decreases events.len(),
{
    if events.len() > 0 {
        lemma_glob_outcomes_filtered(events.drop_last());
    }
}

/// What a resolved glob level guarantees for the candidate path `cand`:
/// a candidate that is not text fails that level with `PathNotText`
/// carrying the raw bytes; a candidate whose text the engine's parser
/// rejects fails it with `PatternInvalid`; otherwise the level resolves,
/// and no surviving match ends in a `/.` or `/..` segment.
pub open spec fn glob_level_spec(
    r: Result<Vec<Result<Vec<u8>, EntryError>>, LevelError>,
    cand: Seq<u8>,
) -> bool {
    &&& !valid_utf8(cand) ==> (r matches Err(e) && e matches LevelError::PathNotText { raw }
        && raw@ == cand)
    &&& valid_utf8(cand) && !glob_pattern_ok(decode_utf8(cand)) ==> (r matches Err(e)
        && e is PatternInvalid)
    &&& valid_utf8(cand) && glob_pattern_ok(decode_utf8(cand)) ==> r is Ok
    &&& r matches Ok(v) ==> forall|i: int| 0 <= i < v@.len() ==> (#[trigger] v@[i] matches Ok(p)
        ==> !ends_meaningless(p@))
    &&& r matches Ok(v) ==> forall|i: int| 0 <= i < v@.len() ==> (#[trigger] v@[i] matches Err(e)
        ==> e is GlobEngine)
}

/// Resolves one glob level for the candidate path `cand`: checks that the
/// candidate is text, hands it to the glob engine, and post-filters the
/// engine's results.
pub fn run_glob_level(cand: Vec<u8>) -> (r: Result<
    Vec<Result<Vec<u8>, EntryError>>,
    LevelError,
>)
    ensures
        glob_level_spec(r, cand@),
{
    match bytes_text(&cand) {
        None => Err(LevelError::PathNotText { raw: cand }),
        Some(text) => match glob_start(text.as_str()) {
            Err(message) => Err(LevelError::PatternInvalid { message }),
            Ok(paths) => {
                let events = glob_events(paths);
                let out = glob_outcomes(&events);
                proof {
                    lemma_glob_outcomes_filtered(events@);
                    assert(forall|i: int| 0 <= i < out@.len()
                        ==> out@.map_values(|o| entry_outcome_model(o))[i] == entry_outcome_model(
                        out@[i],
                    ));
                }
                Ok(out)
            },
        },
    }
}

} // verus!
