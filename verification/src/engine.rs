//! The search engine: the outer driver over every (ancestor, pattern)
//! pair.
//!
//! The walk is ancestor-major: all patterns are resolved at one ancestor
//! level before the walk steps to the parent, so matches closest to the
//! starting directory come first. The outer sequence is pulled level by
//! level; pulling one level performs at most that one level's work, and
//! nothing is read for levels that are never pulled. The sequence is
//! finite: it has exactly one element per (ancestor, pattern) pair.

use vstd::prelude::*;

use crate::globbing::glob_level_spec;
use crate::globbing::run_glob_level;
use crate::level::EntryError;
use crate::level::LevelError;
use crate::level::LiteralLevel;
use crate::paths::chain;
use crate::paths::clone_bytes;
use crate::paths::join;
use crate::paths::join_of;
use crate::paths::opt_view;
use crate::paths::parent;
use crate::paths::parent_of;
use crate::paths::split_name;
use crate::paths::split_of;

verus! {

/// The matching strategy, selected once for a whole search.
#[derive(Clone, Copy, Debug, PartialEq, Eq, Structural)]
pub enum Strategy {
    /// Compare entry names as raw bytes: exact equality, or a byte-prefix
    /// test when `prefix` is true.
    Literal { prefix: bool },
    /// Join the pattern onto the ancestor and delegate to the glob engine.
    Glob,
}

/// One element of the outer sequence: the resolution of one (ancestor,
/// pattern) pair.
#[derive(Debug, PartialEq, Eq)]
pub enum Level {
    /// A literal or prefix level: read the candidate directory once and
    /// hand the listing to `LiteralLevel::resolve`.
    Literal(LiteralLevel),
    /// A glob level, already resolved through the glob engine.
    Glob(Result<Vec<Result<Vec<u8>, EntryError>>, LevelError>),
}

/// The candidate directory of a literal level: the ancestor, descended
/// into the pattern's leading directory part if the pattern has one.
pub open spec fn literal_dir(anc: Seq<u8>, pat: Seq<u8>) -> Seq<u8> {
    match split_of(pat).0 {
        None => anc,
        Some(d) => join_of(anc, d),
    }
}

/// What the level yielded for the pair (`anc`, `pat`) must look like.
pub open spec fn level_for(l: Level, anc: Seq<u8>, pat: Seq<u8>, strategy: Strategy) -> bool {
    match strategy {
        Strategy::Literal { prefix } => l matches Level::Literal(req) && req.dir@ == literal_dir(
            anc,
            pat,
        ) && req.name@ == split_of(pat).1 && req.prefix == prefix,
        Strategy::Glob => l matches Level::Glob(r) && glob_level_spec(r, join_of(anc, pat)),
    }
}

/// A search in progress: the current ancestor and the index of the next
/// pattern to resolve at it.
pub struct Search {
    /// The patterns, in the caller's order.
    pub patterns: Vec<Vec<u8>>,
    /// The matching strategy.
    pub strategy: Strategy,
    /// The ancestor now being resolved; `None` once the walk has passed
    /// the root.
    pub current: Option<Vec<u8>>,
    /// The index of the next pattern to resolve at `current`.
    pub idx: usize,
}

impl Search {
    /// The pattern index stays inside the pattern list.
    pub open spec fn wf(self) -> bool {
        self.idx < self.patterns.len() || (self.patterns.len() == 0 && self.idx == 0)
    }

    /// No level is left to yield.
    pub open spec fn exhausted(self) -> bool {
        self.current is None || self.patterns.len() == 0
    }

    /// How many (ancestor, pattern) pairs are still to be yielded. Every
    /// pulled level strictly decreases it, so the outer sequence is finite:
    /// at most one element per ancestor and pattern.
    pub open spec fn remaining_levels(self) -> int {
        if self.exhausted() {
            0
        } else {
            chain(self.current->Some_0@).len() * self.patterns.len() - self.idx
        }
    }

    /// The next level of the walk: resolves the pair of the current
    /// ancestor and the next pattern, then steps pattern-wise, and from the
    /// last pattern to the parent ancestor. Pulling one level performs at
    /// most that one level's work.
    pub fn next_level(&mut self) -> (r: Option<Level>)
        requires
            old(self).wf(),
        ensures
            final(self).wf(),
            final(self).patterns == old(self).patterns,
            final(self).strategy == old(self).strategy,
            r is None <==> old(self).exhausted(),
            old(self).exhausted() ==> *final(self) == *old(self),
            r matches Some(l) ==> ({
                let anc = old(self).current->Some_0@;
                let pat = old(self).patterns[old(self).idx as int]@;
                &&& level_for(l, anc, pat, old(self).strategy)
                &&& final(self).remaining_levels() < old(self).remaining_levels()
                &&& if old(self).idx + 1 < old(self).patterns.len() {
                    final(self).current == old(self).current && final(self).idx == old(self).idx
                        + 1
                } else {
                    opt_view(final(self).current) == parent_of(anc) && final(self).idx == 0
                }
            }),
    {
        if self.patterns.len() == 0 {
            return None;
        }
        let anc = match &self.current {
            None => {
                return None;
            },
            Some(a) => clone_bytes(a),
        };
        let pat = &self.patterns[self.idx];
        let lvl = match self.strategy {
            Strategy::Literal { prefix } => {
                let (dopt, name) = split_name(pat);
                let dir = match dopt {
                    None => clone_bytes(&anc),
                    Some(d) => join(&anc, &d),
                };
                Level::Literal(LiteralLevel { dir, name, prefix })
            },
            Strategy::Glob => {
                let cand = join(&anc, pat);
                Level::Glob(run_glob_level(cand))
            },
        };
        proof {
            crate::paths::lemma_parent_shorter(anc@);
        }
        let ghost c = chain(anc@).len() as int;
        let ghost n = self.patterns.len() as int;
        let ghost i = self.idx as int;
        if self.idx + 1 < self.patterns.len() {
            self.idx = self.idx + 1;
        } else {
            self.current = parent(&anc);
            self.idx = 0;
            proof {
                match parent_of(anc@) {
                    None => {
                        assert(c >= 1 && n >= 1);
                        assert(c * n >= n) by (nonlinear_arith)
                            requires
                                c >= 1,
                                n >= 1,
                        ;
                    },
                    Some(q) => {
                        assert(chain(anc@) == seq![anc@] + chain(q));
                        assert(chain(q).len() == c - 1);
                        assert((c - 1) * n == c * n - n) by (nonlinear_arith);
                        assert(c * n >= n) by (nonlinear_arith)
                            requires
                                c >= 1,
                                n >= 1,
                        ;
                    },
                }
            }
        }
        Some(lvl)
    }
}

/// A search over the ancestor chain of `starting_directory`, resolving
/// each of `patterns` at every level under the given strategy. The outer
/// sequence has exactly one element per (ancestor, pattern) pair,
/// ancestor-major, and is pulled with `next_level`.
pub fn search(starting_directory: Vec<u8>, patterns: Vec<Vec<u8>>, strategy: Strategy) -> (s:
    Search)
    ensures
        s.wf(),
        s.patterns == patterns,
        s.strategy == strategy,
        s.current == Some(starting_directory),
        s.idx == 0,
        s.remaining_levels() == if patterns.len() == 0 {
            0int
        } else {
            chain(starting_directory@).len() * patterns.len()
        },
{
    Search { patterns, strategy, current: Some(starting_directory), idx: 0 }
}

/// The glob-mode search over the ancestor chain of `starting_directory`:
/// each sub-path is joined onto each ancestor in turn and handed to the
/// glob engine.
pub fn iter(starting_directory: Vec<u8>, sub_paths_to_match: Vec<Vec<u8>>) -> (s: Search)
    ensures
        s.wf(),
        s.patterns == sub_paths_to_match,
        s.strategy == Strategy::Glob,
        s.current == Some(starting_directory),
        s.idx == 0,
{
    search(starting_directory, sub_paths_to_match, Strategy::Glob)
}

} // verus!
