use vstd::prelude::*;

use crate::id::CanonicalId;

verus! {

/// What is known of an imported record when searching for existing ones.
#[derive(Debug, Clone)]
pub struct MatchQuery {
    pub display_name: Option<String>,
    pub kind_hint: Option<String>,
    pub source_hint: Option<String>,
    pub game_system_hint: Option<String>,
}

/// The characters of an optional text.
pub open spec fn opt_text(o: Option<String>) -> Option<Seq<char>> {
    match o {
        Some(s) => Some(s@),
        None => None,
    }
}

/// A query, each hint by its characters.
pub struct QueryView {
    pub display_name: Option<Seq<char>>,
    pub kind_hint: Option<Seq<char>>,
    pub source_hint: Option<Seq<char>>,
    pub game_system_hint: Option<Seq<char>>,
}

impl View for MatchQuery {
    type V = QueryView;

    open spec fn view(&self) -> QueryView {
        QueryView {
            display_name: opt_text(self.display_name),
            kind_hint: opt_text(self.kind_hint),
            source_hint: opt_text(self.source_hint),
            game_system_hint: opt_text(self.game_system_hint),
        }
    }
}

/// An existing record that may be the one an import describes.
///
/// `confidence` is in hundredths: 100 is certainty.
#[derive(Debug)]
pub struct MatchCandidate {
    pub id: CanonicalId,
    pub confidence: u32,
    pub reason: String,
}

/// A match candidate, its reason by its characters.
pub struct CandidateView {
    pub id: CanonicalId,
    pub confidence: u32,
    pub reason: Seq<char>,
}

impl View for MatchCandidate {
    type V = CandidateView;

    open spec fn view(&self) -> CandidateView {
        CandidateView { id: self.id, confidence: self.confidence, reason: self.reason@ }
    }
}

/// The views of a sequence of candidates.
pub open spec fn candidate_views(s: Seq<MatchCandidate>) -> Seq<CandidateView> {
    s.map_values(|c: MatchCandidate| c@)
}

impl MatchCandidate {
    /// A copy of this candidate.
    pub fn copy(&self) -> (c: MatchCandidate)
        ensures
            c@ == self@,
    {
        MatchCandidate { id: self.id, confidence: self.confidence, reason: self.reason.clone() }
    }
}

impl Clone for MatchCandidate {
    fn clone(&self) -> (c: Self)
        ensures
            c@ == self@,
    {
        self.copy()
    }
}

} // verus!
