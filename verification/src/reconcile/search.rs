//! How the in-memory store scores records against a query.

use vstd::prelude::*;

use crate::domain::{CoreCatalog, Entity, EntityType, PublisherRecord, SourceRecord};
use crate::external::{attribute_str, attribute_text};
use crate::id::CanonicalId;

use super::matcher::{candidate_views, opt_text, CandidateView, MatchCandidate, MatchQuery};
use super::matching::{eq_ignore_ascii_case, fuzzy_match, score_name_similarity};
use super::memory_store::{last_position, record_ids};
use super::model::{
    any_fuzzy, any_same_system, bump, catalog_model, cited_source, cited_systems, cited_titles,
    collect_candidates, entity_candidate, entity_candidate_fn, entity_game_systems_of,
    entity_kind_tally, entity_model, entity_source_tally, entity_source_titles_of,
    entity_system_tally, entity_type_candidate, entity_type_candidate_fn, entity_type_key_of,
    entity_type_model, finish, join, name_tally, opt_seq, publisher_candidate,
    publisher_candidate_fn, publisher_model, search, source_candidate, source_candidate_fn,
    source_hint_tally, source_model, source_system_tally, text_views, type_key_tally,
    CitationModel, EntityTypeModel, SourceModel, Tally,
};
use super::scoring::score_candidates;
use super::store::SubjectKind;

verus! {

/// A running score of one record against a query.
struct ScoreTally {
    confidence: u32,
    reasons: Vec<String>,
}

spec fn tally_of(t: ScoreTally) -> Tally {
    Tally { confidence: t.confidence as int, reasons: text_views(t.reasons@) }
}

spec fn opt_tally(t: Option<ScoreTally>) -> Option<Tally> {
    match t {
        Some(t) => Some(tally_of(t)),
        None => None,
    }
}

/// The view of an optional candidate.
pub open spec fn opt_candidate(c: Option<MatchCandidate>) -> Option<CandidateView> {
    match c {
        Some(c) => Some(c@),
        None => None,
    }
}

fn bump_by(t: ScoreTally, points: u32, reason: String) -> (r: ScoreTally)
    requires
        t.confidence <= 1000,
        points <= 100,
    ensures
        tally_of(r) == bump(tally_of(t), points as int, reason@),
        r.confidence == t.confidence + points,
{
    let mut reasons = t.reasons;
    let ghost before = reasons@;
    reasons.push(reason);
    assert(text_views(reasons@) =~= text_views(before).push(reason@));
    ScoreTally { confidence: t.confidence + points, reasons }
}

fn name_step(q: &MatchQuery, name: &String, label: &str) -> (t: Option<ScoreTally>)
    ensures
        opt_tally(t) == name_tally(q@, name@, label@),
        t matches Some(t) ==> t.confidence <= 75,
{
    match &q.display_name {
        Some(d) => {
            let score = score_name_similarity(d.as_str(), name.as_str());
            if score == 0 {
                None
            } else {
                let mut reasons: Vec<String> = Vec::new();
                reasons.push(String::from_str(label));
                assert(text_views(reasons@) =~= seq![label@]);
                Some(ScoreTally { confidence: score, reasons })
            }
        },
        None => {
            let reasons: Vec<String> = Vec::new();
            assert(text_views(reasons@) =~= Seq::<Seq<char>>::empty());
            Some(ScoreTally { confidence: 40, reasons })
        },
    }
}

/// The reasons joined with `", "`.
fn join_reasons(parts: &Vec<String>) -> (r: String)
    ensures
        r@ == join(text_views(parts@), ", "@),
{
    let ghost views = text_views(parts@);
    let mut r = String::new();
    for i in 0..parts.len()
        invariant
            views == text_views(parts@),
            r@ == join(views.subrange(0, i as int), ", "@),
    {
        assert(views.subrange(0, i + 1).drop_last() =~= views.subrange(0, i as int));
        assert(views.subrange(0, i + 1).last() == parts@[i as int]@);
        if i > 0 {
            r.append(", ");
        }
        r.append(parts[i].as_str());
        if i == 0 {
            assert(r@ =~= parts@[0]@);
        }
    }
    assert(views.subrange(0, views.len() as int) =~= views);
    r
}

fn finish_tally(t: ScoreTally, id: CanonicalId) -> (c: Option<MatchCandidate>)
    requires
        t.confidence <= 1000,
    ensures
        opt_candidate(c) == finish(Some(tally_of(t)), id),
{
    if t.confidence < 60 {
        return None;
    }
    let confidence = if t.confidence > 100 {
        100
    } else {
        t.confidence
    };
    let reason = join_reasons(&t.reasons);
    Some(MatchCandidate { id, confidence, reason })
}

/// The text stored under `key` when it is a JSON string.
fn attribute_string(attributes: &indexmap::IndexMap<String, serde_json::Value>, key: &str) -> (t:
    Option<String>)
    ensures
        opt_text(t) == attribute_text(*attributes, key@),
{
    attribute_str(attributes, key)
}

/// The key of the (last) entity type with id `id`.
fn entity_type_key_in(catalog: &CoreCatalog, id: CanonicalId) -> (key: Option<&String>)
    ensures
        match key {
            Some(k) => entity_type_key_of(catalog_model(*catalog), id) == Some(k@),
            None => entity_type_key_of(catalog_model(*catalog), id) is None,
        },
{
    let ghost m = catalog_model(*catalog);
    assert(record_ids(catalog.entity_types@) =~= m.entity_types.map_values(
        |r: EntityTypeModel| r.id,
    ));
    match last_position(&catalog.entity_types, id) {
        Some(i) => Some(&catalog.entity_types[i].key),
        None => None,
    }
}

/// The (last) source cited by the (last) citation with id `cite`.
fn cited_source_in(catalog: &CoreCatalog, cite: CanonicalId) -> (s: Option<&SourceRecord>)
    ensures
        match s {
            Some(s) => cited_source(catalog_model(*catalog), cite) == Some(source_model(*s)),
            None => cited_source(catalog_model(*catalog), cite) is None,
        },
{
    let ghost m = catalog_model(*catalog);
    assert(record_ids(catalog.citations@) =~= m.citations.map_values(|r: CitationModel| r.id));
    assert(record_ids(catalog.sources@) =~= m.sources.map_values(|r: SourceModel| r.id));
    match last_position(&catalog.citations, cite) {
        Some(i) => match last_position(&catalog.sources, catalog.citations[i].source) {
            Some(j) => Some(&catalog.sources[j]),
            None => None,
        },
        None => None,
    }
}

/// The source titles known for an entity (see `entity_source_titles_of`).
pub fn entity_source_titles(catalog: &CoreCatalog, entity: &Entity) -> (titles: Vec<String>)
    ensures
        text_views(titles@) == entity_source_titles_of(catalog_model(*catalog), entity_model(*entity)),
{
    let ghost m = catalog_model(*catalog);
    let mut titles: Vec<String> = Vec::new();
    let long = attribute_string(&entity.attributes, "pcgen_source_long");
    let short = attribute_string(&entity.attributes, "pcgen_source_short");
    let page = attribute_string(&entity.attributes, "pcgen_source_page");
    if let Some(t) = long {
        titles.push(t);
    }
    if let Some(t) = short {
        titles.push(t);
    }
    if let Some(t) = page {
        titles.push(t);
    }
    let ghost prefix = opt_seq(opt_text(long)) + opt_seq(opt_text(short)) + opt_seq(opt_text(page));
    assert(text_views(titles@) =~= prefix);
    let ghost cites = entity.citations@;
    assert(cited_titles(m, cites.subrange(0, 0)) =~= Seq::<Seq<char>>::empty());
    assert(prefix + Seq::<Seq<char>>::empty() =~= prefix);
    for i in 0..entity.citations.len()
        invariant
            m == catalog_model(*catalog),
            cites == entity.citations@,
            text_views(titles@) == prefix + cited_titles(m, cites.subrange(0, i as int)),
    {
        let ghost before = titles@;
        assert(cites.subrange(0, i + 1).drop_last() =~= cites.subrange(0, i as int));
        if let Some(s) = cited_source_in(catalog, entity.citations[i]) {
            titles.push(s.title.clone());
            assert(text_views(titles@) =~= text_views(before).push(s.title@));
        }
        assert(text_views(titles@) =~= prefix + cited_titles(m, cites.subrange(0, i + 1)));
    }
    assert(cites.subrange(0, cites.len() as int) =~= cites);
    titles
}

/// The game systems known for an entity (see `entity_game_systems_of`).
pub fn entity_game_systems(catalog: &CoreCatalog, entity: &Entity) -> (systems: Vec<String>)
    ensures
        text_views(systems@) == entity_game_systems_of(catalog_model(*catalog), entity_model(*entity)),
{
    let ghost m = catalog_model(*catalog);
    let mut systems: Vec<String> = Vec::new();
    let mode = attribute_string(&entity.attributes, "pcgen_game_mode");
    if let Some(t) = mode {
        systems.push(t);
    }
    let ghost prefix = opt_seq(opt_text(mode));
    assert(text_views(systems@) =~= prefix);
    let ghost cites = entity.citations@;
    assert(cited_systems(m, cites.subrange(0, 0)) =~= Seq::<Seq<char>>::empty());
    assert(prefix + Seq::<Seq<char>>::empty() =~= prefix);
    for i in 0..entity.citations.len()
        invariant
            m == catalog_model(*catalog),
            cites == entity.citations@,
            text_views(systems@) == prefix + cited_systems(m, cites.subrange(0, i as int)),
    {
        let ghost base = text_views(systems@);
        assert(cites.subrange(0, i + 1).drop_last() =~= cites.subrange(0, i as int));
        if let Some(s) = cited_source_in(catalog, entity.citations[i]) {
            let ghost gs = text_views(s.game_systems@);
            for j in 0..s.game_systems.len()
                invariant
                    gs == text_views(s.game_systems@),
                    text_views(systems@) == base + gs.subrange(0, j as int),
            {
                let ghost before = systems@;
                systems.push(s.game_systems[j].clone());
                assert(text_views(systems@) =~= text_views(before).push(s.game_systems@[j as int]@));
                assert(gs.subrange(0, j + 1) =~= gs.subrange(0, j as int).push(gs[j as int]));
                assert(text_views(systems@) =~= base + gs.subrange(0, j + 1));
            }
            assert(gs.subrange(0, gs.len() as int) =~= gs);
        } else {
            assert(base + Seq::<Seq<char>>::empty() =~= base);
        }
        assert(text_views(systems@) =~= prefix + cited_systems(m, cites.subrange(0, i + 1)));
    }
    assert(cites.subrange(0, cites.len() as int) =~= cites);
    systems
}

/// Whether some title matches the hint loosely.
fn any_title_matches(hint: &String, titles: &Vec<String>) -> (r: bool)
    ensures
        r == any_fuzzy(hint@, text_views(titles@)),
{
    for i in 0..titles.len()
        invariant
            forall|j: int| 0 <= j < i ==> !super::matching::fuzzy(hint@, #[trigger] text_views(titles@)[j]),
    {
        if fuzzy_match(hint.as_str(), titles[i].as_str()) {
            assert(text_views(titles@)[i as int] == titles@[i as int]@);
            return true;
        }
        assert(text_views(titles@)[i as int] == titles@[i as int]@);
    }
    false
}

/// Whether some system equals the hint up to ASCII case.
fn any_system_matches(hint: &String, systems: &Vec<String>) -> (r: bool)
    ensures
        r == any_same_system(hint@, text_views(systems@)),
{
    for i in 0..systems.len()
        invariant
            forall|j: int|
                0 <= j < i ==> !super::matching::eq_ignore_case(#[trigger] text_views(systems@)[j], hint@),
    {
        assert(text_views(systems@)[i as int] == systems@[i as int]@);
        if eq_ignore_ascii_case(systems[i].as_str(), hint.as_str()) {
            return true;
        }
    }
    false
}

/// The candidate an entity makes for a query, if any.
pub fn entity_candidate_in(catalog: &CoreCatalog, q: &MatchQuery, entity: &Entity) -> (c: Option<
    MatchCandidate,
>)
    ensures
        opt_candidate(c) == entity_candidate(catalog_model(*catalog), q@, entity_model(*entity)),
{
    let ghost m = catalog_model(*catalog);
    let ghost e = entity_model(*entity);
    let t = match name_step(q, &entity.name, "name similarity") {
        Some(t) => t,
        None => return None,
    };
    let ghost t1 = entity_kind_tally(Some(tally_of(t)), q@, entity_type_key_of(m, e.entity_type));
    let t = match &q.kind_hint {
        Some(k) => match entity_type_key_in(catalog, entity.entity_type) {
            Some(key) => if eq_ignore_ascii_case(key.as_str(), k.as_str()) {
                bump_by(t, 20, String::from_str("entity type key match"))
            } else {
                return None;
            },
            None => t,
        },
        None => t,
    };
    assert(t1 == Some(tally_of(t)));
    assert(t.confidence <= 95);
    let ghost t2 = entity_source_tally(t1, q@, entity_source_titles_of(m, e));
    let t = match &q.source_hint {
        Some(h) => {
            let titles = entity_source_titles(catalog, entity);
            let matched = any_title_matches(h, &titles);
            if titles.len() > 0 && !matched {
                return None;
            }
            if matched {
                let mut reason = String::from_str("source hint match (");
                reason.append(h.as_str());
                reason.append(")");
                bump_by(t, 10, reason)
            } else {
                t
            }
        },
        None => t,
    };
    assert(t2 == Some(tally_of(t)));
    assert(t.confidence <= 105);
    let ghost t3 = entity_system_tally(t2, q@, entity_game_systems_of(m, e));
    let t = match &q.game_system_hint {
        Some(g) => {
            let systems = entity_game_systems(catalog, entity);
            let matched = any_system_matches(g, &systems);
            if systems.len() > 0 && !matched {
                return None;
            }
            if matched {
                let mut reason = String::from_str("game system match (");
                reason.append(g.as_str());
                reason.append(")");
                bump_by(t, 20, reason)
            } else {
                t
            }
        },
        None => t,
    };
    assert(t3 == Some(tally_of(t)));
    finish_tally(t, entity.id)
}

/// The candidate an entity type makes for a query, if any.
pub fn entity_type_candidate_in(q: &MatchQuery, entity_type: &EntityType) -> (c: Option<
    MatchCandidate,
>)
    ensures
        opt_candidate(c) == entity_type_candidate(q@, entity_type_model(*entity_type)),
{
    let ghost r = entity_type_model(*entity_type);
    let t = match name_step(q, &entity_type.name, "name similarity") {
        Some(t) => t,
        None => return None,
    };
    let ghost t1 = type_key_tally(Some(tally_of(t)), q@, r.key@);
    let t = match &q.kind_hint {
        Some(k) => if eq_ignore_ascii_case(entity_type.key.as_str(), k.as_str()) {
            bump_by(t, 25, String::from_str("type key match"))
        } else {
            return None;
        },
        None => t,
    };
    assert(t1 == Some(tally_of(t)));
    finish_tally(t, entity_type.id)
}

/// The candidate a source makes for a query, if any.
pub fn source_candidate_in(q: &MatchQuery, source: &SourceRecord) -> (c: Option<MatchCandidate>)
    ensures
        opt_candidate(c) == source_candidate(q@, source_model(*source)),
{
    let ghost r = source_model(*source);
    let t = match name_step(q, &source.title, "title similarity") {
        Some(t) => t,
        None => return None,
    };
    let ghost t1 = source_hint_tally(Some(tally_of(t)), q@, r.title@);
    let t = match &q.source_hint {
        Some(h) => if fuzzy_match(h.as_str(), source.title.as_str()) {
            bump_by(t, 15, String::from_str("source hint match"))
        } else {
            return None;
        },
        None => t,
    };
    assert(t1 == Some(tally_of(t)));
    let ghost t2 = source_system_tally(t1, q@, text_views(r.game_systems@));
    let t = match &q.game_system_hint {
        Some(g) => if any_system_matches(g, &source.game_systems) {
            bump_by(t, 20, String::from_str("game system match"))
        } else if source.game_systems.len() > 0 {
            return None;
        } else {
            t
        },
        None => t,
    };
    assert(t2 == Some(tally_of(t)));
    finish_tally(t, source.id)
}

/// The candidate a publisher makes for a query, if any.
pub fn publisher_candidate_in(q: &MatchQuery, publisher: &PublisherRecord) -> (c: Option<
    MatchCandidate,
>)
    ensures
        opt_candidate(c) == publisher_candidate(q@, publisher_model(*publisher)),
{
    let t = match name_step(q, &publisher.name, "name similarity") {
        Some(t) => t,
        None => return None,
    };
    finish_tally(t, publisher.id)
}

/// The ranked candidates among the catalog's entities (see `search`).
pub fn search_entity_candidates(catalog: &CoreCatalog, q: &MatchQuery) -> (found: Vec<MatchCandidate>)
    ensures
        candidate_views(found@) == search(catalog_model(*catalog), SubjectKind::Entity, q@),
{
    let ghost m = catalog_model(*catalog);
    let ghost f = entity_candidate_fn(m, q@);
    let mut found: Vec<MatchCandidate> = Vec::new();
    for i in 0..catalog.entities.len()
        invariant
            m == catalog_model(*catalog),
            f == entity_candidate_fn(m, q@),
            candidate_views(found@) == collect_candidates(m.entities.subrange(0, i as int), f),
    {
        let c = entity_candidate_in(catalog, q, &catalog.entities[i]);
        assert(m.entities.subrange(0, i + 1).drop_last() =~= m.entities.subrange(0, i as int));
        assert(m.entities.subrange(0, i + 1).last() == entity_model(catalog.entities@[i as int]));
        let ghost before = found@;
        if let Some(c) = c {
            found.push(c);
            assert(candidate_views(found@) =~= candidate_views(before).push(c@));
        }
    }
    assert(m.entities.subrange(0, m.entities.len() as int) =~= m.entities);
    score_candidates(q, found.as_slice())
}

/// The ranked candidates among the catalog's entity types (see `search`).
pub fn search_entity_type_candidates(catalog: &CoreCatalog, q: &MatchQuery) -> (found: Vec<MatchCandidate>)
    ensures
        candidate_views(found@) == search(catalog_model(*catalog), SubjectKind::EntityType, q@),
{
    let ghost m = catalog_model(*catalog);
    let ghost f = entity_type_candidate_fn(q@);
    let mut found: Vec<MatchCandidate> = Vec::new();
    for i in 0..catalog.entity_types.len()
        invariant
            m == catalog_model(*catalog),
            f == entity_type_candidate_fn(q@),
            candidate_views(found@) == collect_candidates(m.entity_types.subrange(0, i as int), f),
    {
        let c = entity_type_candidate_in(q, &catalog.entity_types[i]);
        assert(m.entity_types.subrange(0, i + 1).drop_last() =~= m.entity_types.subrange(0, i as int));
        assert(m.entity_types.subrange(0, i + 1).last() == entity_type_model(catalog.entity_types@[i as int]));
        let ghost before = found@;
        if let Some(c) = c {
            found.push(c);
            assert(candidate_views(found@) =~= candidate_views(before).push(c@));
        }
    }
    assert(m.entity_types.subrange(0, m.entity_types.len() as int) =~= m.entity_types);
    score_candidates(q, found.as_slice())
}

/// The ranked candidates among the catalog's sources (see `search`).
pub fn search_source_candidates(catalog: &CoreCatalog, q: &MatchQuery) -> (found: Vec<MatchCandidate>)
    ensures
        candidate_views(found@) == search(catalog_model(*catalog), SubjectKind::Source, q@),
{
    let ghost m = catalog_model(*catalog);
    let ghost f = source_candidate_fn(q@);
    let mut found: Vec<MatchCandidate> = Vec::new();
    for i in 0..catalog.sources.len()
        invariant
            m == catalog_model(*catalog),
            f == source_candidate_fn(q@),
            candidate_views(found@) == collect_candidates(m.sources.subrange(0, i as int), f),
    {
        let c = source_candidate_in(q, &catalog.sources[i]);
        assert(m.sources.subrange(0, i + 1).drop_last() =~= m.sources.subrange(0, i as int));
        assert(m.sources.subrange(0, i + 1).last() == source_model(catalog.sources@[i as int]));
        let ghost before = found@;
        if let Some(c) = c {
            found.push(c);
            assert(candidate_views(found@) =~= candidate_views(before).push(c@));
        }
    }
    assert(m.sources.subrange(0, m.sources.len() as int) =~= m.sources);
    score_candidates(q, found.as_slice())
}

/// The ranked candidates among the catalog's publishers (see `search`).
pub fn search_publisher_candidates(catalog: &CoreCatalog, q: &MatchQuery) -> (found: Vec<MatchCandidate>)
    ensures
        candidate_views(found@) == search(catalog_model(*catalog), SubjectKind::Publisher, q@),
{
    let ghost m = catalog_model(*catalog);
    let ghost f = publisher_candidate_fn(q@);
    let mut found: Vec<MatchCandidate> = Vec::new();
    for i in 0..catalog.publishers.len()
        invariant
            m == catalog_model(*catalog),
            f == publisher_candidate_fn(q@),
            candidate_views(found@) == collect_candidates(m.publishers.subrange(0, i as int), f),
    {
        let c = publisher_candidate_in(q, &catalog.publishers[i]);
        assert(m.publishers.subrange(0, i + 1).drop_last() =~= m.publishers.subrange(0, i as int));
        assert(m.publishers.subrange(0, i + 1).last() == publisher_model(catalog.publishers@[i as int]));
        let ghost before = found@;
        if let Some(c) = c {
            found.push(c);
            assert(candidate_views(found@) =~= candidate_views(before).push(c@));
        }
    }
    assert(m.publishers.subrange(0, m.publishers.len() as int) =~= m.publishers);
    score_candidates(q, found.as_slice())
}

} // verus!
