//! Properties of the matching functions, the in-memory store and the
//! reconciliation procedure, stated over the same spec functions as the
//! contracts and proved.

use vstd::prelude::*;

use crate::external::ascii_lower;
use crate::id::ExternalId;

use super::index_laws::kind_ids;
use super::matcher::{CandidateView, QueryView};
use super::model::{
    entity_candidate, entity_game_systems_of, entity_kind_tally, entity_source_tally, entity_source_titles_of,
    entity_system_tally, entity_type_key_of, name_tally, any_same_system, source_candidate, entity_type_candidate,
    source_hint_tally, source_system_tally, type_key_tally, text_views,
    collect_candidates, entity_candidate_fn, entity_type_candidate_fn,
    publisher_candidate_fn, search, source_candidate_fn, CatalogModel,
};
use super::scoring::{has_confidence, lemma_sort_desc, sort_desc, with_confidence};
use super::store::SubjectKind;
use super::matching::{
    eq_ignore_case, ext_key, format_key, fuzzy, is_ascii_alnum, lower_text,
    name_score, normalized,
};

verus! {

// ---------------------------------------------------------------------------
// Text matching
// ---------------------------------------------------------------------------

/// Case-insensitive equality is symmetric.
pub proof fn law_eq_ignore_case_symmetric(a: Seq<char>, b: Seq<char>)
    ensures
        eq_ignore_case(a, b) == eq_ignore_case(b, a),
{
}

/// Loose matching does not depend on the order of its arguments.
pub proof fn law_fuzzy_symmetric(a: Seq<char>, b: Seq<char>)
    ensures
        fuzzy(a, b) == fuzzy(b, a),
{
}

/// The name similarity score does not depend on the order of its arguments.
pub proof fn law_name_score_symmetric(a: Seq<char>, b: Seq<char>)
    ensures
        name_score(a, b) == name_score(b, a),
{
}

/// Every name score is one of 0, 40, 65 and 75 (hundredths).
pub proof fn law_name_score_values(a: Seq<char>, b: Seq<char>)
    ensures
        name_score(a, b) == 0 || name_score(a, b) == 40 || name_score(a, b) == 65
            || name_score(a, b) == 75,
{
}

/// A text folded to lowercase holds only lowercase ASCII alphanumerics and
/// single inner spaces.
spec fn normal_chars(t: Seq<char>) -> bool {
    &&& forall|i: int|
        0 <= i < t.len() ==> (#[trigger] t[i] == ' ' || (is_ascii_alnum(t[i]) && ascii_lower(t[i])
            == t[i]))
    &&& t.len() > 0 ==> t[0] != ' '
    &&& forall|i: int| 0 <= i < t.len() - 1 ==> #[trigger] t[i] == ' ' ==> t[i + 1] != ' '
}

proof fn lemma_lower_alnum(c: char)
    requires
        is_ascii_alnum(c),
    ensures
        is_ascii_alnum(ascii_lower(c)),
        ascii_lower(ascii_lower(c)) == ascii_lower(c),
        ascii_lower(c) != ' ',
{
    if 'A' <= c && c <= 'Z' {
        assert('a' <= ((c as u32) + 32) as char && ((c as u32) + 32) as char <= 'z');
    }
}

proof fn lemma_normalized_is_normal(s: Seq<char>)
    ensures
        normal_chars(normalized(s)),
        normalized(s).len() > 0 ==> normalized(s).last() != ' ',
    decreases s.len(),
{
    if s.len() > 0 {
        let prev = s.drop_last();
        let c = s.last();
        lemma_normalized_is_normal(prev);
        let n = normalized(prev);
        if is_ascii_alnum(c) {
            lemma_lower_alnum(c);
            if n.len() == 0 || is_ascii_alnum(prev.last()) {
                let t = n.push(ascii_lower(c));
                assert forall|i: int| 0 <= i < t.len() - 1 implies #[trigger] t[i] == ' ' ==> t[i + 1]
                    != ' ' by {
                    if i < n.len() - 1 {
                        assert(t[i] == n[i] && t[i + 1] == n[i + 1]);
                    }
                }
                assert forall|i: int| 0 <= i < t.len() implies (#[trigger] t[i] == ' ' || (
                is_ascii_alnum(t[i]) && ascii_lower(t[i]) == t[i])) by {
                    if i < n.len() {
                        assert(t[i] == n[i]);
                    }
                }
            } else {
                let t = n.push(' ').push(ascii_lower(c));
                assert forall|i: int| 0 <= i < t.len() - 1 implies #[trigger] t[i] == ' ' ==> t[i + 1]
                    != ' ' by {
                    if i < n.len() - 1 {
                        assert(t[i] == n[i] && t[i + 1] == n[i + 1]);
                    }
                }
                assert forall|i: int| 0 <= i < t.len() implies (#[trigger] t[i] == ' ' || (
                is_ascii_alnum(t[i]) && ascii_lower(t[i]) == t[i])) by {
                    if i < n.len() {
                        assert(t[i] == n[i]);
                    }
                }
            }
        }
    }
}

proof fn lemma_normalized_of_normal(t: Seq<char>)
    requires
        normal_chars(t),
    ensures
        normalized(t) == if t.len() > 0 && t.last() == ' ' {
            t.drop_last()
        } else {
            t
        },
    decreases t.len(),
{
    if t.len() > 0 {
        let prev = t.drop_last();
        let c = t.last();
        assert(normal_chars(prev)) by {
            assert forall|i: int| 0 <= i < prev.len() - 1 implies #[trigger] prev[i] == ' '
                ==> prev[i + 1] != ' ' by {
                assert(prev[i] == t[i] && prev[i + 1] == t[i + 1]);
            }
            assert forall|i: int| 0 <= i < prev.len() implies (#[trigger] prev[i] == ' ' || (
            is_ascii_alnum(prev[i]) && ascii_lower(prev[i]) == prev[i])) by {
                assert(prev[i] == t[i]);
            }
        }
        lemma_normalized_of_normal(prev);
        if c == ' ' {
            assert(t[t.len() - 1] == ' ');
            if prev.len() > 0 {
                assert(t[prev.len() - 1] != ' ');
                assert(prev.last() != ' ');
            }
        } else {
            assert(t[t.len() - 1] == c);
            assert(is_ascii_alnum(c) && ascii_lower(c) == c);
            if prev.len() == 0 {
                assert(normalized(t) =~= t);
            } else if prev.last() == ' ' {
                assert(prev.len() >= 2) by {
                    assert(t[0] != ' ');
                    assert(prev[prev.len() - 1] == t[prev.len() - 1]);
                }
                let n = prev.drop_last();
                assert(prev[prev.len() - 2] == t[prev.len() - 2]);
                assert(!is_ascii_alnum(prev.last()));
                assert(normalized(t) =~= n.push(' ').push(c));
                assert(t =~= n.push(' ').push(c));
            } else {
                assert(prev[prev.len() - 1] == t[prev.len() - 1]);
                assert(is_ascii_alnum(prev.last()));
                assert(normalized(t) =~= prev.push(c));
            }
        }
    }
}

/// Normalizing twice is normalizing once.
pub proof fn law_normalize_idempotent(s: Seq<char>)
    ensures
        normalized(normalized(s)) == normalized(s),
{
    lemma_normalized_is_normal(s);
    lemma_normalized_of_normal(normalized(s));
}

proof fn lemma_lower_keeps_alnum(x: char, y: char)
    requires
        ascii_lower(x) == ascii_lower(y),
    ensures
        is_ascii_alnum(x) == is_ascii_alnum(y),
{
    assert(is_ascii_alnum(x) == is_ascii_alnum(ascii_lower(x)));
    assert(is_ascii_alnum(y) == is_ascii_alnum(ascii_lower(y)));
}

/// Normalization ignores ASCII case: texts equal up to case (such as a text
/// and its ASCII uppercase) normalize to the same text.
pub proof fn law_normalize_ignores_case(a: Seq<char>, b: Seq<char>)
    requires
        eq_ignore_case(a, b),
    ensures
        normalized(a) == normalized(b),
    decreases a.len(),
{
    assert(a.len() == lower_text(a).len());
    assert(b.len() == lower_text(b).len());
    if a.len() > 0 {
        let pa = a.drop_last();
        let pb = b.drop_last();
        assert(lower_text(pa) =~= lower_text(a).drop_last());
        assert(lower_text(pb) =~= lower_text(b).drop_last());
        law_normalize_ignores_case(pa, pb);
        assert(lower_text(a)[a.len() - 1] == lower_text(b)[a.len() - 1]);
        lemma_lower_keeps_alnum(a.last(), b.last());
        if pa.len() > 0 {
            assert(lower_text(a)[pa.len() - 1] == lower_text(b)[pa.len() - 1]);
            lemma_lower_keeps_alnum(pa.last(), pb.last());
        }
    }
}

/// Index keys ignore ASCII case in the namespace and the value: two external
/// ids with the same format tag whose namespaces and values are equal up to
/// case have the same key.
pub proof fn law_external_key_ignores_case(a: ExternalId, b: ExternalId)
    requires
        format_key(a.format) == format_key(b.format),
        eq_ignore_case(a.value@, b.value@),
        match (a.namespace, b.namespace) {
            (None, None) => true,
            (Some(x), Some(y)) => eq_ignore_case(x@, y@),
            _ => false,
        },
    ensures
        ext_key(a) == ext_key(b),
{
    assert(lower_text(Seq::<char>::empty()) =~= Seq::<char>::empty());
}

// ---------------------------------------------------------------------------
// Searching the in-memory store
// ---------------------------------------------------------------------------

proof fn lemma_collect_member<T>(recs: Seq<T>, f: spec_fn(T) -> Option<CandidateView>, x: CandidateView)
    requires
        collect_candidates(recs, f).contains(x),
    ensures
        exists|i: int| 0 <= i < recs.len() && f(recs[i]) == Some(x),
    decreases recs.len(),
{
    let prefix = collect_candidates(recs.drop_last(), f);
    match f(recs.last()) {
        Some(c) => {
            if c == x {
                assert(f(recs[recs.len() - 1]) == Some(x));
            } else {
                let k = choose|k: int| 0 <= k < prefix.push(c).len() && prefix.push(c)[k] == x;
                assert(prefix[k] == x);
                lemma_collect_member(recs.drop_last(), f, x);
                let i = choose|i: int| 0 <= i < recs.drop_last().len() && f(recs.drop_last()[i]) == Some(x);
                assert(recs[i] == recs.drop_last()[i]);
            }
        },
        None => {
            lemma_collect_member(recs.drop_last(), f, x);
            let i = choose|i: int| 0 <= i < recs.drop_last().len() && f(recs.drop_last()[i]) == Some(x);
            assert(recs[i] == recs.drop_last()[i]);
        },
    }
}

proof fn lemma_sorted_member(s: Seq<CandidateView>, k: int)
    requires
        0 <= k < sort_desc(s).len(),
    ensures
        s.contains(sort_desc(s)[k]),
{
    lemma_sort_desc(s);
    let x = sort_desc(s)[k];
    let p = has_confidence(x.confidence);
    sort_desc(s).lemma_filter_contains(p, k);
    assert(with_confidence(sort_desc(s), x.confidence) == with_confidence(s, x.confidence));
    s.lemma_filter_contains_rev(p, x);
}

/// Every candidate a search of the in-memory store finds is a record of the
/// searched kind, with a confidence from 60 to 100.
pub proof fn law_search_candidates_sound(m: CatalogModel, kind: SubjectKind, q: QueryView, k: int)
    requires
        0 <= k < search(m, kind, q).len(),
    ensures
        60 <= search(m, kind, q)[k].confidence <= 100,
        kind_ids(m, kind).contains(search(m, kind, q)[k].id),
{
    let x = search(m, kind, q)[k];
    match kind {
        SubjectKind::Entity => {
            let raw = collect_candidates(m.entities, entity_candidate_fn(m, q));
            if q.display_name is Some {
                lemma_sorted_member(raw, k);
            } else {
                assert(raw[k] == x);
            }
            lemma_collect_member(m.entities, entity_candidate_fn(m, q), x);
            let i = choose|i: int| 0 <= i < m.entities.len() && entity_candidate_fn(m, q)(m.entities[i]) == Some(x);
            assert(kind_ids(m, kind)[i] == m.entities[i].id);
        },
        SubjectKind::EntityType => {
            let raw = collect_candidates(m.entity_types, entity_type_candidate_fn(q));
            if q.display_name is Some {
                lemma_sorted_member(raw, k);
            } else {
                assert(raw[k] == x);
            }
            lemma_collect_member(m.entity_types, entity_type_candidate_fn(q), x);
            let i = choose|i: int| 0 <= i < m.entity_types.len() && entity_type_candidate_fn(q)(m.entity_types[i]) == Some(x);
            assert(kind_ids(m, kind)[i] == m.entity_types[i].id);
        },
        SubjectKind::Publisher => {
            let raw = collect_candidates(m.publishers, publisher_candidate_fn(q));
            if q.display_name is Some {
                lemma_sorted_member(raw, k);
            } else {
                assert(raw[k] == x);
            }
            lemma_collect_member(m.publishers, publisher_candidate_fn(q), x);
            let i = choose|i: int| 0 <= i < m.publishers.len() && publisher_candidate_fn(q)(m.publishers[i]) == Some(x);
            assert(kind_ids(m, kind)[i] == m.publishers[i].id);
        },
        SubjectKind::Source => {
            let raw = collect_candidates(m.sources, source_candidate_fn(q));
            if q.display_name is Some {
                lemma_sorted_member(raw, k);
            } else {
                assert(raw[k] == x);
            }
            lemma_collect_member(m.sources, source_candidate_fn(q), x);
            let i = choose|i: int| 0 <= i < m.sources.len() && source_candidate_fn(q)(m.sources[i]) == Some(x);
            assert(kind_ids(m, kind)[i] == m.sources[i].id);
        },
        SubjectKind::Citation => {},
    }
}

/// An entity search with a kind hint never offers an entity of another
/// type: each candidate is an entity of the catalog whose type, when the
/// catalog knows it, has a key equal to the hint up to ASCII case.
pub proof fn law_entity_candidates_match_kind_hint(m: CatalogModel, q: QueryView, k: int)
    requires
        0 <= k < search(m, SubjectKind::Entity, q).len(),
        q.kind_hint is Some,
    ensures
        exists|i: int|
            0 <= i < m.entities.len() && (#[trigger] m.entities[i]).id == search(m, SubjectKind::Entity, q)[k].id
                && (entity_type_key_of(m, m.entities[i].entity_type) matches Some(key) ==> eq_ignore_case(
                key,
                q.kind_hint->0,
            )),
{
    let x = search(m, SubjectKind::Entity, q)[k];
    let raw = collect_candidates(m.entities, entity_candidate_fn(m, q));
    if q.display_name is Some {
        lemma_sorted_member(raw, k);
    } else {
        assert(raw[k] == x);
    }
    lemma_collect_member(m.entities, entity_candidate_fn(m, q), x);
    let i = choose|i: int| 0 <= i < m.entities.len() && entity_candidate_fn(m, q)(m.entities[i]) == Some(x);
    let e = m.entities[i];
    assert(entity_candidate(m, q, e) == Some(x));
    let t0 = name_tally(q, e.name@, "name similarity"@);
    let t1 = entity_kind_tally(t0, q, entity_type_key_of(m, e.entity_type));
    let t2 = entity_source_tally(t1, q, entity_source_titles_of(m, e));
    let t3 = entity_system_tally(t2, q, entity_game_systems_of(m, e));
    assert(t3 is Some);
    assert(t2 is Some);
    assert(t1 is Some);
    assert(e.id == x.id);
}

/// Normalized text holds only ASCII lowercase letters, ASCII digits and
/// single spaces between words: no space at either end, never two in a row.
pub proof fn law_normalized_chars(s: Seq<char>)
    ensures
        forall|i: int|
            0 <= i < normalized(s).len() ==> {
                let x = #[trigger] normalized(s)[i];
                ('a' <= x && x <= 'z') || ('0' <= x && x <= '9') || x == ' '
            },
        normalized(s).len() > 0 ==> normalized(s)[0] != ' ' && normalized(s).last() != ' ',
        forall|i: int|
            0 <= i < normalized(s).len() - 1 && #[trigger] normalized(s)[i] == ' ' ==> normalized(s)[i + 1] != ' ',
{
    let n = normalized(s);
    lemma_normalized_is_normal(s);
    assert forall|i: int| 0 <= i < n.len() implies {
        let x = #[trigger] n[i];
        ('a' <= x && x <= 'z') || ('0' <= x && x <= '9') || x == ' '
    } by {
        let x = n[i];
        if x != ' ' && 'A' <= x && x <= 'Z' {
            assert('a' <= ((x as u32) + 32) as char);
        }
    }
    assert forall|i: int| 0 <= i < n.len() - 1 && #[trigger] n[i] == ' ' implies n[i + 1] != ' ' by {}
}

/// Two word lists joined by one space, either of them possibly empty.
pub open spec fn join_words(x: Seq<char>, y: Seq<char>) -> Seq<char> {
    if x.len() == 0 {
        y
    } else if y.len() == 0 {
        x
    } else {
        x + seq![' '] + y
    }
}

proof fn lemma_normalized_empty_last(x: Seq<char>)
    requires
        x.len() > 0,
        is_ascii_alnum(x.last()),
    ensures
        normalized(x).len() > 0,
{
}

/// Any character that is not an ASCII letter or digit separates words: the
/// text around it normalizes to the words before it and the words after it,
/// joined by one space.
pub proof fn law_normalize_separator(a: Seq<char>, c: char, b: Seq<char>)
    requires
        !(('0' <= c && c <= '9') || ('a' <= c && c <= 'z') || ('A' <= c && c <= 'Z')),
    ensures
        normalized(a.push(c) + b) == join_words(normalized(a), normalized(b)),
    decreases b.len(),
{
    let na = normalized(a);
    if b.len() == 0 {
        assert(a.push(c) + b =~= a.push(c));
        assert(a.push(c).drop_last() =~= a);
    } else {
        let b1 = b.drop_last();
        let d = b.last();
        let s = a.push(c) + b;
        let prev = a.push(c) + b1;
        assert(s.drop_last() =~= prev);
        assert(s.last() == d);
        law_normalize_separator(a, c, b1);
        let n = normalized(prev);
        let nb1 = normalized(b1);
        assert(n == join_words(na, nb1));
        if is_ascii_alnum(d) {
            let ld = ascii_lower(d);
            if nb1.len() == 0 {
                if b1.len() > 0 && is_ascii_alnum(b1.last()) {
                    lemma_normalized_empty_last(b1);
                }
                assert(normalized(b) =~= seq![ld]);
                if b1.len() == 0 {
                    assert(prev.last() == c);
                } else {
                    assert(prev.last() == b1.last());
                }
                if na.len() == 0 {
                    assert(normalized(s) =~= seq![ld]);
                } else {
                    assert(normalized(s) =~= na.push(' ').push(ld));
                    assert(join_words(na, normalized(b)) =~= na + seq![' '] + seq![ld]);
                    assert(na.push(' ').push(ld) =~= na + seq![' '] + seq![ld]);
                }
            } else {
                assert(b1.len() > 0);
                assert(prev.last() == b1.last());
                assert(n.len() > 0);
                if na.len() == 0 {
                    assert(n == nb1);
                } else {
                    assert(n =~= na + seq![' '] + nb1);
                    if is_ascii_alnum(b1.last()) {
                        assert(normalized(b) == nb1.push(ld));
                        assert(normalized(s) == n.push(ld));
                        assert(n.push(ld) =~= na + seq![' '] + nb1.push(ld));
                    } else {
                        assert(normalized(b) == nb1.push(' ').push(ld));
                        assert(normalized(s) == n.push(' ').push(ld));
                        assert(n.push(' ').push(ld) =~= na + seq![' '] + nb1.push(' ').push(ld));
                    }
                }
            }
        } else {
            assert(normalized(s) == n);
            assert(normalized(b) == nb1);
        }
    }
}

proof fn lemma_entity_member(m: CatalogModel, q: QueryView, k: int) -> (i: int)
    requires
        0 <= k < search(m, SubjectKind::Entity, q).len(),
    ensures
        0 <= i < m.entities.len(),
        entity_candidate(m, q, m.entities[i]) == Some(search(m, SubjectKind::Entity, q)[k]),
{
    let x = search(m, SubjectKind::Entity, q)[k];
    let raw = collect_candidates(m.entities, entity_candidate_fn(m, q));
    if q.display_name is Some {
        lemma_sorted_member(raw, k);
    } else {
        assert(raw[k] == x);
    }
    lemma_collect_member(m.entities, entity_candidate_fn(m, q), x);
    let i = choose|i: int| 0 <= i < m.entities.len() && entity_candidate_fn(m, q)(m.entities[i]) == Some(x);
    i
}

/// Every entity search candidate fits the query: it is an entity of the
/// catalog whose name shares words with the display name (when given),
/// whose known type key equals the kind hint up to ASCII case, one of whose
/// known source titles matches the source hint loosely (when it has any),
/// and one of whose known game systems equals the game-system hint up to
/// ASCII case (when it has any); its confidence is between 60 and 100.
pub proof fn law_entity_candidates_fit_query(m: CatalogModel, q: QueryView, k: int)
    requires
        0 <= k < search(m, SubjectKind::Entity, q).len(),
    ensures
        exists|i: int|
            0 <= i < m.entities.len() && (#[trigger] m.entities[i]).id == search(m, SubjectKind::Entity, q)[k].id && {
                let e = m.entities[i];
                let titles = entity_source_titles_of(m, e);
                let systems = entity_game_systems_of(m, e);
                &&& q.display_name matches Some(d) ==> name_score(d, e.name@) > 0
                &&& (q.kind_hint is Some && entity_type_key_of(m, e.entity_type) is Some) ==> eq_ignore_case(
                    entity_type_key_of(m, e.entity_type)->0,
                    q.kind_hint->0,
                )
                &&& (q.source_hint is Some && titles.len() > 0) ==> exists|j: int|
                    0 <= j < titles.len() && fuzzy(q.source_hint->0, #[trigger] titles[j])
                &&& (q.game_system_hint is Some && systems.len() > 0) ==> exists|j: int|
                    0 <= j < systems.len() && eq_ignore_case(#[trigger] systems[j], q.game_system_hint->0)
            },
        60 <= search(m, SubjectKind::Entity, q)[k].confidence <= 100,
{
    let i = lemma_entity_member(m, q, k);
    let e = m.entities[i];
    let x = search(m, SubjectKind::Entity, q)[k];
    let t0 = name_tally(q, e.name@, "name similarity"@);
    let t1 = entity_kind_tally(t0, q, entity_type_key_of(m, e.entity_type));
    let t2 = entity_source_tally(t1, q, entity_source_titles_of(m, e));
    let t3 = entity_system_tally(t2, q, entity_game_systems_of(m, e));
    assert(t3 is Some);
    assert(t2 is Some);
    assert(t1 is Some);
    assert(t0 is Some);
    assert(e.id == x.id);
    law_search_candidates_sound(m, SubjectKind::Entity, q, k);
}

/// Every source search candidate fits the query: it is a source of the
/// catalog whose title shares words with the display name (when given),
/// matches the source hint loosely (when given), and one of whose game
/// systems equals the game-system hint up to ASCII case (when it lists any).
pub proof fn law_source_candidates_fit_query(m: CatalogModel, q: QueryView, k: int)
    requires
        0 <= k < search(m, SubjectKind::Source, q).len(),
    ensures
        exists|i: int|
            0 <= i < m.sources.len() && (#[trigger] m.sources[i]).id == search(m, SubjectKind::Source, q)[k].id && {
                let r = m.sources[i];
                &&& q.display_name matches Some(d) ==> name_score(d, r.title@) > 0
                &&& q.source_hint matches Some(h) ==> fuzzy(h, r.title@)
                &&& (q.game_system_hint is Some && r.game_systems@.len() > 0) ==> exists|j: int|
                    0 <= j < r.game_systems@.len() && eq_ignore_case(
                        #[trigger] r.game_systems@[j]@,
                        q.game_system_hint->0,
                    )
            },
{
    let x = search(m, SubjectKind::Source, q)[k];
    let raw = collect_candidates(m.sources, source_candidate_fn(q));
    if q.display_name is Some {
        lemma_sorted_member(raw, k);
    } else {
        assert(raw[k] == x);
    }
    lemma_collect_member(m.sources, source_candidate_fn(q), x);
    let i = choose|i: int| 0 <= i < m.sources.len() && source_candidate_fn(q)(m.sources[i]) == Some(x);
    let r = m.sources[i];
    let sys = text_views(r.game_systems@);
    let t0 = name_tally(q, r.title@, "title similarity"@);
    let t1 = source_hint_tally(t0, q, r.title@);
    let t2 = source_system_tally(t1, q, sys);
    assert(source_candidate(q, r) == Some(x));
    assert(t2 is Some);
    assert(t1 is Some);
    assert(t0 is Some);
    if q.game_system_hint is Some && r.game_systems@.len() > 0 {
        let g = q.game_system_hint->0;
        assert(any_same_system(g, sys));
        let j = choose|j: int| 0 <= j < sys.len() && eq_ignore_case(#[trigger] sys[j], g);
        assert(sys[j] == r.game_systems@[j]@);
    }
}

/// Every entity-type search candidate fits the query: it is an entity type
/// of the catalog whose name shares words with the display name (when
/// given) and whose key equals the kind hint up to ASCII case (when given).
pub proof fn law_entity_type_candidates_fit_query(m: CatalogModel, q: QueryView, k: int)
    requires
        0 <= k < search(m, SubjectKind::EntityType, q).len(),
    ensures
        exists|i: int|
            0 <= i < m.entity_types.len() && (#[trigger] m.entity_types[i]).id == search(
                m,
                SubjectKind::EntityType,
                q,
            )[k].id && {
                let r = m.entity_types[i];
                &&& q.display_name matches Some(d) ==> name_score(d, r.name@) > 0
                &&& q.kind_hint matches Some(h) ==> eq_ignore_case(r.key@, h)
            },
{
    let x = search(m, SubjectKind::EntityType, q)[k];
    let raw = collect_candidates(m.entity_types, entity_type_candidate_fn(q));
    if q.display_name is Some {
        lemma_sorted_member(raw, k);
    } else {
        assert(raw[k] == x);
    }
    lemma_collect_member(m.entity_types, entity_type_candidate_fn(q), x);
    let i = choose|i: int| 0 <= i < m.entity_types.len() && entity_type_candidate_fn(q)(m.entity_types[i]) == Some(x);
    let r = m.entity_types[i];
    let t0 = name_tally(q, r.name@, "name similarity"@);
    assert(entity_type_candidate(q, r) == Some(x));
    assert(type_key_tally(t0, q, r.key@) is Some);
    assert(t0 is Some);
}

/// The letters and digits of ASCII.
pub open spec fn ascii_letter_or_digit(c: char) -> bool {
    ('0' <= c && c <= '9') || ('a' <= c && c <= 'z') || ('A' <= c && c <= 'Z')
}

/// The words of a normalized text, spaces left out, are the ASCII letters
/// and digits of the input, lowercased, in order: nothing else is kept and
/// none of them is lost.
pub proof fn law_normalized_keeps_letters_and_digits(s: Seq<char>)
    ensures
        normalized(s).filter(|x: char| x != ' ') == s.filter(|x: char| ascii_letter_or_digit(x)).map_values(
            |x: char| ascii_lower(x),
        ),
    decreases s.len(),
{
    let keep = |x: char| x != ' ';
    let alnum = |x: char| ascii_letter_or_digit(x);
    let low = |x: char| ascii_lower(x);
    if s.len() == 0 {
        reveal(Seq::filter);
        assert(s.filter(alnum).map_values(low) =~= Seq::<char>::empty());
    } else {
        let prev = s.drop_last();
        let c = s.last();
        law_normalized_keeps_letters_and_digits(prev);
        assert(prev.push(c) =~= s);
        prev.lemma_filter_push(c, alnum);
        let n = normalized(prev);
        if is_ascii_alnum(c) {
            lemma_lower_alnum(c);
            let lc = ascii_lower(c);
            assert(lc != ' ');
            n.lemma_filter_push(lc, keep);
            if !(n.len() == 0 || is_ascii_alnum(prev.last())) {
                n.lemma_filter_push(' ', keep);
                n.push(' ').lemma_filter_push(lc, keep);
            }
            assert(prev.filter(alnum).push(c).map_values(low) =~= prev.filter(alnum).map_values(low).push(lc));
        }
    }
}

/// Name similarity: 75 for texts equal up to ASCII case; 65 for other texts
/// with the same non-empty normalized words; a score is non-zero only when
/// the texts are equal up to case or match loosely; loosely matching texts
/// score at least 40.
pub proof fn law_name_score_cases(a: Seq<char>, b: Seq<char>)
    ensures
        eq_ignore_case(a, b) ==> name_score(a, b) == 75,
        !eq_ignore_case(a, b) && normalized(a).len() > 0 && normalized(a) == normalized(b) ==> name_score(a, b)
            == 65,
        name_score(a, b) > 0 ==> eq_ignore_case(a, b) || fuzzy(a, b),
        fuzzy(a, b) ==> name_score(a, b) >= 40,
{
}

} // verus!
