//! Text matching: case folding, normalization, similarity scores and the
//! keys under which external ids are indexed.

use vstd::prelude::*;

use crate::external::{ascii_lower, char_to_ascii_lowercase, string_push};
use crate::id::{ExternalId, FormatId};

verus! {

/// `c` is an ASCII digit or letter.
pub open spec fn is_ascii_alnum(c: char) -> bool {
    ||| ('0' <= c && c <= '9')
    ||| ('a' <= c && c <= 'z')
    ||| ('A' <= c && c <= 'Z')
}

/// Every character of `s` folded to ASCII lowercase.
pub open spec fn lower_text(s: Seq<char>) -> Seq<char> {
    s.map_values(|c: char| ascii_lower(c))
}

/// `a` and `b` are equal up to ASCII case.
pub open spec fn eq_ignore_case(a: Seq<char>, b: Seq<char>) -> bool {
    lower_text(a) == lower_text(b)
}

/// `needle` occurs in `hay` as a contiguous run.
pub open spec fn contains_text(hay: Seq<char>, needle: Seq<char>) -> bool {
    exists|i: int|
        0 <= i && i + needle.len() <= hay.len() && #[trigger] hay.subrange(i, i + needle.len())
            == needle
}

/// The ASCII-alphanumeric runs of `s`, lowercased and joined by single
/// spaces: every other character separates words, and separators at either
/// end vanish. Stated by the text it gives for `s` with one more character.
pub open spec fn normalized(s: Seq<char>) -> Seq<char>
    decreases s.len(),
{
    if s.len() == 0 {
        Seq::empty()
    } else {
        let prev = s.drop_last();
        let c = s.last();
        let n = normalized(prev);
        if !is_ascii_alnum(c) {
            n
        } else if n.len() == 0 || is_ascii_alnum(prev.last()) {
            n.push(ascii_lower(c))
        } else {
            n.push(' ').push(ascii_lower(c))
        }
    }
}

/// Loose text match: both normalized texts are non-empty and one contains
/// the other (equality included).
pub open spec fn fuzzy(left: Seq<char>, right: Seq<char>) -> bool {
    let l = normalized(left);
    let r = normalized(right);
    &&& l.len() > 0
    &&& r.len() > 0
    &&& (l == r || contains_text(l, r) || contains_text(r, l))
}

/// Name similarity in hundredths: 75 for equality up to ASCII case, 65 for
/// equal normalized texts, 40 when one normalized text contains the other,
/// 0 otherwise (and 0 when either normalizes to nothing).
pub open spec fn name_score(left: Seq<char>, right: Seq<char>) -> u32 {
    let l = normalized(left);
    let r = normalized(right);
    if eq_ignore_case(left, right) {
        75
    } else if l.len() == 0 || r.len() == 0 {
        0
    } else if l == r {
        65
    } else if contains_text(l, r) || contains_text(r, l) {
        40
    } else {
        0
    }
}

/// The index key text of a format tag.
pub open spec fn format_key(f: FormatId) -> Seq<char> {
    match f {
        FormatId::ArtisanToml => "artisan_toml"@,
        FormatId::Pcgen => "pcgen"@,
        FormatId::Herolab => "herolab"@,
        FormatId::Hlo => "hlo"@,
        FormatId::Foundry => "foundry"@,
        FormatId::Other(v) => "other:"@ + lower_text(v@),
    }
}

/// The index key of an external id: `format|namespace|value`, with the
/// namespace (empty when absent) and value folded to ASCII lowercase.
pub open spec fn ext_key(e: ExternalId) -> Seq<char> {
    let ns = match e.namespace {
        Some(n) => n@,
        None => Seq::empty(),
    };
    format_key(e.format) + "|"@ + lower_text(ns) + "|"@ + lower_text(e.value@)
}

/// Whether `c` is an ASCII digit or letter.
pub fn is_ascii_alphanumeric(c: char) -> (r: bool)
    ensures
        r == is_ascii_alnum(c),
{
    ('0' <= c && c <= '9') || ('a' <= c && c <= 'z') || ('A' <= c && c <= 'Z')
}

/// The characters of `s`, in order.
pub fn chars_of(s: &str) -> (v: Vec<char>)
    ensures
        v@ == s@,
{
    let n = s.unicode_len();
    let mut v: Vec<char> = Vec::new();
    for i in 0..n
        invariant
            n == s@.len(),
            v@ == s@.subrange(0, i as int),
    {
        v.push(s.get_char(i));
        assert(v@ =~= s@.subrange(0, i + 1));
    }
    assert(v@ =~= s@);
    v
}

/// The text made of `chars`, in order.
pub fn string_of(chars: &Vec<char>) -> (s: String)
    ensures
        s@ == chars@,
{
    let mut s = String::new();
    for i in 0..chars.len()
        invariant
            s@ == chars@.subrange(0, i as int),
    {
        string_push(&mut s, chars[i]);
        assert(s@ =~= chars@.subrange(0, i + 1));
    }
    assert(s@ =~= chars@);
    s
}

/// `s` with every ASCII letter folded to lowercase.
pub fn to_ascii_lowercase(s: &str) -> (r: String)
    ensures
        r@ == lower_text(s@),
{
    let chars = chars_of(s);
    let mut r = String::new();
    for i in 0..chars.len()
        invariant
            chars@ == s@,
            r@ == lower_text(s@.subrange(0, i as int)),
    {
        string_push(&mut r, char_to_ascii_lowercase(chars[i]));
        assert(lower_text(s@.subrange(0, i + 1)) =~= lower_text(s@.subrange(0, i as int)).push(
            ascii_lower(s@[i as int]),
        ));
    }
    assert(s@.subrange(0, s@.len() as int) =~= s@);
    r
}

/// Whether `a` and `b` are equal up to ASCII case.
pub fn eq_ignore_ascii_case(a: &str, b: &str) -> (r: bool)
    ensures
        r == eq_ignore_case(a@, b@),
{
    let x = chars_of(a);
    let y = chars_of(b);
    if x.len() != y.len() {
        assert(lower_text(a@).len() != lower_text(b@).len());
        return false;
    }
    for i in 0..x.len()
        invariant
            x@ == a@,
            y@ == b@,
            x@.len() == y@.len(),
            forall|j: int| 0 <= j < i ==> ascii_lower(#[trigger] x@[j]) == ascii_lower(y@[j]),
    {
        if char_to_ascii_lowercase(x[i]) != char_to_ascii_lowercase(y[i]) {
            assert(lower_text(a@)[i as int] != lower_text(b@)[i as int]);
            return false;
        }
    }
    assert(lower_text(a@) =~= lower_text(b@));
    true
}

/// Whether `needle` occurs in `hay` as a contiguous run.
pub fn contains_chars(hay: &Vec<char>, needle: &Vec<char>) -> (r: bool)
    ensures
        r == contains_text(hay@, needle@),
{
    if needle.len() > hay.len() {
        return false;
    }
    if needle.len() == 0 {
        assert(hay@.subrange(0int, 0int + needle@.len()) =~= needle@);
        return true;
    }
    let n = hay.len();
    let m = needle.len();
    let last = n - m;
    let mut i: usize = 0;
    while i <= last
        invariant
            n == hay@.len(),
            m == needle@.len(),
            last == n - m,
            m > 0,
            i <= last + 1,
            forall|k: int|
                0 <= k < i ==> #[trigger] hay@.subrange(k, k + needle@.len()) != needle@,
        decreases last + 1 - i,
    {
        let mut j: usize = 0;
        let mut same = true;
        while j < m
            invariant
                n == hay@.len(),
                m == needle@.len(),
                last == n - m,
                m > 0,
                i <= last,
                j <= needle@.len(),
                same == (forall|m: int| 0 <= m < j ==> hay@[i + m] == needle@[m]),
            decreases needle@.len() - j,
        {
            if hay[i + j] != needle[j] {
                same = false;
            }
            j = j + 1;
        }
        if same {
            assert(hay@.subrange(i as int, i + needle@.len()) =~= needle@);
            return true;
        }
        assert(hay@.subrange(i as int, i + needle@.len()) != needle@) by {
            let m = choose|m: int| 0 <= m < needle@.len() && hay@[i + m] != needle@[m];
            assert(hay@.subrange(i as int, i + needle@.len())[m] == hay@[i + m]);
        }
        i = i + 1;
    }
    false
}

/// The ASCII-alphanumeric runs of `input`, lowercased and joined by single spaces.
pub fn normalize_for_match(input: &str) -> (r: String)
    ensures
        r@ == normalized(input@),
{
    let chars = chars_of(input);
    let mut out: Vec<char> = Vec::new();
    let mut prev_alnum = false;
    for i in 0..chars.len()
        invariant
            chars@ == input@,
            out@ == normalized(input@.subrange(0, i as int)),
            prev_alnum == (i > 0 && is_ascii_alnum(input@[i - 1])),
    {
        let c = chars[i];
        let ghost before = input@.subrange(0, i as int);
        assert(input@.subrange(0, i + 1).drop_last() =~= before);
        if is_ascii_alphanumeric(c) {
            if out.len() > 0 && !prev_alnum {
                out.push(' ');
            }
            out.push(char_to_ascii_lowercase(c));
            prev_alnum = true;
        } else {
            prev_alnum = false;
        }
    }
    assert(input@.subrange(0, input@.len() as int) =~= input@);
    string_of(&out)
}

/// Whether two texts match loosely: both normalize to something and one
/// normalized text contains the other.
pub fn fuzzy_match(left: &str, right: &str) -> (r: bool)
    ensures
        r == fuzzy(left@, right@),
{
    let l = chars_of(normalize_for_match(left).as_str());
    let r = chars_of(normalize_for_match(right).as_str());
    if l.len() == 0 || r.len() == 0 {
        return false;
    }
    proof {
        if l@ == r@ {
            assert(l@.subrange(0int, 0int + r@.len()) =~= r@);
        }
    }
    contains_chars(&l, &r) || contains_chars(&r, &l)
}

/// Name similarity in hundredths (see [`name_score`]).
pub fn score_name_similarity(left: &str, right: &str) -> (score: u32)
    ensures
        score == name_score(left@, right@),
{
    if eq_ignore_ascii_case(left, right) {
        return 75;
    }
    let l = chars_of(normalize_for_match(left).as_str());
    let r = chars_of(normalize_for_match(right).as_str());
    if l.len() == 0 || r.len() == 0 {
        return 0;
    }
    if contains_chars(&l, &r) && l.len() == r.len() {
        assert(l@ =~= r@) by {
            let i = choose|i: int|
                0 <= i && i + r@.len() <= l@.len() && #[trigger] l@.subrange(i, i + r@.len())
                    == r@;
            assert(i == 0);
            assert(l@.subrange(0, l@.len() as int) =~= l@);
        }
        return 65;
    }
    if l.len() == r.len() {
        assert(l@ != r@) by {
            if l@ == r@ {
                assert(l@.subrange(0int, 0int + r@.len()) =~= r@);
            }
        }
    }
    if contains_chars(&l, &r) || contains_chars(&r, &l) {
        return 40;
    }
    proof {
        if l@ == r@ {
            assert(l@.subrange(0int, 0int + r@.len()) =~= r@);
        }
    }
    0
}

/// The index key text of a format tag.
pub fn format_id_key(id: &FormatId) -> (key: String)
    ensures
        key@ == format_key(*id),
{
    match id {
        FormatId::ArtisanToml => String::from_str("artisan_toml"),
        FormatId::Pcgen => String::from_str("pcgen"),
        FormatId::Herolab => String::from_str("herolab"),
        FormatId::Hlo => String::from_str("hlo"),
        FormatId::Foundry => String::from_str("foundry"),
        FormatId::Other(value) => {
            let mut key = String::from_str("other:");
            let lowered = to_ascii_lowercase(value.as_str());
            key.append(lowered.as_str());
            key
        },
    }
}

/// The index key of an external id: `format|namespace|value`, case-folded.
pub fn external_id_key(id: &ExternalId) -> (key: String)
    ensures
        key@ == ext_key(*id),
{
    let namespace = match &id.namespace {
        Some(ns) => to_ascii_lowercase(ns.as_str()),
        None => {
            assert(lower_text(Seq::<char>::empty()) =~= Seq::<char>::empty());
            String::new()
        },
    };
    let mut key = format_id_key(&id.format);
    key.append("|");
    key.append(namespace.as_str());
    key.append("|");
    let value = to_ascii_lowercase(id.value.as_str());
    key.append(value.as_str());
    key
}

} // verus!
