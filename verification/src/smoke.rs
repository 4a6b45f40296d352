//! Smoke testing against the live billing API: redaction of recorded exchanges
//! and comparison of response shapes.

use vstd::prelude::*;

use crate::json::{
    int_at, json_get, law_a_key_is_read_from_its_first_member, lemma_items_view,
    lemma_members_view, member, text_at, Json, JsonView, Member, MemberView,
};
use crate::text::{
    begins_with, chars_of, decimal, digits_value, holds_text,
    law_replacing_goes_from_left_to_right, lemma_decimal_value, lemma_views_push, occurs_at,
    push_decimal, replace_all, replaced, same_text, starts_with, text_of, views,
};

verus! {

pub const FIXTURE_DIR: &'static str = "smoke-test-fixtures";

/// What stands in the place of the secret.
pub const KEY_MARK: &'static str = "[REDACTED_KEY]";

/// What stands in the place of a URL's query.
pub const QUERY_MARK: &'static str = "?[REDACTED_QUERY]";

/// Where a character first occurs from `from` on.
pub open spec fn char_at(s: Seq<char>, c: char, from: int) -> Option<int>
    decreases s.len() - from,
{
    if from < 0 || from >= s.len() {
        None
    } else if s[from] == c {
        Some(from)
    } else {
        char_at(s, c, from + 1)
    }
}

/// A URL without its query.
pub open spec fn without_query(s: Seq<char>) -> Seq<char> {
    if begins_with(s, "http"@) {
        match char_at(s, '?', 0) {
            Some(q) => s.take(q) + QUERY_MARK@,
            None => s,
        }
    } else {
        s
    }
}

/// A text without the secret, and without its query where it is a URL.
pub open spec fn redacted_text(s: Seq<char>, secret: Seq<char>) -> Seq<char> {
    without_query(replaced(s, secret, KEY_MARK@))
}

fn find_char(chars: &Vec<char>, c: char) -> (at: Option<usize>)
    ensures
        at is Some <==> char_at(chars@, c, 0) is Some,
        at matches Some(i) ==> char_at(chars@, c, 0) == Some(i as int) && i < chars@.len(),
{
    let mut i: usize = 0;
    while i < chars.len()
        invariant
            i <= chars@.len(),
            char_at(chars@, c, 0) == char_at(chars@, c, i as int),
        decreases chars.len() - i,
    {
        if chars[i] == c {
            return Some(i);
        }
        i = i + 1;
    }
    None
}

/// Redacts one text.
pub fn redact_text(s: &str, secret: &str) -> (out: String)
    ensures
        out@ == redacted_text(s@, secret@),
{
    let clean = replace_all(s, secret, KEY_MARK);
    if starts_with(clean.as_str(), "http") {
        let chars = chars_of(clean.as_str());
        if let Some(q) = find_char(&chars, '?') {
            let mut url = text_of(&chars, 0, q);
            proof {
                assert(chars@.subrange(0, q as int) =~= chars@.take(q as int));
            }
            url.append(QUERY_MARK);
            return url;
        }
    }
    clean
}

/// A value with all its texts redacted, at every depth.
pub open spec fn redacted(value: JsonView, secret: Seq<char>) -> JsonView
    decreases value,
{
    match value {
        JsonView::Str(s) => JsonView::Str(redacted_text(s, secret)),
        JsonView::Array(items) => JsonView::Array(redacted_items(items, secret)),
        JsonView::Object(members) => JsonView::Object(redacted_members(members, secret)),
        other => other,
    }
}

/// A list with all its values redacted.
pub open spec fn redacted_items(items: Seq<JsonView>, secret: Seq<char>) -> Seq<JsonView>
    decreases items,
{
    if items.len() == 0 {
        Seq::empty()
    } else {
        redacted_items(items.subrange(0, items.len() - 1), secret).push(
            redacted(items[items.len() - 1], secret),
        )
    }
}

/// An object's members with all their values redacted.
pub open spec fn redacted_members(members: Seq<MemberView>, secret: Seq<char>) -> Seq<MemberView>
    decreases members,
{
    if members.len() == 0 {
        Seq::empty()
    } else {
        let last = members[members.len() - 1];
        redacted_members(members.subrange(0, members.len() - 1), secret).push(
            MemberView { key: last.key, value: redacted(last.value, secret) },
        )
    }
}

/// Recursively scrub the secret and any URL query strings (checkout links can
/// embed session tokens).
pub fn redact(value: &Json, secret: &str) -> (out: Json)
    ensures
        out@ == redacted(value@, secret@),
    decreases value,
{
    match value {
        Json::Null => Json::Null,
        Json::Bool(b) => Json::Bool(*b),
        Json::Int(n) => Json::Int(*n),
        Json::Number(s) => Json::Number(s.clone()),
        Json::Str(s) => Json::Str(redact_text(s.as_str(), secret)),
        Json::Array(items) => {
            let ghost all = views(items@);
            let mut list: Vec<Json> = Vec::new();
            let mut i: usize = 0;
            proof {
                lemma_items_view(items@);
                assert(views(list@) =~= redacted_items(all.take(0), secret@));
            }
            while i < items.len()
                invariant
                    *value == Json::Array(*items),
                    all == views(items@),
                    i <= items@.len(),
                    views(list@) == redacted_items(all.take(i as int), secret@),
                decreases items.len() - i,
            {
                proof {
                    assert(decreases_to!(*value => value->Array_0));
                    assert(decreases_to!(value->Array_0 => (value->Array_0)@));
                    assert(decreases_to!(items@ => items@[i as int]));
                }
                let item = redact(&items[i], secret);
                proof {
                    lemma_views_push(list@, item);
                    let longer = all.take(i + 1);
                    assert(longer.subrange(0, longer.len() - 1) =~= all.take(i as int));
                }
                list.push(item);
                i = i + 1;
            }
            proof {
                assert(all.take(i as int) =~= all);
            }
            Json::array(list)
        },
        Json::Object(members) => {
            let ghost all = views(members@);
            let mut list: Vec<Member> = Vec::new();
            let mut i: usize = 0;
            proof {
                lemma_members_view(members@);
                assert(views(list@) =~= redacted_members(all.take(0), secret@));
            }
            while i < members.len()
                invariant
                    *value == Json::Object(*members),
                    all == views(members@),
                    i <= members@.len(),
                    views(list@) == redacted_members(all.take(i as int), secret@),
                decreases members.len() - i,
            {
                proof {
                    assert(decreases_to!(*value => value->Object_0));
                    assert(decreases_to!(value->Object_0 => (value->Object_0)@));
                    assert(decreases_to!(members@ => members@[i as int]));
                    assert(decreases_to!(members@[i as int] => members@[i as int].value));
                }
                let item = Member {
                    key: members[i].key.clone(),
                    value: redact(&members[i].value, secret),
                };
                proof {
                    lemma_views_push(list@, item);
                    let longer = all.take(i + 1);
                    assert(longer.subrange(0, longer.len() - 1) =~= all.take(i as int));
                }
                list.push(item);
                i = i + 1;
            }
            proof {
                assert(all.take(i as int) =~= all);
            }
            Json::object(list)
        },
    }
}

/// Whether two texts cannot overlap: neither holds the other, and no end of one
/// begins the other.
pub open spec fn apart(a: Seq<char>, b: Seq<char>) -> bool {
    &&& !holds_text(a, b)
    &&& !holds_text(b, a)
    &&& forall|n: int| 0 < n <= a.len() && n <= b.len() ==> #[trigger] a.take(n) != b.skip(b.len() - n)
    &&& forall|n: int| 0 < n <= a.len() && n <= b.len() ==> a.skip(a.len() - n) != #[trigger] b.take(n)
}

/// What a replacement begins with: the text up to the first occurrence, and
/// then the replacement.
proof fn lemma_first_piece(s: Seq<char>, pat: Seq<char>, by: Seq<char>) -> (j: int)
    requires
        pat.len() > 0,
    ensures
        0 <= j <= s.len(),
        j <= replaced(s, pat, by).len(),
        replaced(s, pat, by).take(j) == s.take(j),
        (j == s.len() && replaced(s, pat, by) == s) || (j + by.len() <= replaced(s, pat, by).len()
            && replaced(s, pat, by).subrange(j, j + by.len()) == by),
    decreases s.len(),
{
    let r = replaced(s, pat, by);
    if s.len() == 0 {
        assert(r =~= s);
        0
    } else if begins_with(s, pat) {
        assert(r.subrange(0, by.len() as int) =~= by);
        assert(r.take(0) =~= s.take(0));
        0
    } else {
        let rest = s.drop_first();
        let tail = replaced(rest, pat, by);
        let j = lemma_first_piece(rest, pat, by);
        assert(r =~= seq![s[0]] + tail);
        assert(r.take(j + 1) =~= seq![s[0]] + tail.take(j));
        assert(s.take(j + 1) =~= seq![s[0]] + rest.take(j));
        if j == rest.len() && tail == rest {
            assert(r =~= s);
        } else {
            assert(r.subrange(j + 1, j + 1 + by.len()) =~= tail.subrange(j, j + by.len()));
        }
        j + 1
    }
}

/// Whether a mark stands in a text where it overlaps `len` characters from `at`
/// on.
pub open spec fn mark_overlaps(text: Seq<char>, mark: Seq<char>, at: int, len: int) -> bool {
    exists|p: int| p < at + len && at < p + mark.len() && #[trigger] occurs_at(text, mark, p)
}

/// What a replacement leaves of a text overlaps what stands in its place.
proof fn lemma_left_over_overlaps(s: Seq<char>, pat: Seq<char>, by: Seq<char>, at: int)
    requires
        pat.len() > 0,
        by.len() > 0,
        occurs_at(replaced(s, pat, by), pat, at),
    ensures
        mark_overlaps(replaced(s, pat, by), by, at, pat.len() as int),
    decreases s.len(),
{
    let r = replaced(s, pat, by);
    let m = pat.len() as int;
    let k = by.len() as int;
    if begins_with(s, pat) {
        let tail = replaced(s.skip(m), pat, by);
        assert(r =~= by + tail);
        if at >= k {
            assert(tail.subrange(at - k, at - k + m) =~= r.subrange(at, at + m));
            lemma_left_over_overlaps(s.skip(m), pat, by, at - k);
            let p = choose|p: int| p < at - k + m && at - k < p + k && #[trigger] occurs_at(tail, by, p);
            assert(r.subrange(p + k, p + k + k) =~= tail.subrange(p, p + k));
            assert(occurs_at(r, by, p + k));
        } else {
            assert(r.subrange(0, k) =~= by);
            assert(occurs_at(r, by, 0));
        }
    } else {
        let rest = s.drop_first();
        let tail = replaced(rest, pat, by);
        assert(r =~= seq![s[0]] + tail);
        if at >= 1 {
            assert(tail.subrange(at - 1, at - 1 + m) =~= r.subrange(at, at + m));
            lemma_left_over_overlaps(rest, pat, by, at - 1);
            let p = choose|p: int| p < at - 1 + m && at - 1 < p + k && #[trigger] occurs_at(tail, by, p);
            assert(r.subrange(p + 1, p + 1 + k) =~= tail.subrange(p, p + k));
            assert(occurs_at(r, by, p + 1));
        } else {
            let j = lemma_first_piece(s, pat, by);
            if j >= m {
                assert(s.take(m) =~= r.take(j).take(m));
                assert(r.take(j).take(m) =~= r.subrange(0, m));
            } else if j == s.len() && r == s {
                assert(s.take(m) =~= r.subrange(0, m));
            } else {
                assert(occurs_at(r, by, j));
            }
        }
    }
}

/// The place that [`char_at`] gives is one of the text.
proof fn lemma_char_at(s: Seq<char>, c: char, from: int)
    ensures
        char_at(s, c, from) matches Some(q) ==> 0 <= q < s.len() && s[q] == c && forall|k: int|
            from <= k < q ==> s[k] != c,
    decreases s.len() - from,
{
    if 0 <= from < s.len() && s[from] != c {
        lemma_char_at(s, c, from + 1);
    }
}

/// Whether a text shows the secret nowhere but where it overlaps a mark.
pub open spec fn shows_only_at_marks(text: Seq<char>, secret: Seq<char>) -> bool {
    forall|at: int| #[trigger]
        occurs_at(text, secret, at) ==> mark_overlaps(text, KEY_MARK@, at, secret.len() as int)
            || mark_overlaps(text, QUERY_MARK@, at, secret.len() as int)
}

/// A redacted text shows the secret at most where a mark is part of it.
proof fn lemma_redacted_text_shows_marks(s: Seq<char>, secret: Seq<char>)
    requires
        secret.len() > 0,
    ensures
        shows_only_at_marks(redacted_text(s, secret), secret),
{
    reveal_strlit("[REDACTED_KEY]");
    let key = KEY_MARK@;
    let mark = QUERY_MARK@;
    let r = replaced(s, secret, key);
    let out = redacted_text(s, secret);
    let m = secret.len() as int;
    assert forall|at: int| #[trigger] occurs_at(out, secret, at) implies mark_overlaps(
        out,
        key,
        at,
        m,
    ) || mark_overlaps(out, mark, at, m) by {
        if out == r {
            lemma_left_over_overlaps(s, secret, key, at);
        } else {
            lemma_char_at(r, '?', 0);
            let q = char_at(r, '?', 0)->0;
            assert(out =~= r.take(q) + mark);
            if at + m <= q {
                assert(r.subrange(at, at + m) =~= out.subrange(at, at + m));
                lemma_left_over_overlaps(s, secret, key, at);
                let p = choose|p: int|
                    p < at + m && at < p + key.len() && #[trigger] occurs_at(r, key, p);
                if p + key.len() > q {
                    assert(r.subrange(p, p + key.len())[q - p] == r[q]);
                    assert(key[q - p] == '?');
                }
                assert(out.subrange(p, p + key.len()) =~= r.subrange(p, p + key.len()));
                assert(occurs_at(out, key, p));
            } else {
                assert(out.subrange(q, q + mark.len()) =~= mark);
                assert(occurs_at(out, mark, q));
            }
        }
    }
}

/// Texts that cannot overlap do not.
proof fn lemma_apart(text: Seq<char>, a: Seq<char>, b: Seq<char>, at: int)
    requires
        apart(a, b),
        occurs_at(text, a, at),
    ensures
        !mark_overlaps(text, b, at, a.len() as int),
{
    let m = a.len() as int;
    let k = b.len() as int;
    assert forall|p: int| p < at + m && at < p + k implies !#[trigger] occurs_at(text, b, p) by {
        if occurs_at(text, b, p) {
            assert forall|i: int| 0 <= i < m implies #[trigger] a[i] == text[at + i] by {
                assert(text.subrange(at, at + m)[i] == text[at + i]);
            }
            assert forall|i: int| 0 <= i < k implies #[trigger] b[i] == text[p + i] by {
                assert(text.subrange(p, p + k)[i] == text[p + i]);
            }
            if p <= at && at + m <= p + k {
                assert(b.subrange(at - p, at - p + m) =~= a);
                assert(occurs_at(b, a, at - p));
            } else if at <= p && p + k <= at + m {
                assert(a.subrange(p - at, p - at + k) =~= b);
                assert(occurs_at(a, b, p - at));
            } else if p < at {
                let n = p + k - at;
                assert(a.take(n) =~= b.skip(k - n));
            } else {
                let n = at + m - p;
                assert(a.skip(m - n) =~= b.take(n));
            }
        }
    }
}

/// Whether all texts among the values, at any depth, are of some kind. Keys are
/// not looked at.
pub open spec fn all_texts(value: JsonView, kind: spec_fn(Seq<char>) -> bool) -> bool
    decreases value,
{
    match value {
        JsonView::Str(s) => kind(s),
        JsonView::Array(items) => items_all_texts(items, kind),
        JsonView::Object(members) => members_all_texts(members, kind),
        _ => true,
    }
}

/// Whether all texts of a list's values are of some kind.
pub open spec fn items_all_texts(items: Seq<JsonView>, kind: spec_fn(Seq<char>) -> bool) -> bool
    decreases items,
{
    items.len() == 0 || (items_all_texts(items.subrange(0, items.len() - 1), kind) && all_texts(
        items[items.len() - 1],
        kind,
    ))
}

/// Whether all texts of an object's values are of some kind.
pub open spec fn members_all_texts(
    members: Seq<MemberView>,
    kind: spec_fn(Seq<char>) -> bool,
) -> bool
    decreases members,
{
    members.len() == 0 || (members_all_texts(members.subrange(0, members.len() - 1), kind)
        && all_texts(members[members.len() - 1].value, kind))
}

/// What holds of every redacted text holds of all texts of a redacted value.
proof fn lemma_all_redacted(value: JsonView, secret: Seq<char>, kind: spec_fn(Seq<char>) -> bool)
    requires
        forall|s: Seq<char>| kind(#[trigger] redacted_text(s, secret)),
    ensures
        all_texts(redacted(value, secret), kind),
    decreases value,
{
    match value {
        JsonView::Array(items) => {
            lemma_all_items_redacted(items, secret, kind);
        },
        JsonView::Object(members) => {
            lemma_all_members_redacted(members, secret, kind);
        },
        _ => {},
    }
}

proof fn lemma_all_items_redacted(
    items: Seq<JsonView>,
    secret: Seq<char>,
    kind: spec_fn(Seq<char>) -> bool,
)
    requires
        forall|s: Seq<char>| kind(#[trigger] redacted_text(s, secret)),
    ensures
        items_all_texts(redacted_items(items, secret), kind),
    decreases items,
{
    if items.len() > 0 {
        let rest = items.subrange(0, items.len() - 1);
        lemma_all_items_redacted(rest, secret, kind);
        lemma_all_redacted(items[items.len() - 1], secret, kind);
        let out = redacted_items(items, secret);
        assert(out.subrange(0, out.len() - 1) =~= redacted_items(rest, secret));
    }
}

proof fn lemma_all_members_redacted(
    members: Seq<MemberView>,
    secret: Seq<char>,
    kind: spec_fn(Seq<char>) -> bool,
)
    requires
        forall|s: Seq<char>| kind(#[trigger] redacted_text(s, secret)),
    ensures
        members_all_texts(redacted_members(members, secret), kind),
    decreases members,
{
    if members.len() > 0 {
        let rest = members.subrange(0, members.len() - 1);
        lemma_all_members_redacted(rest, secret, kind);
        lemma_all_redacted(members[members.len() - 1].value, secret, kind);
        let out = redacted_members(members, secret);
        assert(out.subrange(0, out.len() - 1) =~= redacted_members(rest, secret));
    }
}

/// Whatever a redacted record still shows of the secret, at any depth, a mark is
/// part of it: nothing of the secret as it stood is left.
pub proof fn law_redaction_leaves_only_marks(value: JsonView, secret: Seq<char>)
    requires
        secret.len() > 0,
    ensures
        all_texts(redacted(value, secret), |s: Seq<char>| shows_only_at_marks(s, secret)),
{
    assert forall|s: Seq<char>| shows_only_at_marks(#[trigger] redacted_text(s, secret), secret) by {
        lemma_redacted_text_shows_marks(s, secret);
    }
    lemma_all_redacted(value, secret, |s: Seq<char>| shows_only_at_marks(s, secret));
}

/// No value of a redacted record holds the secret, at any depth, as long as the
/// secret cannot overlap the marks that stand in its place.
pub proof fn law_redaction_hides_the_secret(value: JsonView, secret: Seq<char>)
    requires
        secret.len() > 0,
        apart(secret, KEY_MARK@),
        apart(secret, QUERY_MARK@),
    ensures
        all_texts(redacted(value, secret), |s: Seq<char>| !holds_text(s, secret)),
{
    assert forall|s: Seq<char>| !holds_text(#[trigger] redacted_text(s, secret), secret) by {
        let out = redacted_text(s, secret);
        lemma_redacted_text_shows_marks(s, secret);
        if holds_text(out, secret) {
            let at = choose|at: int| occurs_at(out, secret, at);
            lemma_apart(out, secret, KEY_MARK@, at);
            lemma_apart(out, secret, QUERY_MARK@, at);
        }
    }
    lemma_all_redacted(value, secret, |s: Seq<char>| !holds_text(s, secret));
}

/// A redacted URL ends at its query: what follows the first question mark is
/// gone.
pub proof fn law_redaction_drops_queries(s: Seq<char>, secret: Seq<char>)
    requires
        begins_with(replaced(s, secret, KEY_MARK@), "http"@),
        replaced(s, secret, KEY_MARK@).contains('?'),
    ensures
        exists|q: int|
            0 <= q < replaced(s, secret, KEY_MARK@).len() && !(#[trigger] replaced(
                s,
                secret,
                KEY_MARK@,
            ).take(q)).contains('?') && redacted_text(s, secret) == replaced(
                s,
                secret,
                KEY_MARK@,
            ).take(q) + QUERY_MARK@,
{
    let r = replaced(s, secret, KEY_MARK@);
    let k = choose|k: int| 0 <= k < r.len() && r[k] == '?';
    lemma_char_found(r, '?', 0, k);
    lemma_char_at(r, '?', 0);
    let q = char_at(r, '?', 0)->0;
    assert(!r.take(q).contains('?'));
}

proof fn lemma_char_found(s: Seq<char>, c: char, from: int, k: int)
    requires
        0 <= from <= k < s.len(),
        s[k] == c,
    ensures
        char_at(s, c, from) is Some,
    decreases k - from,
{
    if s[from] != c {
        lemma_char_found(s, c, from + 1, k);
    }
}

/// How a response's top-level keys compare with those that are read.
#[derive(Debug)]
pub struct Shape {
    /// Keys that are read and absent.
    pub missing: Vec<String>,
    /// Keys that are present and ignored.
    pub extra: Vec<String>,
}

/// The keys of an object, in order.
pub open spec fn keys(members: Seq<MemberView>) -> Seq<Seq<char>> {
    members.map_values(|m: MemberView| m.key)
}

/// The texts of a list that another does not hold.
pub open spec fn texts_outside(list: Seq<Seq<char>>, other: Seq<Seq<char>>) -> Seq<Seq<char>> {
    list.filter(|t: Seq<char>| !other.contains(t))
}

fn holds(list: &Vec<String>, text: &str) -> (found: bool)
    ensures
        found == views(list@).contains(text@),
{
    let mut i: usize = 0;
    while i < list.len()
        invariant
            i <= list@.len(),
            forall|k: int| 0 <= k < i ==> (#[trigger] views(list@)[k]) != text@,
        decreases list.len() - i,
    {
        if same_text(list[i].as_str(), text) {
            proof {
                assert(views(list@)[i as int] == text@);
            }
            return true;
        }
        i = i + 1;
    }
    false
}

fn outside(list: &Vec<String>, other: &Vec<String>) -> (rest: Vec<String>)
    ensures
        views(rest@) == texts_outside(views(list@), views(other@)),
{
    let ghost all = views(list@);
    let ghost keep = |t: Seq<char>| !views(other@).contains(t);
    let mut rest: Vec<String> = Vec::new();
    let mut i: usize = 0;
    proof {
        reveal(Seq::filter);
        assert(views(rest@) =~= all.take(0).filter(keep));
    }
    while i < list.len()
        invariant
            all == views(list@),
            keep == (|t: Seq<char>| !views(other@).contains(t)),
            i <= list@.len(),
            views(rest@) == all.take(i as int).filter(keep),
        decreases list.len() - i,
    {
        proof {
            reveal(Seq::filter);
            assert(all.take(i + 1).drop_last() =~= all.take(i as int));
        }
        if !holds(other, list[i].as_str()) {
            let item = list[i].clone();
            proof {
                lemma_views_push(rest@, item);
            }
            rest.push(item);
        }
        i = i + 1;
    }
    proof {
        assert(all.take(all.len() as int) =~= all);
    }
    rest
}

/// Which top-level keys does a response have, against those that are read? None
/// where it is no object.
pub fn shape_report(body: &Json, fields_we_read: &Vec<String>) -> (shape: Option<Shape>)
    ensures
        shape is Some <==> body@ is Object,
        shape matches Some(s) ==> {
            &&& views(s.missing@) == texts_outside(views(fields_we_read@), keys(body@->Object_0))
            &&& views(s.extra@) == texts_outside(keys(body@->Object_0), views(fields_we_read@))
        },
{
    let members = match body {
        Json::Object(members) => members,
        _ => {
            return None;
        },
    };
    let ghost all = keys(views(members@));
    let mut present: Vec<String> = Vec::new();
    let mut i: usize = 0;
    proof {
        lemma_members_view(members@);
        assert(views(present@) =~= all.take(0));
    }
    while i < members.len()
        invariant
            all == keys(views(members@)),
            i <= members@.len(),
            views(present@) == all.take(i as int),
        decreases members.len() - i,
    {
        let key = members[i].key.clone();
        proof {
            lemma_views_push(present@, key);
            assert(all.take(i + 1) =~= all.take(i as int).push(key@));
        }
        present.push(key);
        i = i + 1;
    }
    proof {
        assert(all.take(all.len() as int) =~= all);
    }
    let missing = outside(fields_we_read, &present);
    let extra = outside(&present, fields_we_read);
    Some(Shape { missing, extra })
}

/// A response's value; one that is no JSON is kept as raw text.
pub fn response_value(text: &str, parsed: Result<Json, String>) -> (value: Json)
    ensures
        value@ == (match parsed {
            Ok(v) => v@,
            Err(_) => JsonView::Object(seq![member("raw"@, JsonView::Str(text@))]),
        }),
{
    match parsed {
        Ok(v) => v,
        Err(_) => {
            let members = vec![Member::new("raw", Json::str(text))];
            proof {
                assert(views(members@) =~= seq![member("raw"@, JsonView::Str(text@))]);
            }
            Json::object(members)
        },
    }
}

/// One exchange as it is recorded.
pub open spec fn exchange(path: Seq<char>, body: JsonView, status: u16, value: JsonView) -> JsonView {
    JsonView::Object(
        seq![
            member(
                "request"@,
                JsonView::Object(
                    seq![
                        member("method"@, JsonView::Str("POST"@)),
                        member("path"@, JsonView::Str(path)),
                        member("body"@, body),
                    ],
                ),
            ),
            member(
                "response"@,
                JsonView::Object(
                    seq![member("status"@, JsonView::Int(status as i64)), member("body"@, value)],
                ),
            ),
        ],
    )
}

/// The record of one exchange, redacted.
pub fn fixture(path: &str, body: &Json, status: u16, value: &Json, secret: &str) -> (record: Json)
    ensures
        record@ == redacted(exchange(path@, body@, status, value@), secret@),
{
    let request = vec![
        Member::new("method", Json::str("POST")),
        Member::new("path", Json::str(path)),
        Member::new("body", body.clone()),
    ];
    let response = vec![
        Member::new("status", Json::Int(status as i64)),
        Member::new("body", value.clone()),
    ];
    proof {
        assert(views(request@) =~= seq![
            member("method"@, JsonView::Str("POST"@)),
            member("path"@, JsonView::Str(path@)),
            member("body"@, body@),
        ]);
        assert(views(response@) =~= seq![
            member("status"@, JsonView::Int(status as i64)),
            member("body"@, value@),
        ]);
    }
    let both = vec![
        Member::new("request", Json::object(request)),
        Member::new("response", Json::object(response)),
    ];
    proof {
        assert(JsonView::Object(views(both@)) == exchange(path@, body@, status, value@)) by {
            assert(views(both@) =~= exchange(path@, body@, status, value@)->Object_0);
        }
    }
    let whole = Json::object(both);
    redact(&whole, secret)
}

/// A number with at least two digits.
pub open spec fn two_digits(n: nat) -> Seq<char> {
    if n < 10 {
        "0"@ + decimal(n)
    } else {
        decimal(n)
    }
}

/// Where the record of a step is kept.
pub fn fixture_file(step: u32, name: &str) -> (path: String)
    ensures
        path@ == FIXTURE_DIR@ + "/"@ + two_digits(step as nat) + "-"@ + name@ + ".json"@,
{
    let mut number = if step < 10 {
        String::from_str("0")
    } else {
        String::new()
    };
    push_decimal(&mut number, step as u64);
    proof {
        assert(number@ =~= two_digits(step as nat));
    }
    let mut path = String::from_str(FIXTURE_DIR);
    path.append("/");
    path.append(number.as_str());
    path.append("-");
    path.append(name);
    path.append(".json");
    path
}

/// Whether a feature is there after its creation was answered: it was created,
/// or it was there before.
pub fn feature_exists(status: u16) -> (yes: bool)
    ensures
        yes == (200 <= status < 300 || status == 409),
{
    (200 <= status && status < 300) || status == 409
}

/// Redaction keeps the structure: each item of a list and each member of an
/// object stays at its place, under its key, redacted by itself; whatever is no
/// text, list or object stays as it is.
pub proof fn law_redaction_keeps_the_structure(
    items: Seq<JsonView>,
    members: Seq<MemberView>,
    value: JsonView,
    secret: Seq<char>,
    i: int,
)
    ensures
        redacted(JsonView::Array(items), secret) matches JsonView::Array(out) && out.len()
            == items.len() && (0 <= i < items.len() ==> out[i] == redacted(items[i], secret)),
        redacted(JsonView::Object(members), secret) matches JsonView::Object(out) && out.len()
            == members.len() && (0 <= i < members.len() ==> out[i].key == members[i].key
            && out[i].value == redacted(members[i].value, secret)),
        !(value is Str || value is Array || value is Object) ==> redacted(value, secret) == value,
{
    lemma_redacted_items(items, secret, i);
    lemma_redacted_members(members, secret, i);
}

proof fn lemma_redacted_items(items: Seq<JsonView>, secret: Seq<char>, i: int)
    ensures
        redacted_items(items, secret).len() == items.len(),
        0 <= i < items.len() ==> redacted_items(items, secret)[i] == redacted(items[i], secret),
    decreases items.len(),
{
    if items.len() > 0 {
        lemma_redacted_items(items.subrange(0, items.len() - 1), secret, i);
    }
}

proof fn lemma_redacted_members(members: Seq<MemberView>, secret: Seq<char>, i: int)
    ensures
        redacted_members(members, secret).len() == members.len(),
        0 <= i < members.len() ==> redacted_members(members, secret)[i] == (MemberView {
            key: members[i].key,
            value: redacted(members[i].value, secret),
        }),
    decreases members.len(),
{
    if members.len() > 0 {
        lemma_redacted_members(members.subrange(0, members.len() - 1), secret, i);
    }
}

/// A text without the secret that is no URL with a query stays as it is; one
/// with the secret, and no URL, has a mark in its place and everything around it.
pub proof fn law_redaction_leaves_other_texts(
    s: Seq<char>,
    secret: Seq<char>,
    before: Seq<char>,
    after: Seq<char>,
)
    requires
        secret.len() > 0,
    ensures
        !holds_text(s, secret) && !(begins_with(s, "http"@) && s.contains('?')) ==> redacted(
            JsonView::Str(s),
            secret,
        ) == JsonView::Str(s),
        !holds_text(s, secret) && begins_with(s, "http"@) && s.contains('?') ==> exists|q: int|
            0 <= q < s.len() && s[q] == '?' && !(#[trigger] s.take(q)).contains('?') && redacted(
                JsonView::Str(s),
                secret,
            ) == JsonView::Str(s.take(q) + "?[REDACTED_QUERY]"@),
        (forall|k: int|
            0 <= k < before.len() ==> !#[trigger] occurs_at(before + secret + after, secret, k))
            && !holds_text(after, secret) && !begins_with(
            before + "[REDACTED_KEY]"@ + after,
            "http"@,
        ) ==> redacted(JsonView::Str(before + secret + after), secret) == JsonView::Str(
            before + "[REDACTED_KEY]"@ + after,
        ),
{
    if !holds_text(s, secret) {
        law_replacing_goes_from_left_to_right(s, secret, KEY_MARK@, 0);
        if begins_with(s, "http"@) {
            lemma_char_at(s, '?', 0);
            if s.contains('?') {
                let k = choose|k: int| 0 <= k < s.len() && s[k] == '?';
                lemma_char_found(s, '?', 0, k);
                let q = char_at(s, '?', 0)->0;
                assert(!s.take(q).contains('?'));
            } else if char_at(s, '?', 0) is Some {
                assert(s[char_at(s, '?', 0)->0] == '?');
            }
        }
    }
    let whole = before + secret + after;
    if (forall|k: int| 0 <= k < before.len() ==> !#[trigger] occurs_at(whole, secret, k))
        && !holds_text(after, secret) && !begins_with(
        before + "[REDACTED_KEY]"@ + after,
        "http"@,
    ) {
        let at = before.len() as int;
        assert(whole.subrange(at, at + secret.len()) =~= secret);
        assert(occurs_at(whole, secret, at));
        law_replacing_goes_from_left_to_right(whole, secret, KEY_MARK@, at);
        assert(whole.take(at) =~= before);
        assert(whole.skip(at + secret.len()) =~= after);
        law_replacing_goes_from_left_to_right(after, secret, KEY_MARK@, 0);
    }
}

/// A key is reported as missing exactly if it is read and not there, and as extra
/// exactly if it is there and not read.
pub proof fn law_shapes_tell_missing_from_extra(
    list: Seq<Seq<char>>,
    other: Seq<Seq<char>>,
    key: Seq<char>,
)
    ensures
        texts_outside(list, other).contains(key) <==> list.contains(key) && !other.contains(key),
{
    let keep = |t: Seq<char>| !other.contains(t);
    let out = list.filter(keep);
    if out.contains(key) {
        list.lemma_filter_contains_rev(keep, key);
        let k = choose|k: int| 0 <= k < out.len() && out[k] == key;
        list.lemma_filter_pred(keep, k);
    }
    if list.contains(key) && !other.contains(key) {
        let k = choose|k: int| 0 <= k < list.len() && list[k] == key;
        list.lemma_filter_contains(keep, k);
    }
}

/// A record holds the request and the response of its exchange: the method, the
/// path and the body that were sent, the status and the body that came back.
pub proof fn law_a_record_holds_its_exchange(
    path: Seq<char>,
    body: JsonView,
    status: u16,
    value: JsonView,
)
    ensures
        ({
            let record = exchange(path, body, status, value);
            &&& json_get(record, "request"@) is Some
            &&& json_get(record, "response"@) is Some
            &&& text_at(json_get(record, "request"@)->0, "method"@) == Some("POST"@)
            &&& text_at(json_get(record, "request"@)->0, "path"@) == Some(path)
            &&& json_get(json_get(record, "request"@)->0, "body"@) == Some(body)
            &&& int_at(json_get(record, "response"@)->0, "status"@) == Some(status as i64)
            &&& json_get(json_get(record, "response"@)->0, "body"@) == Some(value)
        }),
{
    let record = exchange(path, body, status, value);
    reveal_strlit("request");
    reveal_strlit("response");
    reveal_strlit("method");
    reveal_strlit("path");
    reveal_strlit("body");
    reveal_strlit("status");
    assert("request"@.len() == 7 && "response"@.len() == 8);
    assert("method"@.len() == 6 && "path"@.len() == 4 && "body"@.len() == 4);
    assert("path"@[0] == 'p' && "body"@[0] == 'b' && "status"@.len() == 6);
    let both = record->Object_0;
    law_a_key_is_read_from_its_first_member(both, "request"@, 0);
    law_a_key_is_read_from_its_first_member(both, "response"@, 1);
    let request = both[0].value->Object_0;
    law_a_key_is_read_from_its_first_member(request, "method"@, 0);
    law_a_key_is_read_from_its_first_member(request, "path"@, 1);
    law_a_key_is_read_from_its_first_member(request, "body"@, 2);
    let response = both[1].value->Object_0;
    law_a_key_is_read_from_its_first_member(response, "status"@, 0);
    law_a_key_is_read_from_its_first_member(response, "body"@, 1);
}

/// A step's number has two digits at least, and they read as that number.
pub proof fn law_step_numbers_have_two_digits(n: nat)
    ensures
        two_digits(n).len() >= 2,
        digits_value(two_digits(n)) == n,
        n >= 10 ==> two_digits(n) == decimal(n),
{
    lemma_decimal_value(n);
    reveal_strlit("0");
    if n < 10 {
        let text = two_digits(n);
        assert(decimal(n).len() == 1);
        assert(text.drop_last() =~= "0"@);
        assert("0"@.drop_last() =~= Seq::<char>::empty());
        reveal_with_fuel(digits_value, 3);
        assert(decimal(n).drop_last() =~= Seq::<char>::empty());
    } else {
        assert(decimal(n / 10).len() > 0);
    }
}

} // verus!
