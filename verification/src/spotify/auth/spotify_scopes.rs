//! The permissions that the application asks of a Spotify user, in sorted
//! order, and the text that lists them.
use vstd::prelude::*;
use vstd::relations::{sorted_by, total_ordering};

verus! {

broadcast use vstd::seq_lib::group_to_multiset_ensures;

/// Strict lexicographic order of texts by code point (the order of their
/// UTF-8 bytes, which is how `String` compares).
pub open spec fn text_lt(a: Seq<char>, b: Seq<char>) -> bool
    decreases a.len(),
{
    if a.len() == 0 {
        b.len() > 0
    } else if b.len() == 0 {
        false
    } else if (a[0] as u32) < (b[0] as u32) {
        true
    } else if a[0] == b[0] {
        text_lt(a.drop_first(), b.drop_first())
    } else {
        false
    }
}

/// Lexicographic order of texts, equal texts included.
pub open spec fn text_le(a: Seq<char>, b: Seq<char>) -> bool {
    a == b || text_lt(a, b)
}

/// The texts of a list of strings.
pub open spec fn texts(v: Seq<String>) -> Seq<Seq<char>> {
    v.map_values(|s: String| s@)
}

/// Lexicographic order of texts, as a relation.
pub open spec fn text_order() -> spec_fn(Seq<char>, Seq<char>) -> bool {
    |a: Seq<char>, b: Seq<char>| text_le(a, b)
}

/// Texts in lexicographic order.
pub open spec fn texts_sorted(s: Seq<Seq<char>>) -> bool {
    sorted_by(s, text_order())
}

proof fn lemma_text_lt_irreflexive(a: Seq<char>)
    ensures
        !text_lt(a, a),
    decreases a.len(),
{
    if a.len() > 0 {
        lemma_text_lt_irreflexive(a.drop_first());
    }
}

proof fn lemma_text_lt_asymmetric(a: Seq<char>, b: Seq<char>)
    requires
        text_lt(a, b),
    ensures
        !text_lt(b, a),
    decreases a.len(),
{
    if a.len() > 0 && b.len() > 0 && a[0] == b[0] {
        lemma_text_lt_asymmetric(a.drop_first(), b.drop_first());
    }
}

proof fn lemma_text_lt_transitive(a: Seq<char>, b: Seq<char>, c: Seq<char>)
    requires
        text_lt(a, b),
        text_lt(b, c),
    ensures
        text_lt(a, c),
    decreases a.len(),
{
    if a.len() > 0 && a[0] == b[0] && b[0] == c[0] {
        lemma_text_lt_transitive(a.drop_first(), b.drop_first(), c.drop_first());
    }
}

proof fn lemma_text_lt_total(a: Seq<char>, b: Seq<char>)
    ensures
        a == b || text_lt(a, b) || text_lt(b, a),
    decreases a.len(),
{
    if a.len() > 0 && b.len() > 0 && a[0] == b[0] {
        lemma_text_lt_total(a.drop_first(), b.drop_first());
        if a.drop_first() == b.drop_first() {
            assert(a =~= seq![a[0]] + a.drop_first());
            assert(b =~= seq![b[0]] + b.drop_first());
        }
    } else if a.len() == 0 && b.len() == 0 {
        assert(a =~= b);
    } else if a.len() > 0 && b.len() > 0 {
        vstd::utf8::char_u32_cast(a[0], a[0] as u32);
        vstd::utf8::char_u32_cast(b[0], b[0] as u32);
    }
}

/// Law: lexicographic order is a total order on texts.
pub proof fn law_text_le_total_ordering()
    ensures
        total_ordering(text_order()),
{
    let le = text_order();
    assert forall|a: Seq<char>| #[trigger] le(a, a) by {}
    assert forall|a: Seq<char>, b: Seq<char>| #[trigger] le(a, b) && #[trigger] le(b, a) implies a
        == b by {
        if a != b {
            lemma_text_lt_asymmetric(a, b);
        }
    }
    assert forall|a: Seq<char>, b: Seq<char>, c: Seq<char>| #[trigger] le(a, b) && #[trigger] le(
        b,
        c,
    ) implies le(a, c) by {
        if a != b && b != c {
            lemma_text_lt_transitive(a, b, c);
        }
    }
    assert forall|a: Seq<char>, b: Seq<char>| #[trigger] le(a, b) || #[trigger] le(b, a) by {
        lemma_text_lt_total(a, b);
    }
}

/// Whether `a` comes strictly before `b` in lexicographic order.
pub fn text_less(a: &str, b: &str) -> (r: bool)
    ensures
        r == text_lt(a@, b@),
{
    let n = a.unicode_len();
    let m = b.unicode_len();
    let mut i: usize = 0;
    proof {
        assert(a@.skip(0) =~= a@);
        assert(b@.skip(0) =~= b@);
    }
    while i < n && i < m
        invariant
            n == a@.len(),
            m == b@.len(),
            0 <= i <= n,
            i <= m,
            text_lt(a@, b@) == text_lt(a@.skip(i as int), b@.skip(i as int)),
        decreases n - i,
    {
        let ca = a.get_char(i);
        let cb = b.get_char(i);
        if ca != cb {
            proof {
                assert(a@.skip(i as int)[0] == ca);
                assert(b@.skip(i as int)[0] == cb);
            }
            return (ca as u32) < (cb as u32);
        }
        proof {
            assert(a@.skip(i as int).drop_first() =~= a@.skip(i + 1));
            assert(b@.skip(i as int).drop_first() =~= b@.skip(i + 1));
        }
        i = i + 1;
    }
    i < m
}

/// Sorts `vector` in lexicographic order and returns a copy of it.
pub fn sort_vector(vector: &mut Vec<String>) -> (r: Vec<String>)
    ensures
        texts_sorted(texts(final(vector)@)),
        texts(final(vector)@).to_multiset() == texts(old(vector)@).to_multiset(),
        texts(r@) == texts(final(vector)@),
{
    let mut sorted: Vec<String> = Vec::new();
    let n = vector.len();
    let mut i: usize = 0;
    proof {
        assert(texts(sorted@) =~= texts(vector@.take(0)));
    }
    while i < n
        invariant
            n == vector.len(),
            0 <= i <= n,
            texts_sorted(texts(sorted@)),
            texts(sorted@).to_multiset() == texts(vector@.take(i as int)).to_multiset(),
        decreases n - i,
    {
        let s = vector[i].clone();
        let mut p: usize = 0;
        let len = sorted.len();
        while p < len && !text_less(s.as_str(), sorted[p].as_str())
            invariant
                len == sorted.len(),
                0 <= p <= len,
                forall|j: int| 0 <= j < p ==> !text_lt(s@, #[trigger] sorted@[j]@),
            decreases len - p,
        {
            p = p + 1;
        }
        let ghost before = texts(sorted@);
        let ghost old_sorted = sorted@;
        proof {
            assert forall|j: int| 0 <= j < p implies !text_lt(s@, #[trigger] before[j]) by {
                assert(before[j] == old_sorted[j]@);
            }
        }
        sorted.insert(p, s);
        proof {
            let after = texts(sorted@);
            assert(after =~= before.insert(p as int, s@));
            law_text_le_total_ordering();
            assert forall|a: int, b: int| 0 <= a < b < after.len() implies #[trigger] text_order()(
                after[a],
                after[b],
            ) by {
                if b < p {
                    assert(after[a] == before[a] && after[b] == before[b]);
                    assert(text_order()(before[a], before[b]));
                } else if b == p {
                    assert(after[a] == before[a] && after[b] == s@);
                    assert(!text_lt(s@, before[a]));
                    lemma_text_lt_total(before[a], s@);
                } else if a < p {
                    assert(after[a] == before[a] && after[b] == before[b - 1]);
                    assert(!text_lt(s@, before[a]));
                    lemma_text_lt_total(before[a], s@);
                    assert(text_order()(before[a], s@));
                    assert(text_lt(s@, before[p as int]));
                    assert(text_order()(s@, before[p as int]));
                    if p as int != b - 1 {
                        assert(text_order()(before[p as int], before[b - 1]));
                    }
                } else if a == p {
                    assert(after[a] == s@ && after[b] == before[b - 1]);
                    assert(text_lt(s@, before[p as int]));
                    assert(text_order()(s@, before[p as int]));
                    if p as int != b - 1 {
                        assert(text_order()(before[p as int], before[b - 1]));
                    }
                } else {
                    assert(after[a] == before[a - 1] && after[b] == before[b - 1]);
                    assert(text_order()(before[a - 1], before[b - 1]));
                }
            }
            assert(texts(vector@.take(i + 1)) =~= texts(vector@.take(i as int)).push(s@));
            vstd::seq_lib::to_multiset_insert(before, p as int, s@);
        }
        i = i + 1;
    }
    proof {
        assert(vector@.take(n as int) =~= vector@);
    }
    *vector = sorted;
    let mut r: Vec<String> = Vec::new();
    let mut k: usize = 0;
    while k < vector.len()
        invariant
            0 <= k <= vector.len(),
            texts(r@) =~= texts(vector@.take(k as int)),
        decreases vector.len() - k,
    {
        r.push(vector[k].clone());
        proof {
            assert(texts(vector@.take(k + 1)) =~= texts(vector@.take(k as int)).push(vector@[k as int]@));
        }
        k = k + 1;
    }
    proof {
        assert(vector@.take(vector.len() as int) =~= vector@);
    }
    r
}

/// The permissions that the application asks for, as listed.
pub open spec fn scope_names() -> Seq<Seq<char>> {
    seq![
        "user-read-recently-played"@,
        "user-top-read"@,
        "user-read-currently-playing"@,
        "user-read-email"@,
        "user-read-birthdate"@,
        "user-read-private"@,
        "user-library-read"@,
        "playlist-read-collaborative"@,
        "playlist-read-private"@,
        "playlist-modify-private"@,
        "playlist-modify-public"@,
    ]
}

/// The permissions in lexicographic order: the one sorted list of them.
pub closed spec fn sorted_scope_names() -> Seq<Seq<char>> {
    choose|s: Seq<Seq<char>>| texts_sorted(s) && s.to_multiset() == scope_names().to_multiset()
}

/// Texts joined by `sep`.
pub open spec fn join_texts(list: Seq<Seq<char>>, sep: Seq<char>) -> Seq<char>
    decreases list.len(),
{
    if list.len() == 0 {
        Seq::empty()
    } else if list.len() == 1 {
        list[0]
    } else {
        join_texts(list.drop_last(), sep) + sep + list.last()
    }
}

/// The permissions, sorted, separated by spaces: the `scope` parameter of
/// the authorization request.
pub open spec fn scopes_text() -> Seq<char> {
    join_texts(sorted_scope_names(), " "@)
}

/// The strings of `list` joined by `sep`.
pub fn join_strings(list: &Vec<String>, sep: &str) -> (r: String)
    ensures
        r@ == join_texts(texts(list@), sep@),
{
    let mut r = String::new();
    let mut i: usize = 0;
    while i < list.len()
        invariant
            0 <= i <= list.len(),
            r@ == join_texts(texts(list@.take(i as int)), sep@),
        decreases list.len() - i,
    {
        let ghost prefix = texts(list@.take(i as int));
        if i > 0 {
            r.append(sep);
        }
        r.append(list[i].as_str());
        proof {
            let next = texts(list@.take(i + 1));
            assert(next.drop_last() =~= prefix);
            assert(next.last() == list@[i as int]@);
            if i == 0 {
                assert(prefix =~= Seq::<Seq<char>>::empty());
            }
        }
        i = i + 1;
    }
    proof {
        assert(list@.take(list.len() as int) =~= list@);
    }
    r
}

/// The permissions that the application asks for, in lexicographic order.
pub fn spotify_scopes() -> (r: Vec<String>)
    ensures
        texts(r@) == sorted_scope_names(),
        texts_sorted(texts(r@)),
        texts(r@).to_multiset() == scope_names().to_multiset(),
{
    let mut names: Vec<String> = Vec::new();
    names.push(String::from_str("user-read-recently-played"));
    names.push(String::from_str("user-top-read"));
    names.push(String::from_str("user-read-currently-playing"));
    names.push(String::from_str("user-read-email"));
    names.push(String::from_str("user-read-birthdate"));
    names.push(String::from_str("user-read-private"));
    names.push(String::from_str("user-library-read"));
    names.push(String::from_str("playlist-read-collaborative"));
    names.push(String::from_str("playlist-read-private"));
    names.push(String::from_str("playlist-modify-private"));
    names.push(String::from_str("playlist-modify-public"));
    proof {
        assert(texts(names@) =~= scope_names());
    }
    let r = sort_vector(&mut names);
    proof {
        let s = texts(r@);
        assert(texts_sorted(s) && s.to_multiset() == scope_names().to_multiset());
        let c = sorted_scope_names();
        assert(texts_sorted(c) && c.to_multiset() == scope_names().to_multiset());
        law_text_le_total_ordering();
        vstd::seq_lib::lemma_sorted_unique(s, c, text_order());
    }
    r
}

/// The permissions, sorted and separated by spaces.
pub fn get_scopes() -> (r: String)
    ensures
        r@ == scopes_text(),
{
    let scopes = spotify_scopes();
    proof {
        reveal_strlit(" ");
    }
    join_strings(&scopes, " ")
}

/// Whether the permissions that a user granted are the ones asked for now;
/// they always are.
pub fn are_scopes_current() -> (r: bool)
    ensures
        r,
{
    true
}

} // verus!
