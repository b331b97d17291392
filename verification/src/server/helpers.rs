//! Reading the query of a request, and the media type of a file.
use crate::encoding::{
    lemma_decode_encode_all_bytes, lemma_encode_all_text, percent_decode_exec,
    percent_decoded_text, percent_decodes_to_text, percent_encode_all, push_char, str_equal,
};
use crate::spotify::auth::spotify_scopes::texts;
use vstd::prelude::*;
use vstd::utf8::encode_utf8;

verus! {

/// The pieces of `s` between the occurrences of `sep`, as `str::split`
/// gives them: an empty text gives one empty piece.
pub open spec fn split_text(s: Seq<char>, sep: char) -> Seq<Seq<char>>
    decreases s.len(),
{
    if s.len() == 0 {
        seq![Seq::empty()]
    } else {
        let init = split_text(s.drop_last(), sep);
        if s.last() == sep {
            init.push(Seq::empty())
        } else {
            init.update(init.len() - 1, init.last().push(s.last()))
        }
    }
}

/// Splitting gives at least one piece.
pub proof fn lemma_split_text_nonempty(s: Seq<char>, sep: char)
    ensures
        split_text(s, sep).len() >= 1,
    decreases s.len(),
{
    if s.len() > 0 {
        lemma_split_text_nonempty(s.drop_last(), sep);
    }
}

/// The pieces of `s` between the occurrences of `sep`.
pub fn split_by(s: &str, sep: char) -> (r: Vec<String>)
    ensures
        texts(r@) == split_text(s@, sep),
        r@.len() >= 1,
{
    let n = s.unicode_len();
    let mut pieces: Vec<String> = Vec::new();
    let mut current = String::new();
    let mut i: usize = 0;
    proof {
        assert(s@.take(0) =~= Seq::<char>::empty());
        assert(texts(pieces@).push(current@) =~= split_text(s@.take(0), sep));
    }
    while i < n
        invariant
            n == s@.len(),
            0 <= i <= n,
            texts(pieces@).push(current@) == split_text(s@.take(i as int), sep),
        decreases n - i,
    {
        let c = s.get_char(i);
        let ghost before = texts(pieces@).push(current@);
        proof {
            assert(s@.take(i + 1).drop_last() =~= s@.take(i as int));
            assert(s@.take(i + 1).last() == c);
        }
        if c == sep {
            pieces.push(current);
            current = String::new();
            proof {
                assert(texts(pieces@).push(current@) =~= before.push(Seq::empty()));
            }
        } else {
            push_char(&mut current, c);
            proof {
                assert(texts(pieces@).push(current@) =~= before.update(
                    before.len() - 1,
                    before.last().push(c),
                ));
            }
        }
        i = i + 1;
    }
    pieces.push(current);
    proof {
        assert(s@.take(n as int) =~= s@);
    }
    pieces
}

/// The texts of an optional string.
pub open spec fn opt_text(o: Option<String>) -> Option<Seq<char>> {
    match o {
        Some(s) => Some(s@),
        None => None,
    }
}

/// The name of a query part `name=value`: the text before the first `=`.
pub open spec fn query_key(part: Seq<char>) -> Seq<char> {
    split_text(part, '=')[0]
}

/// The raw value of a query part: the text between the first `=` and the
/// next one, if there is an `=`.
pub open spec fn query_raw_value(part: Seq<char>) -> Option<Seq<char>> {
    let pieces = split_text(part, '=');
    if pieces.len() > 1 {
        Some(pieces[1])
    } else {
        None
    }
}

/// Whether the value of a query part, if any, percent-decodes to text.
pub open spec fn part_decodes(part: Seq<char>) -> bool {
    match query_raw_value(part) {
        Some(v) => percent_decodes_to_text(v),
        None => true,
    }
}

/// The value of a query part, percent-decoded.
pub open spec fn query_value(part: Seq<char>) -> Option<Seq<char>> {
    match query_raw_value(part) {
        Some(v) => Some(percent_decoded_text(v)),
        None => None,
    }
}

/// The parts of a query, between the `&`.
pub open spec fn query_parts(query: Seq<char>) -> Seq<Seq<char>> {
    split_text(query, '&')
}

/// Whether every value in `query` percent-decodes to text.
pub open spec fn query_decodes(query: Seq<char>) -> bool {
    forall|i: int| 0 <= i < query_parts(query).len() ==> part_decodes(#[trigger] query_parts(query)[i])
}

/// The names and values of query parts, a later part replacing an earlier
/// one of the same name.
pub open spec fn parts_map(parts: Seq<Seq<char>>) -> Map<Seq<char>, Option<Seq<char>>>
    decreases parts.len(),
{
    if parts.len() == 0 {
        Map::empty()
    } else {
        parts_map(parts.drop_last()).insert(query_key(parts.last()), query_value(parts.last()))
    }
}

/// The names and values of a query.
pub open spec fn query_map(query: Seq<char>) -> Map<Seq<char>, Option<Seq<char>>> {
    parts_map(query_parts(query))
}

/// A text without the separator is a single piece.
pub proof fn lemma_split_without_separator(t: Seq<char>, sep: char)
    requires
        !t.contains(sep),
    ensures
        split_text(t, sep) == seq![t],
    decreases t.len(),
{
    if t.len() > 0 {
        assert(!t.drop_last().contains(sep)) by {
            if t.drop_last().contains(sep) {
                let i = choose|i: int| 0 <= i < t.len() - 1 && t.drop_last()[i] == sep;
                assert(t[i] == sep);
            }
        }
        lemma_split_without_separator(t.drop_last(), sep);
        assert(t.last() != sep);
        assert(t.drop_last().push(t.last()) =~= t);
        assert(split_text(t, sep) =~= seq![t]);
    } else {
        assert(t =~= Seq::<char>::empty());
    }
}

/// After the last separator, the text up to the end is the last piece.
pub proof fn lemma_split_after_separator(prefix: Seq<char>, t: Seq<char>, sep: char)
    requires
        !t.contains(sep),
    ensures
        split_text(prefix + seq![sep] + t, sep) == split_text(prefix, sep).push(t),
    decreases t.len(),
{
    lemma_split_text_nonempty(prefix, sep);
    if t.len() == 0 {
        assert(prefix + seq![sep] + t =~= prefix.push(sep));
        assert((prefix + seq![sep] + t).drop_last() =~= prefix);
        assert(t =~= Seq::<char>::empty());
    } else {
        let t0 = t.drop_last();
        assert(!t0.contains(sep)) by {
            if t0.contains(sep) {
                let i = choose|i: int| 0 <= i < t0.len() && t0[i] == sep;
                assert(t[i] == sep);
            }
        }
        lemma_split_after_separator(prefix, t0, sep);
        let whole = prefix + seq![sep] + t;
        assert(whole.drop_last() =~= prefix + seq![sep] + t0);
        assert(whole.last() == t.last());
        assert(t.last() != sep);
        assert(t0.push(t.last()) =~= t);
        assert(split_text(whole, sep) =~= split_text(prefix, sep).push(t));
    }
}

/// Law: a value is percent-decoded exactly once. For any name `k` without
/// `=` and any text `v`, the part `k=` followed by `v` with every byte
/// percent-encoded is read as the name `k` with the value `v` itself (so
/// `%2520` reads as `%20`, and `%25C3` as `%C3`), and it is accepted.
pub proof fn law_value_decoded_once(k: Seq<char>, v: Seq<char>)
    requires
        !k.contains('='),
    ensures
        ({
            let part = k + seq!['='] + percent_encode_all(v);
            &&& query_key(part) == k
            &&& query_raw_value(part) == Some(percent_encode_all(v))
            &&& part_decodes(part)
            &&& query_value(part) == Some(v)
        }),
{
    let enc = percent_encode_all(v);
    lemma_encode_all_text(v);
    lemma_split_without_separator(k, '=');
    lemma_split_after_separator(k, enc, '=');
    let part = k + seq!['='] + enc;
    assert(split_text(part, '=') =~= seq![k, enc]);
    lemma_decode_encode_all_bytes(encode_utf8(v));
    vstd::utf8::encode_utf8_valid_utf8(v);
    vstd::utf8::encode_utf8_decode_utf8(v);
}

/// Law: the names that a query holds are exactly the names of its parts.
pub proof fn law_query_names(parts: Seq<Seq<char>>, k: Seq<char>)
    ensures
        parts_map(parts).contains_key(k) <==> exists|i: int|
            0 <= i < parts.len() && #[trigger] query_key(parts[i]) == k,
    decreases parts.len(),
{
    if parts.len() > 0 {
        law_query_names(parts.drop_last(), k);
        if exists|i: int| 0 <= i < parts.len() && #[trigger] query_key(parts[i]) == k {
            let i = choose|i: int| 0 <= i < parts.len() && #[trigger] query_key(parts[i]) == k;
            if i < parts.len() - 1 {
                assert(query_key(parts.drop_last()[i]) == k);
            }
        }
        if exists|i: int| 0 <= i < parts.len() - 1 && #[trigger] query_key(parts.drop_last()[i]) == k {
            let i = choose|i: int|
                0 <= i < parts.len() - 1 && #[trigger] query_key(parts.drop_last()[i]) == k;
            assert(query_key(parts[i]) == k);
        }
    }
}

/// Law: the value of a name is that of the last part with that name; a
/// later part replaces an earlier one.
pub proof fn law_last_part_wins(parts: Seq<Seq<char>>, i: int)
    requires
        0 <= i < parts.len(),
        forall|j: int| i < j < parts.len() ==> #[trigger] query_key(parts[j]) != query_key(parts[i]),
    ensures
        parts_map(parts).contains_key(query_key(parts[i])),
        parts_map(parts)[query_key(parts[i])] == query_value(parts[i]),
    decreases parts.len(),
{
    if i < parts.len() - 1 {
        law_last_part_wins(parts.drop_last(), i);
        assert(parts.drop_last()[i] == parts[i]);
        assert(query_key(parts[parts.len() - 1]) != query_key(parts[i]));
    }
}

/// A list of names and values in which no name occurs twice.
pub open spec fn keys_distinct(v: Seq<(String, Option<String>)>) -> bool {
    forall|i: int, j: int| 0 <= i < j < v.len() ==> v[i].0@ != v[j].0@
}

/// The map that a list of names and values stands for.
pub open spec fn entries_map(v: Seq<(String, Option<String>)>) -> Map<Seq<char>, Option<Seq<char>>>
    decreases v.len(),
{
    if v.len() == 0 {
        Map::empty()
    } else {
        entries_map(v.drop_last()).insert(v.last().0@, opt_text(v.last().1))
    }
}

proof fn lemma_entries_map_contains(v: Seq<(String, Option<String>)>, k: Seq<char>)
    ensures
        entries_map(v).contains_key(k) <==> exists|i: int| 0 <= i < v.len() && v[i].0@ == k,
    decreases v.len(),
{
    if v.len() > 0 {
        lemma_entries_map_contains(v.drop_last(), k);
        if exists|i: int| 0 <= i < v.len() && v[i].0@ == k {
            let i = choose|i: int| 0 <= i < v.len() && v[i].0@ == k;
            if i < v.len() - 1 {
                assert(v.drop_last()[i].0@ == k);
            }
        }
        if exists|i: int| 0 <= i < v.len() - 1 && v.drop_last()[i].0@ == k {
            let i = choose|i: int| 0 <= i < v.len() - 1 && v.drop_last()[i].0@ == k;
            assert(v[i].0@ == k);
        }
    }
}

proof fn lemma_entries_map_index(v: Seq<(String, Option<String>)>, i: int)
    requires
        keys_distinct(v),
        0 <= i < v.len(),
    ensures
        entries_map(v).contains_key(v[i].0@),
        entries_map(v)[v[i].0@] == opt_text(v[i].1),
    decreases v.len(),
{
    if i < v.len() - 1 {
        lemma_entries_map_index(v.drop_last(), i);
        assert(v.drop_last()[i] == v[i]);
    }
}

proof fn lemma_entries_map_update(v: Seq<(String, Option<String>)>, j: int, e: (String, Option<String>))
    requires
        keys_distinct(v),
        0 <= j < v.len(),
        v[j].0@ == e.0@,
    ensures
        keys_distinct(v.update(j, e)),
        entries_map(v.update(j, e)) == entries_map(v).insert(e.0@, opt_text(e.1)),
    decreases v.len(),
{
    let w = v.update(j, e);
    if j == v.len() - 1 {
        assert(w.drop_last() =~= v.drop_last());
        assert(entries_map(w) =~= entries_map(v).insert(e.0@, opt_text(e.1)));
    } else {
        assert(w.drop_last() =~= v.drop_last().update(j, e));
        lemma_entries_map_update(v.drop_last(), j, e);
        assert(v.last().0@ != e.0@);
        assert(entries_map(w) =~= entries_map(v).insert(e.0@, opt_text(e.1)));
    }
}

/// The position of `key` in a list of names and values, if it is there.
fn find_key(entries: &Vec<(String, Option<String>)>, key: &String) -> (r: Option<usize>)
    ensures
        r matches Some(j) ==> j < entries@.len() && entries@[j as int].0@ == key@,
        r is None ==> forall|k: int| 0 <= k < entries@.len() ==> entries@[k].0@ != key@,
{
    let mut j: usize = 0;
    while j < entries.len()
        invariant
            0 <= j <= entries.len(),
            forall|k: int| 0 <= k < j ==> entries@[k].0@ != key@,
        decreases entries.len() - j,
    {
        if entries[j].0 == *key {
            return Some(j);
        }
        j = j + 1;
    }
    None
}

/// The parts of `query` put into a list of names and values, a later part
/// replacing the value of an earlier one with the same name; `None` where a
/// value does not percent-decode to text.
pub fn parse_query(query: &str) -> (r: Option<Vec<(String, Option<String>)>>)
    ensures
        r is Some <==> query_decodes(query@),
        r matches Some(v) ==> keys_distinct(v@) && entries_map(v@) == query_map(query@),
{
    let parts = split_by(query, '&');
    let ghost ps = query_parts(query@);
    let mut entries: Vec<(String, Option<String>)> = Vec::new();
    let mut i: usize = 0;
    while i < parts.len()
        invariant
            texts(parts@) == ps,
            ps == query_parts(query@),
            0 <= i <= parts.len(),
            forall|k: int| 0 <= k < i ==> part_decodes(#[trigger] ps[k]),
            keys_distinct(entries@),
            entries_map(entries@) == parts_map(ps.take(i as int)),
        decreases parts.len() - i,
    {
        let ghost part = ps[i as int];
        assert(parts@[i as int]@ == part);
        let pieces = split_by(parts[i].as_str(), '=');
        let key = pieces[0].clone();
        let value = if pieces.len() > 1 {
            match percent_decode_exec(pieces[1].as_str()) {
                Some(text) => Some(text),
                None => {
                    proof {
                        assert(!part_decodes(ps[i as int]));
                    }
                    return None;
                },
            }
        } else {
            None
        };
        proof {
            assert(key@ == query_key(part));
            assert(opt_text(value) == query_value(part));
            assert(ps.take(i + 1).drop_last() =~= ps.take(i as int));
            assert(ps.take(i + 1).last() == part);
        }
        let position = find_key(&entries, &key);
        if let Some(j) = position {
            let ghost e0 = entries@;
            proof {
                lemma_entries_map_update(e0, j as int, (key, value));
            }
            entries.set(j, (key, value));
        } else {
            let ghost e0 = entries@;
            entries.push((key, value));
            proof {
                assert(entries@.drop_last() =~= e0);
                assert forall|a: int, b: int| 0 <= a < b < entries@.len() implies entries@[a].0@
                    != entries@[b].0@ by {
                    if b == e0.len() {
                        assert(entries@[a] == e0[a]);
                    }
                }
            }
        }
        i = i + 1;
    }
    proof {
        assert(ps.take(parts.len() as int) =~= ps);
        assert forall|k: int| 0 <= k < query_parts(query@).len() implies part_decodes(
            #[trigger] query_parts(query@)[k],
        ) by {
            assert(part_decodes(ps[k]));
        }
    }
    Some(entries)
}

/// The names and values of the query of a request, `None` if it has no
/// query. Every value must percent-decode to text: the caller checks that
/// with `parse_query`, which says `None` where one does not.
pub fn get_query(query: Option<&str>) -> (r: Option<Vec<(String, Option<String>)>>)
    requires
        query matches Some(q) ==> query_decodes(q@),
    ensures
        r is Some <==> query is Some,
        r matches Some(v) ==> keys_distinct(v@) && entries_map(v@) == query_map(query->0@),
{
    match query {
        Some(q) => parse_query(q),
        None => None,
    }
}

/// The value that the query holds under `key`: `None` if the name does not
/// occur, `Some(None)` if it occurs without `=`.
pub fn query_lookup<'a>(entries: &'a Vec<(String, Option<String>)>, key: &str) -> (r: Option<
    &'a Option<String>,
>)
    requires
        keys_distinct(entries@),
    ensures
        r is Some <==> entries_map(entries@).contains_key(key@),
        r matches Some(v) ==> opt_text(*v) == entries_map(entries@)[key@],
{
    let wanted = String::from_str(key);
    let mut j: usize = 0;
    while j < entries.len()
        invariant
            0 <= j <= entries.len(),
            keys_distinct(entries@),
            wanted@ == key@,
            forall|k: int| 0 <= k < j ==> entries@[k].0@ != key@,
        decreases entries.len() - j,
    {
        if entries[j].0 == wanted {
            proof {
                lemma_entries_map_index(entries@, j as int);
            }
            return Some(&entries[j].1);
        }
        j = j + 1;
    }
    proof {
        lemma_entries_map_contains(entries@, key@);
    }
    None
}

/// The extension of a file path as `std::path::Path::extension` finds it:
/// the part of the file name after its last `.`, if any.
pub uninterp spec fn path_extension(path: Seq<char>) -> Option<Seq<char>>;

/// `std::path::Path::extension`, as text. Its result depends on the path
/// alone; the rules by which it finds the file name are not restated here.
#[verifier::external_body]
fn extension_of(path: &str) -> (r: Option<String>)
    ensures
        opt_text(r) == path_extension(path@),
{
    match std::path::Path::new(path).extension() {
        Some(ext) => match ext.to_str() {
            Some(text) => Some(text.to_string()),
            None => None,
        },
        None => None,
    }
}

/// The media type of a file with the extension `ext`.
pub open spec fn mime_for_extension(ext: Option<Seq<char>>) -> Seq<char> {
    match ext {
        Some(e) => if e == "html"@ {
            "text/html"@
        } else if e == "css"@ {
            "text/css"@
        } else if e == "js"@ {
            "text/javascript"@
        } else if e == "jpg"@ {
            "image/jpeg"@
        } else if e == "md"@ {
            "text/markdown; charset=utf-8"@
        } else if e == "png"@ {
            "image/png"@
        } else if e == "svg"@ {
            "image/svg+xml"@
        } else if e == "wasm"@ {
            "application/wasm"@
        } else {
            "text/plain"@
        },
        None => "text/plain"@,
    }
}

/// One of the extensions that have a media type of their own.
pub open spec fn is_known_extension(e: Seq<char>) -> bool {
    e == "html"@ || e == "css"@ || e == "js"@ || e == "jpg"@ || e == "md"@ || e == "png"@ || e
        == "svg"@ || e == "wasm"@
}

/// Law: an extension that is none of html, css, js, jpg, md, png, svg and
/// wasm (compared whole, so `json` or `jsx` are none of them), and a path
/// without extension, give `text/plain`.
pub proof fn law_other_extensions_are_plain_text(e: Seq<char>)
    requires
        !is_known_extension(e),
    ensures
        mime_for_extension(Some(e)) == "text/plain"@,
        mime_for_extension(None) == "text/plain"@,
{
}

/// The media type of a file with the extension `ext`.
pub fn mime_type_for_extension(ext: Option<&str>) -> (r: String)
    ensures
        r@ == mime_for_extension(match ext {
            Some(e) => Some(e@),
            None => None,
        }),
        (ext matches Some(e) && !is_known_extension(e@)) ==> r@ == "text/plain"@,
        ext is None ==> r@ == "text/plain"@,
{
    let media_type = match ext {
        Some(e) => if str_equal(e, "html") {
            "text/html"
        } else if str_equal(e, "css") {
            "text/css"
        } else if str_equal(e, "js") {
            "text/javascript"
        } else if str_equal(e, "jpg") {
            "image/jpeg"
        } else if str_equal(e, "md") {
            "text/markdown; charset=utf-8"
        } else if str_equal(e, "png") {
            "image/png"
        } else if str_equal(e, "svg") {
            "image/svg+xml"
        } else if str_equal(e, "wasm") {
            "application/wasm"
        } else {
            "text/plain"
        },
        None => "text/plain",
    };
    String::from_str(media_type)
}

/// The media type of the file at `file_path`, by its extension.
pub fn file_path_mime(file_path: &str) -> (r: String)
    ensures
        r@ == mime_for_extension(path_extension(file_path@)),
{
    let ext = extension_of(file_path);
    match ext {
        Some(e) => mime_type_for_extension(Some(e.as_str())),
        None => mime_type_for_extension(None),
    }
}

} // verus!
