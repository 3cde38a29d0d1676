//! Language codes offered in the language menus: DeepL's target languages
//! reduced to two-letter lower-case codes, and lists without repeats.

use vstd::prelude::*;
use vstd::utf8::{
    decode_utf8, decode_utf8_encode_utf8, decode_utf8_split, encode_utf8, encode_utf8_decode_utf8,
    encode_utf8_valid_utf8, is_char_boundary, valid_utf8_split,
};
use crate::translator::Language;

verus! {

/// What `str::to_lowercase` returns for the characters `s`.
pub uninterp spec fn lowercase(s: Seq<char>) -> Seq<char>;

/// `str::to_lowercase`: std computes the Unicode lower-case mapping of the
/// string, a function of the characters alone; the contract names that
/// result and states nothing more of it.
#[verifier::external_body]
fn to_lowercase(s: &str) -> (r: String)
    ensures
        r@ == lowercase(s@),
{
    s.to_lowercase()
}

/// The first two bytes of the UTF-8 encoding of `s` form whole characters.
pub open spec fn code_prefix_ok(s: Seq<char>) -> bool {
    is_char_boundary(encode_utf8(s), 2)
}

/// The menu code of a language name: the characters in its first two UTF-8
/// bytes, lower-cased.
pub open spec fn code_of(s: Seq<char>) -> Seq<char> {
    lowercase(decode_utf8(encode_utf8(s).take(2)))
}

/// Law: the code of a language depends on its first two bytes alone: two
/// names that start with the same two bytes get the same code, however long
/// they are.
pub proof fn lemma_code_depends_on_first_two_bytes(s: Seq<char>, t: Seq<char>)
    requires
        code_prefix_ok(s),
        code_prefix_ok(t),
        encode_utf8(s).take(2) == encode_utf8(t).take(2),
    ensures
        code_of(s) == code_of(t),
{
}

/// Law: the code is the lower-cased prefix of the name that fills its first
/// two UTF-8 bytes.
pub proof fn lemma_code_is_lowercased_prefix(s: Seq<char>)
    requires
        code_prefix_ok(s),
    ensures
        exists|k: int|
            #![trigger s.take(k)]
            0 <= k <= s.len() && encode_utf8(s.take(k)) == encode_utf8(s).take(2) && code_of(s)
                == lowercase(s.take(k)),
{
    let bytes = encode_utf8(s);
    encode_utf8_valid_utf8(s);
    encode_utf8_decode_utf8(s);
    assert(bytes.len() >= 2) by {
        reveal_with_fuel(is_char_boundary, 1);
    }
    decode_utf8_split(bytes, 2);
    valid_utf8_split(bytes, 2);
    assert(bytes.take(2) == bytes.subrange(0, 2));
    let p = decode_utf8(bytes.subrange(0, 2));
    let r = decode_utf8(bytes.subrange(2, bytes.len() as int));
    assert(s == p + r);
    let k = p.len() as int;
    assert(s.take(k) =~= p);
    decode_utf8_encode_utf8(bytes.subrange(0, 2));
    assert(encode_utf8(s.take(k)) == bytes.take(2));
}

/// The code shown for a DeepL language, such as `en` for `EN-GB`.
pub fn language_code(language: &str) -> (r: String)
    requires
        code_prefix_ok(language@),
    ensures
        r@ == code_of(language@),
{
    let (prefix, _rest) = language.split_at(2);
    proof {
        encode_utf8_decode_utf8(prefix@);
        assert(encode_utf8(language@).take(2) =~= encode_utf8(prefix@));
    }
    to_lowercase(prefix)
}

/// The texts of a list of strings.
pub open spec fn texts(v: Seq<String>) -> Seq<Seq<char>> {
    v.map_values(|x: String| x@)
}

/// The codes of a list of DeepL languages.
pub open spec fn codes_of(langs: Seq<Language>) -> Seq<Seq<char>> {
    langs.map_values(|l: Language| code_of(l.language@))
}

/// The strings of `s` whose text did not occur earlier in `s`, in order.
pub open spec fn first_occurrences(s: Seq<String>) -> Seq<String>
    decreases s.len(),
{
    if s.len() == 0 {
        seq![]
    } else {
        let p = first_occurrences(s.drop_last());
        if texts(p).contains(s.last()@) {
            p
        } else {
            p.push(s.last())
        }
    }
}

/// `items` with repeats removed, keeping first occurrences: no text occurs
/// twice, and the same texts occur as in `items`.
pub fn distinct_strings(items: &Vec<String>) -> (r: Vec<String>)
    ensures
        r@ == first_occurrences(items@),
        texts(r@).no_duplicates(),
        texts(r@).to_set() == texts(items@).to_set(),
{
    let mut r: Vec<String> = Vec::new();
    let mut j: usize = 0;
    while j < items.len()
        invariant
            j <= items@.len(),
            r@ == first_occurrences(items@.take(j as int)),
            texts(r@).no_duplicates(),
            texts(r@).to_set() == texts(items@.take(j as int)).to_set(),
        decreases items@.len() - j,
    {
        let mut found = false;
        let mut i: usize = 0;
        while i < r.len()
            invariant
                i <= r@.len(),
                j < items@.len(),
                found == texts(r@).take(i as int).contains(items@[j as int]@),
            decreases r@.len() - i,
        {
            let same = r[i] == items[j];
            proof {
                assert(texts(r@).take(i + 1) =~= texts(r@).take(i as int).push(r@[i as int]@));
                vstd::seq_lib::lemma_seq_contains_after_push(
                    texts(r@).take(i as int),
                    r@[i as int]@,
                    items@[j as int]@,
                );
            }
            found = found || same;
            i = i + 1;
        }
        let ghost x = items@[j as int]@;
        proof {
            assert(texts(r@).take(r@.len() as int) =~= texts(r@));
            assert(items@.take(j + 1) =~= items@.take(j as int).push(items@[j as int]));
            assert(items@.take(j + 1).drop_last() =~= items@.take(j as int));
            texts(items@.take(j as int)).lemma_push_to_set_commute(x);
            assert(texts(items@.take(j + 1)) =~= texts(items@.take(j as int)).push(x));
        }
        if !found {
            let ghost before = r@;
            r.push(items[j].clone());
            proof {
                assert(texts(r@) =~= texts(before).push(x));
                texts(before).lemma_push_to_set_commute(x);
                assert forall|a: int, b: int|
                    0 <= a < texts(r@).len() && 0 <= b < texts(r@).len() && a != b implies texts(
                    r@,
                )[a] != texts(r@)[b] by {
                    if a == before.len() {
                        assert(texts(before)[b] == texts(r@)[b]);
                    } else if b == before.len() {
                        assert(texts(before)[a] == texts(r@)[a]);
                    } else {
                        assert(texts(before)[a] == texts(r@)[a]);
                        assert(texts(before)[b] == texts(r@)[b]);
                    }
                }
            }
        } else {
            proof {
                assert(texts(r@).to_set().insert(x) =~= texts(r@).to_set());
            }
        }
        j = j + 1;
    }
    proof {
        assert(items@.take(items@.len() as int) =~= items@);
    }
    r
}

/// The codes offered for DeepL's target languages, each once: no code occurs
/// twice, and the codes are those of the given languages.
pub fn target_language_codes(langs: &Vec<Language>) -> (r: Vec<String>)
    requires
        forall|j: int| 0 <= j < langs@.len() ==> code_prefix_ok(#[trigger] langs@[j].language@),
    ensures
        texts(r@).no_duplicates(),
        texts(r@).to_set() == codes_of(langs@).to_set(),
{
    let mut codes: Vec<String> = Vec::new();
    let mut j: usize = 0;
    while j < langs.len()
        invariant
            j <= langs@.len(),
            forall|jj: int| 0 <= jj < langs@.len() ==> code_prefix_ok(#[trigger] langs@[jj].language@),
            texts(codes@) == codes_of(langs@.take(j as int)),
        decreases langs@.len() - j,
    {
        let code = language_code(langs[j].language.as_str());
        let ghost before = codes@;
        codes.push(code);
        proof {
            let t = langs@.take(j as int);
            assert(langs@.take(j + 1) =~= t.push(langs@[j as int]));
            assert(codes_of(t.push(langs@[j as int])) =~= codes_of(t).push(
                code_of(langs@[j as int].language@),
            ));
            assert(texts(codes@) =~= texts(before).push(codes@[j as int]@));
            assert(texts(codes@) =~= codes_of(langs@.take(j + 1)));
        }
        j = j + 1;
    }
    proof {
        assert(langs@.take(langs@.len() as int) =~= langs@);
    }
    distinct_strings(&codes)
}

} // verus!
