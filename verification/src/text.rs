//! Clean-up of raw OCR output: newlines and runs of whitespace collapse to
//! single spaces, the ends are trimmed, and double quotes are escaped.

use vstd::prelude::*;
use crate::strings::push_char;

verus! {

/// The Unicode `White_Space` property, the set that `char::is_whitespace`
/// and `str::split_whitespace` use.
pub open spec fn is_white(c: char) -> bool {
    let u = c as u32;
    ||| 0x09 <= u <= 0x0d
    ||| u == 0x20
    ||| u == 0x85
    ||| u == 0xa0
    ||| u == 0x1680
    ||| 0x2000 <= u <= 0x200a
    ||| u == 0x2028
    ||| u == 0x2029
    ||| u == 0x202f
    ||| u == 0x205f
    ||| u == 0x3000
}

/// Every `"` replaced by the two characters `\"`.
pub open spec fn escape_quotes(s: Seq<char>) -> Seq<char>
    decreases s.len(),
{
    if s.len() == 0 {
        seq![]
    } else if s.last() == '"' {
        escape_quotes(s.drop_last()) + seq!['\\', '"']
    } else {
        escape_quotes(s.drop_last()).push(s.last())
    }
}

/// The maximal runs of non-whitespace characters of `s`, in order.
pub open spec fn words(s: Seq<char>) -> Seq<Seq<char>>
    decreases s.len(),
{
    if s.len() == 0 {
        seq![]
    } else {
        let p = s.drop_last();
        let c = s.last();
        let ws = words(p);
        if is_white(c) {
            ws
        } else if p.len() == 0 || is_white(p.last()) {
            ws.push(seq![c])
        } else {
            ws.update(ws.len() - 1, ws.last().push(c))
        }
    }
}

/// The words joined by single spaces.
pub open spec fn join_words(ws: Seq<Seq<char>>) -> Seq<char>
    decreases ws.len(),
{
    if ws.len() == 0 {
        seq![]
    } else if ws.len() == 1 {
        ws[0]
    } else {
        join_words(ws.drop_last()) + seq![' '] + ws.last()
    }
}

/// What `clean_text` returns for the characters `s`: the words of `s`
/// (after quote escaping) joined by single spaces. Newlines are whitespace,
/// so turning them into spaces first changes nothing.
pub open spec fn cleaned(s: Seq<char>) -> Seq<char> {
    join_words(words(escape_quotes(s)))
}

/// Each word is non-empty and holds no whitespace.
pub open spec fn well_formed_words(ws: Seq<Seq<char>>) -> bool {
    forall|i: int|
        0 <= i < ws.len() ==> #[trigger] ws[i].len() > 0 && forall|j: int|
            0 <= j < ws[i].len() ==> !is_white(ws[i][j])
}

proof fn lemma_words_well_formed(s: Seq<char>)
    ensures
        well_formed_words(words(s)),
        s.len() > 0 && !is_white(s.last()) ==> words(s).len() > 0 && words(s).last().last()
            == s.last(),
    decreases s.len(),
{
    if s.len() > 0 {
        let p = s.drop_last();
        lemma_words_well_formed(p);
        let ws = words(p);
        let c = s.last();
        if !is_white(c) && !(p.len() == 0 || is_white(p.last())) {
            let w2 = ws.last().push(c);
            assert forall|j: int| 0 <= j < w2.len() implies !is_white(w2[j]) by {
                if j < ws.last().len() {
                    assert(ws[ws.len() - 1][j] == w2[j]);
                }
            }
        }
    }
}

proof fn lemma_join_empty(ws: Seq<Seq<char>>)
    requires
        well_formed_words(ws),
    ensures
        (join_words(ws).len() == 0) == (ws.len() == 0),
    decreases ws.len(),
{
    if ws.len() > 1 {
        assert(ws[ws.len() - 1].len() > 0);
    } else if ws.len() == 1 {
        assert(ws[0].len() > 0);
    }
}

proof fn lemma_join_extend_last(ws: Seq<Seq<char>>, c: char)
    requires
        ws.len() > 0,
    ensures
        join_words(ws.update(ws.len() - 1, ws.last().push(c))) == join_words(ws).push(c),
{
    let ws2 = ws.update(ws.len() - 1, ws.last().push(c));
    if ws.len() > 1 {
        assert(ws2.drop_last() =~= ws.drop_last());
    }
}

proof fn lemma_join_push(ws: Seq<Seq<char>>, w: Seq<char>)
    ensures
        join_words(ws.push(w)) == (if ws.len() == 0 {
            w
        } else {
            join_words(ws) + seq![' '] + w
        }),
{
    assert(ws.push(w).drop_last() =~= ws);
}


/// No whitespace at either end, and every whitespace character is a single
/// space between two non-whitespace characters.
pub open spec fn single_spaced(t: Seq<char>) -> bool {
    forall|i: int|
        0 <= i < t.len() && #[trigger] is_white(t[i]) ==> t[i] == ' ' && 0 < i < t.len() - 1
            && !is_white(t[i - 1]) && !is_white(t[i + 1])
}

/// Every `"` is directly preceded by a backslash.
pub open spec fn quotes_escaped(t: Seq<char>) -> bool {
    forall|i: int| 0 <= i < t.len() && #[trigger] t[i] == '"' ==> i > 0 && t[i - 1] == '\\'
}

proof fn lemma_join_ends(ws: Seq<Seq<char>>)
    requires
        well_formed_words(ws),
        ws.len() > 0,
    ensures
        join_words(ws).len() > 0,
        join_words(ws)[0] == ws[0][0],
        join_words(ws).last() == ws.last().last(),
    decreases ws.len(),
{
    assert(ws[0].len() > 0);
    assert(ws[ws.len() - 1].len() > 0);
    if ws.len() > 1 {
        let ws2 = ws.drop_last();
        assert(well_formed_words(ws2)) by {
            assert forall|i: int| 0 <= i < ws2.len() implies #[trigger] ws2[i].len() > 0 && forall|j: int|
                0 <= j < ws2[i].len() ==> !is_white(ws2[i][j]) by {
                assert(ws2[i] == ws[i]);
            }
        }
        lemma_join_ends(ws2);
    }
}

proof fn lemma_join_single_spaced(ws: Seq<Seq<char>>)
    requires
        well_formed_words(ws),
    ensures
        single_spaced(join_words(ws)),
    decreases ws.len(),
{
    if ws.len() == 1 {
        assert(ws[0].len() > 0);
    } else if ws.len() > 1 {
        let ws2 = ws.drop_last();
        let w = ws.last();
        assert(well_formed_words(ws2)) by {
            assert forall|i: int| 0 <= i < ws2.len() implies #[trigger] ws2[i].len() > 0 && forall|j: int|
                0 <= j < ws2[i].len() ==> !is_white(ws2[i][j]) by {
                assert(ws2[i] == ws[i]);
            }
        }
        lemma_join_single_spaced(ws2);
        lemma_join_ends(ws2);
        let a = join_words(ws2);
        let t = join_words(ws);
        assert(t == a + seq![' '] + w);
        assert(ws[ws.len() - 1] == w);
        assert(w.len() > 0);
        assert(!is_white(a.last())) by {
            assert(ws2[ws2.len() - 1] == ws2.last());
            assert(ws2[ws2.len() - 1].len() > 0);
        }
        assert forall|i: int| 0 <= i < t.len() && #[trigger] is_white(t[i]) implies t[i] == ' '
            && 0 < i < t.len() - 1 && !is_white(t[i - 1]) && !is_white(t[i + 1]) by {
            if i < a.len() {
                assert(t[i] == a[i]);
                assert(t[i - 1] == a[i - 1]);
                assert(t[i + 1] == a[i + 1]);
            } else if i == a.len() {
                assert(t[i - 1] == a.last());
                assert(t[i + 1] == w[0]);
            } else {
                assert(t[i] == w[i - a.len() - 1]);
            }
        }
    }
}

/// Law: the cleaned text is trimmed and single-spaced; no newline, tab or
/// other whitespace besides single inner spaces remains.
pub proof fn lemma_clean_text_single_spaced(s: Seq<char>)
    ensures
        single_spaced(cleaned(s)),
{
    lemma_words_well_formed(escape_quotes(s));
    lemma_join_single_spaced(words(escape_quotes(s)));
}

proof fn lemma_escape_quotes_escaped(s: Seq<char>)
    ensures
        quotes_escaped(escape_quotes(s)),
    decreases s.len(),
{
    if s.len() > 0 {
        lemma_escape_quotes_escaped(s.drop_last());
        let e = escape_quotes(s.drop_last());
        let t = escape_quotes(s);
        assert forall|i: int| 0 <= i < t.len() && #[trigger] t[i] == '"' implies i > 0 && t[i - 1]
            == '\\' by {
            if i < e.len() {
                assert(t[i] == e[i]);
                assert(t[i - 1] == e[i - 1]);
            }
        }
    }
}

proof fn lemma_words_quotes_escaped(s: Seq<char>)
    requires
        quotes_escaped(s),
    ensures
        forall|i: int| 0 <= i < words(s).len() ==> quotes_escaped(#[trigger] words(s)[i]),
    decreases s.len(),
{
    if s.len() > 0 {
        let p = s.drop_last();
        let c = s.last();
        assert(quotes_escaped(p)) by {
            assert forall|i: int| 0 <= i < p.len() && #[trigger] p[i] == '"' implies i > 0 && p[i
                - 1] == '\\' by {
                assert(s[i] == p[i]);
            }
        }
        lemma_words_quotes_escaped(p);
        lemma_words_well_formed(p);
        let ws = words(p);
        if c == '"' {
            assert(s[s.len() - 1] == '"');
            assert(p.last() == '\\');
        }
        if !is_white(c) && (p.len() == 0 || is_white(p.last())) {
            let w = seq![c];
            assert(quotes_escaped(w));
            assert forall|i: int| 0 <= i < words(s).len() implies quotes_escaped(
                #[trigger] words(s)[i],
            ) by {
                if i < ws.len() {
                    assert(words(s)[i] == ws[i]);
                }
            }
        } else if !is_white(c) {
            let w = ws.last();
            let w2 = w.push(c);
            assert(ws[ws.len() - 1] == w);
            assert(quotes_escaped(w2)) by {
                assert forall|j: int| 0 <= j < w2.len() && #[trigger] w2[j] == '"' implies j > 0
                    && w2[j - 1] == '\\' by {
                    if j < w.len() {
                        assert(w2[j] == w[j]);
                        assert(w2[j - 1] == w[j - 1]);
                    } else {
                        assert(w.len() > 0);
                        assert(w2[j - 1] == w.last());
                    }
                }
            }
            assert forall|i: int| 0 <= i < words(s).len() implies quotes_escaped(
                #[trigger] words(s)[i],
            ) by {
                if i < ws.len() - 1 {
                    assert(words(s)[i] == ws[i]);
                }
            }
        }
    }
}

proof fn lemma_join_quotes_escaped(ws: Seq<Seq<char>>)
    requires
        well_formed_words(ws),
        forall|i: int| 0 <= i < ws.len() ==> quotes_escaped(#[trigger] ws[i]),
    ensures
        quotes_escaped(join_words(ws)),
    decreases ws.len(),
{
    if ws.len() == 1 {
        assert(quotes_escaped(ws[0]));
    } else if ws.len() > 1 {
        let ws2 = ws.drop_last();
        let w = ws.last();
        assert(well_formed_words(ws2)) by {
            assert forall|i: int| 0 <= i < ws2.len() implies #[trigger] ws2[i].len() > 0 && forall|j: int|
                0 <= j < ws2[i].len() ==> !is_white(ws2[i][j]) by {
                assert(ws2[i] == ws[i]);
            }
        }
        assert forall|i: int| 0 <= i < ws2.len() implies quotes_escaped(#[trigger] ws2[i]) by {
            assert(ws2[i] == ws[i]);
        }
        lemma_join_quotes_escaped(ws2);
        assert(ws[ws.len() - 1] == w);
        assert(quotes_escaped(w));
        let a = join_words(ws2);
        let t = join_words(ws);
        assert(t == a + seq![' '] + w);
        assert forall|i: int| 0 <= i < t.len() && #[trigger] t[i] == '"' implies i > 0 && t[i - 1]
            == '\\' by {
            if i < a.len() {
                assert(t[i] == a[i]);
                assert(t[i - 1] == a[i - 1]);
            } else if i > a.len() {
                let j = i - a.len() - 1;
                assert(t[i] == w[j]);
                if j == 0 {
                    assert(w[0] == '"');
                } else {
                    assert(t[i - 1] == w[j - 1]);
                }
            }
        }
    }
}

/// Law: in the cleaned text every double quote is escaped, that is directly
/// preceded by a backslash.
pub proof fn lemma_clean_text_quotes_escaped(s: Seq<char>)
    ensures
        quotes_escaped(cleaned(s)),
{
    let e = escape_quotes(s);
    lemma_escape_quotes_escaped(s);
    lemma_words_quotes_escaped(e);
    lemma_words_well_formed(e);
    lemma_join_quotes_escaped(words(e));
}

proof fn lemma_escape_without_quotes(s: Seq<char>)
    requires
        !s.contains('"'),
    ensures
        escape_quotes(s) == s,
    decreases s.len(),
{
    if s.len() > 0 {
        assert(!s.drop_last().contains('"')) by {
            if s.drop_last().contains('"') {
                let k = choose|k: int| 0 <= k < s.drop_last().len() && s.drop_last()[k] == '"';
                assert(s[k] == '"');
            }
        }
        lemma_escape_without_quotes(s.drop_last());
        assert(s[s.len() - 1] != '"');
        assert(s.drop_last().push(s.last()) =~= s);
    }
}

proof fn lemma_words_append_word(p: Seq<char>, w: Seq<char>)
    requires
        w.len() > 0,
        forall|j: int| 0 <= j < w.len() ==> !is_white(#[trigger] w[j]),
        p.len() == 0 || is_white(p.last()),
    ensures
        words(p + w) == words(p).push(w),
    decreases w.len(),
{
    if w.len() == 1 {
        assert((p + w).drop_last() =~= p);
        assert(w =~= seq![w[0]]);
    } else {
        let w2 = w.drop_last();
        assert forall|j: int| 0 <= j < w2.len() implies !is_white(#[trigger] w2[j]) by {
            assert(w2[j] == w[j]);
        }
        lemma_words_append_word(p, w2);
        assert((p + w).drop_last() =~= p + w2);
        assert((p + w2).last() == w2.last());
        assert(w2.last() == w[w.len() - 2]);
        assert(w2.push(w.last()) =~= w);
        assert(words(p).push(w2).update(words(p).len() as int, w2.push(w.last())) =~= words(p).push(
            w,
        ));
    }
}

proof fn lemma_words_of_join(ws: Seq<Seq<char>>)
    requires
        well_formed_words(ws),
    ensures
        words(join_words(ws)) == ws,
    decreases ws.len(),
{
    if ws.len() == 0 {
    } else if ws.len() == 1 {
        let w = ws[0];
        assert forall|j: int| 0 <= j < w.len() implies !is_white(#[trigger] w[j]) by {}
        lemma_words_append_word(seq![], w);
        assert(seq![] + w =~= w);
        assert(seq![].push(w) =~= ws);
    } else {
        let ws2 = ws.drop_last();
        let w = ws.last();
        assert(well_formed_words(ws2)) by {
            assert forall|i: int| 0 <= i < ws2.len() implies #[trigger] ws2[i].len() > 0 && forall|j: int|
                0 <= j < ws2[i].len() ==> !is_white(ws2[i][j]) by {
                assert(ws2[i] == ws[i]);
            }
        }
        lemma_words_of_join(ws2);
        let a = join_words(ws2);
        let p = a.push(' ');
        assert(words(p) == words(a)) by {
            assert(p.drop_last() =~= a);
        }
        assert(ws[ws.len() - 1] == w);
        assert forall|j: int| 0 <= j < w.len() implies !is_white(#[trigger] w[j]) by {}
        lemma_words_append_word(p, w);
        assert(a + seq![' '] + w =~= p + w);
        assert(ws2.push(w) =~= ws);
    }
}

proof fn lemma_words_without_quotes(s: Seq<char>)
    requires
        !s.contains('"'),
    ensures
        forall|i: int, j: int|
            0 <= i < words(s).len() && 0 <= j < words(s)[i].len() ==> #[trigger] words(s)[i][j]
                != '"',
    decreases s.len(),
{
    if s.len() > 0 {
        let p = s.drop_last();
        assert(!p.contains('"')) by {
            if p.contains('"') {
                let k = choose|k: int| 0 <= k < p.len() && p[k] == '"';
                assert(s[k] == '"');
            }
        }
        lemma_words_without_quotes(p);
        assert(s[s.len() - 1] != '"');
        let ws = words(p);
        let c = s.last();
        lemma_words_well_formed(p);
        if is_white(c) {
        } else if p.len() == 0 || is_white(p.last()) {
            assert forall|i: int, j: int|
                0 <= i < words(s).len() && 0 <= j < words(s)[i].len() implies #[trigger] words(
                s,
            )[i][j] != '"' by {
                if i < ws.len() {
                    assert(words(s)[i] == ws[i]);
                }
            }
        } else {
            let w2 = ws.last().push(c);
            assert forall|i: int, j: int|
                0 <= i < words(s).len() && 0 <= j < words(s)[i].len() implies #[trigger] words(
                s,
            )[i][j] != '"' by {
                if i < ws.len() - 1 {
                    assert(words(s)[i] == ws[i]);
                } else {
                    assert(words(s)[i] == w2);
                    if j < ws.last().len() {
                        assert(w2[j] == ws[ws.len() - 1][j]);
                    }
                }
            }
        }
    }
}

proof fn lemma_join_without_quotes(ws: Seq<Seq<char>>)
    requires
        forall|i: int, j: int| 0 <= i < ws.len() && 0 <= j < ws[i].len() ==> #[trigger] ws[i][j] != '"',
    ensures
        !join_words(ws).contains('"'),
    decreases ws.len(),
{
    if ws.len() == 1 {
        assert forall|j: int| 0 <= j < ws[0].len() implies ws[0][j] != '"' by {
            assert(ws[0][j] != '"');
        }
    } else if ws.len() > 1 {
        let ws2 = ws.drop_last();
        assert forall|i: int, j: int| 0 <= i < ws2.len() && 0 <= j < ws2[i].len() implies #[trigger] ws2[i][j] != '"' by {
            assert(ws2[i] == ws[i]);
            assert(ws[i][j] != '"');
        }
        lemma_join_without_quotes(ws2);
        let a = join_words(ws2);
        let w = ws.last();
        let t = join_words(ws);
        assert(t == a + seq![' '] + w);
        if t.contains('"') {
            let k = choose|k: int| 0 <= k < t.len() && t[k] == '"';
            if k < a.len() {
                assert(a[k] == t[k]);
            } else if k > a.len() {
                assert(t[k] == ws[ws.len() - 1][k - a.len() - 1]);
            }
        }
    }
}

/// Law: for text without double quotes, cleaning is idempotent: cleaning the
/// cleaned text gives it back unchanged.
pub proof fn lemma_clean_text_idempotent(s: Seq<char>)
    requires
        !s.contains('"'),
    ensures
        cleaned(cleaned(s)) == cleaned(s),
{
    lemma_escape_without_quotes(s);
    let ws = words(s);
    lemma_words_well_formed(s);
    lemma_words_without_quotes(s);
    lemma_join_without_quotes(ws);
    let t = join_words(ws);
    lemma_escape_without_quotes(t);
    lemma_words_of_join(ws);
}

/// Law: cleaning loses no word and adds none: the words of the cleaned text
/// are the words of the input, after quote escaping.
pub proof fn lemma_clean_text_keeps_words(s: Seq<char>)
    ensures
        words(cleaned(s)) == words(escape_quotes(s)),
{
    lemma_words_well_formed(escape_quotes(s));
    lemma_words_of_join(words(escape_quotes(s)));
}

/// The character test "is a double quote".
pub open spec fn is_quote_char() -> spec_fn(char) -> bool {
    |c: char| c == '"'
}

/// The character test "is not whitespace".
pub open spec fn is_visible_char() -> spec_fn(char) -> bool {
    |c: char| !is_white(c)
}

/// The number of double quotes in `s`.
pub open spec fn quote_count(s: Seq<char>) -> nat {
    s.filter(is_quote_char()).len()
}

/// The text `s` with every `"` replaced by backslash-quote and every other
/// character kept, character by character.
pub open spec fn each_quote_escaped(s: Seq<char>) -> Seq<char> {
    s.map_values(|c: char| if c == '"' { seq!['\\', '"'] } else { seq![c] }).flatten()
}

/// Law: quote escaping maps each character on its own: a `"` becomes the two
/// characters `\"`, every other character stays as it is.
pub proof fn lemma_escape_quotes_each_character(s: Seq<char>)
    ensures
        escape_quotes(s) == each_quote_escaped(s),
    decreases s.len(),
{
    let f = |c: char| if c == '"' { seq!['\\', '"'] } else { seq![c] };
    if s.len() == 0 {
        assert(s.map_values(f) =~= Seq::<Seq<char>>::empty());
    } else {
        let p = s.drop_last();
        lemma_escape_quotes_each_character(p);
        assert(p.push(s.last()) =~= s);
        p.lemma_push_map_commute(f, s.last());
        p.map_values(f).lemma_flatten_push(f(s.last()));
        if s.last() == '"' {
            assert(escape_quotes(s) =~= escape_quotes(p) + f(s.last()));
        } else {
            assert(escape_quotes(s) =~= escape_quotes(p) + f(s.last()));
        }
    }
}

proof fn lemma_quote_count_escape(s: Seq<char>)
    ensures
        quote_count(escape_quotes(s)) == quote_count(s),
    decreases s.len(),
{
    broadcast use vstd::seq_lib::group_seq_properties;

    if s.len() == 0 {
        reveal(Seq::filter);
    } else {
        let p = s.drop_last();
        lemma_quote_count_escape(p);
        assert(p.push(s.last()) =~= s);
        p.lemma_filter_push(s.last(), is_quote_char());
        let e = escape_quotes(p);
        if s.last() == '"' {
            assert(escape_quotes(s) =~= e.push('\\').push('"'));
            e.lemma_filter_push('\\', is_quote_char());
            e.push('\\').lemma_filter_push('"', is_quote_char());
        } else {
            e.lemma_filter_push(s.last(), is_quote_char());
        }
    }
}

proof fn lemma_visible_join_words(p: Seq<char>)
    ensures
        join_words(words(p)).filter(is_visible_char()) == p.filter(is_visible_char()),
    decreases p.len(),
{
    broadcast use vstd::seq_lib::group_seq_properties;

    if p.len() == 0 {
        reveal(Seq::filter);
    } else {
        let q = p.drop_last();
        let c = p.last();
        lemma_visible_join_words(q);
        lemma_words_well_formed(q);
        lemma_join_empty(words(q));
        assert(q.push(c) =~= p);
        q.lemma_filter_push(c, is_visible_char());
        let a = join_words(words(q));
        if is_white(c) {
        } else if q.len() == 0 || is_white(q.last()) {
            lemma_join_push(words(q), seq![c]);
            if words(q).len() == 0 {
                reveal(Seq::filter);
                assert(seq![c] =~= Seq::<char>::empty().push(c));
                Seq::<char>::empty().lemma_filter_push(c, is_visible_char());
            } else {
                assert(a + seq![' '] + seq![c] =~= a.push(' ').push(c));
                a.lemma_filter_push(' ', is_visible_char());
                a.push(' ').lemma_filter_push(c, is_visible_char());
            }
        } else {
            lemma_join_extend_last(words(q), c);
            a.lemma_filter_push(c, is_visible_char());
        }
    }
}

proof fn lemma_quotes_are_visible(x: Seq<char>)
    ensures
        x.filter(is_quote_char()) == x.filter(is_visible_char()).filter(is_quote_char()),
    decreases x.len(),
{
    broadcast use vstd::seq_lib::group_seq_properties;

    if x.len() == 0 {
        reveal(Seq::filter);
    } else {
        let q = x.drop_last();
        let c = x.last();
        lemma_quotes_are_visible(q);
        assert(q.push(c) =~= x);
        q.lemma_filter_push(c, is_quote_char());
        q.lemma_filter_push(c, is_visible_char());
        q.filter(is_visible_char()).lemma_filter_push(c, is_quote_char());
        assert(c == '"' ==> !is_white(c));
    }
}

/// Law: cleaning keeps every double quote: the cleaned text holds exactly as
/// many `"` as the input.
pub proof fn lemma_clean_text_keeps_quotes(s: Seq<char>)
    ensures
        quote_count(cleaned(s)) == quote_count(s),
{
    let e = escape_quotes(s);
    lemma_quotes_are_visible(cleaned(s));
    lemma_quotes_are_visible(e);
    lemma_visible_join_words(e);
    lemma_quote_count_escape(s);
}

/// Law: cleaning keeps every visible character in order: the non-whitespace
/// characters of the cleaned text are those of the input with each `"`
/// escaped.
pub proof fn lemma_clean_text_keeps_visible_characters(s: Seq<char>)
    ensures
        cleaned(s).filter(is_visible_char()) == each_quote_escaped(s).filter(is_visible_char()),
{
    lemma_visible_join_words(escape_quotes(s));
    lemma_escape_quotes_each_character(s);
}

/// No character of `s` is whitespace.
pub open spec fn all_visible(s: Seq<char>) -> bool {
    forall|i: int| 0 <= i < s.len() ==> !is_white(#[trigger] s[i])
}

/// Every character of `s` is whitespace.
pub open spec fn all_white(s: Seq<char>) -> bool {
    forall|i: int| 0 <= i < s.len() ==> is_white(#[trigger] s[i])
}

proof fn lemma_escape_concat(x: Seq<char>, y: Seq<char>)
    ensures
        escape_quotes(x + y) == escape_quotes(x) + escape_quotes(y),
    decreases y.len(),
{
    if y.len() == 0 {
        assert(x + y =~= x);
        assert(escape_quotes(x) + escape_quotes(y) =~= escape_quotes(x));
    } else {
        let y2 = y.drop_last();
        lemma_escape_concat(x, y2);
        assert((x + y).drop_last() =~= x + y2);
        assert((x + y).last() == y.last());
        if y.last() == '"' {
            assert(escape_quotes(x) + escape_quotes(y2) + seq!['\\', '"'] =~= escape_quotes(x) + (
            escape_quotes(y2) + seq!['\\', '"']));
        } else {
            assert((escape_quotes(x) + escape_quotes(y2)).push(y.last()) =~= escape_quotes(x) + (
            escape_quotes(y2).push(y.last())));
        }
    }
}

proof fn lemma_escape_keeps_visibility(s: Seq<char>)
    ensures
        all_visible(s) ==> all_visible(escape_quotes(s)),
        all_white(s) ==> escape_quotes(s) == s,
    decreases s.len(),
{
    if s.len() > 0 {
        let p = s.drop_last();
        lemma_escape_keeps_visibility(p);
        assert(all_visible(s) ==> all_visible(p)) by {
            if all_visible(s) {
                assert forall|i: int| 0 <= i < p.len() implies !is_white(#[trigger] p[i]) by {
                    assert(p[i] == s[i]);
                }
            }
        }
        assert(all_white(s) ==> all_white(p)) by {
            if all_white(s) {
                assert forall|i: int| 0 <= i < p.len() implies is_white(#[trigger] p[i]) by {
                    assert(p[i] == s[i]);
                }
            }
        }
        assert(s[s.len() - 1] == s.last());
        let e = escape_quotes(s);
        let ep = escape_quotes(p);
        if all_visible(s) {
            assert forall|i: int| 0 <= i < e.len() implies !is_white(#[trigger] e[i]) by {
                if i < ep.len() {
                    assert(e[i] == ep[i]);
                }
            }
        }
        if all_white(s) {
            assert(s.last() != '"');
            assert(p.push(s.last()) =~= s);
        }
    }
}

proof fn lemma_words_append_white(x: Seq<char>, w: Seq<char>)
    requires
        all_white(w),
    ensures
        words(x + w) == words(x),
    decreases w.len(),
{
    if w.len() == 0 {
        assert(x + w =~= x);
    } else {
        let w2 = w.drop_last();
        assert(all_white(w2)) by {
            assert forall|i: int| 0 <= i < w2.len() implies is_white(#[trigger] w2[i]) by {
                assert(w2[i] == w[i]);
            }
        }
        lemma_words_append_white(x, w2);
        assert((x + w).drop_last() =~= x + w2);
        assert((x + w).last() == w[w.len() - 1]);
    }
}

proof fn lemma_words_concat(x: Seq<char>, y: Seq<char>)
    requires
        x.len() == 0 || is_white(x.last()),
    ensures
        words(x + y) == words(x) + words(y),
    decreases y.len(),
{
    if y.len() == 0 {
        assert(x + y =~= x);
        assert(words(x) + words(y) =~= words(x));
    } else {
        let y2 = y.drop_last();
        let c = y.last();
        lemma_words_concat(x, y2);
        assert((x + y).drop_last() =~= x + y2);
        assert((x + y).last() == c);
        if y2.len() > 0 {
            assert((x + y2).last() == y2.last());
        } else {
            assert(x + y2 =~= x);
        }
        lemma_words_well_formed(y2);
        let a = words(x);
        let b = words(y2);
        if is_white(c) {
        } else if y2.len() == 0 || is_white(y2.last()) {
            assert((a + b).push(seq![c]) =~= a + b.push(seq![c]));
        } else {
            assert((a + b).update((a + b).len() - 1, (a + b).last().push(c)) =~= a + b.update(
                b.len() - 1,
                b.last().push(c),
            ));
        }
    }
}

proof fn lemma_join_concat(u: Seq<Seq<char>>, v: Seq<Seq<char>>)
    requires
        u.len() > 0,
        v.len() > 0,
    ensures
        join_words(u + v) == join_words(u) + seq![' '] + join_words(v),
    decreases v.len(),
{
    if v.len() == 1 {
        assert((u + v).drop_last() =~= u);
        assert((u + v).last() == v[0]);
    } else {
        let v2 = v.drop_last();
        lemma_join_concat(u, v2);
        assert((u + v).drop_last() =~= u + v2);
        assert((u + v).last() == v.last());
        assert(join_words(u) + seq![' '] + join_words(v2) + seq![' '] + v.last() =~= join_words(u)
            + seq![' '] + (join_words(v2) + seq![' '] + v.last()));
    }
}

/// Law: text made only of whitespace cleans to the empty text.
pub proof fn lemma_clean_text_of_blank_text(s: Seq<char>)
    requires
        all_white(s),
    ensures
        cleaned(s).len() == 0,
{
    lemma_escape_keeps_visibility(s);
    lemma_words_append_white(seq![], s);
    assert(seq![] + s =~= s);
}

/// Law: text without whitespace is only quote-escaped by cleaning.
pub proof fn lemma_clean_text_of_single_word(s: Seq<char>)
    requires
        all_visible(s),
    ensures
        cleaned(s) == each_quote_escaped(s),
{
    lemma_escape_quotes_each_character(s);
    lemma_escape_keeps_visibility(s);
    let e = escape_quotes(s);
    if e.len() > 0 {
        lemma_words_append_word(seq![], e);
        assert(seq![] + e =~= e);
        assert(seq![].push(e) =~= seq![e]);
    }
}

/// Law: a stretch of whitespace between two pieces of text becomes a single
/// space: cleaning `a`, whitespace, `b` gives the cleaned `a`, one space, the
/// cleaned `b`, when neither cleans to nothing.
pub proof fn lemma_clean_text_splits_at_whitespace(a: Seq<char>, w: Seq<char>, b: Seq<char>)
    requires
        w.len() > 0,
        all_white(w),
        cleaned(a).len() > 0,
        cleaned(b).len() > 0,
    ensures
        cleaned(a + w + b) == cleaned(a) + seq![' '] + cleaned(b),
{
    let ea = escape_quotes(a);
    let eb = escape_quotes(b);
    lemma_escape_concat(a + w, b);
    lemma_escape_concat(a, w);
    lemma_escape_keeps_visibility(w);
    let x = ea + w;
    assert(x.last() == w[w.len() - 1]);
    lemma_words_concat(x, eb);
    lemma_words_append_white(ea, w);
    lemma_words_well_formed(ea);
    lemma_words_well_formed(eb);
    lemma_join_empty(words(ea));
    lemma_join_empty(words(eb));
    lemma_join_concat(words(ea), words(eb));
}

/// Law: whitespace at either end of the text is dropped by cleaning.
pub proof fn lemma_clean_text_drops_outer_whitespace(w: Seq<char>, s: Seq<char>)
    requires
        all_white(w),
    ensures
        cleaned(w + s) == cleaned(s),
        cleaned(s + w) == cleaned(s),
{
    lemma_escape_keeps_visibility(w);
    lemma_escape_concat(w, s);
    lemma_escape_concat(s, w);
    let es = escape_quotes(s);
    lemma_words_append_white(es, w);
    lemma_words_append_white(seq![], w);
    assert(seq![] + w =~= w);
    if w.len() > 0 {
        assert(w.last() == w[w.len() - 1]);
    }
    lemma_words_concat(w, es);
    assert(words(w) + words(es) =~= words(es));
}

/// `char::is_whitespace`, for the `White_Space` set above.
pub fn is_whitespace_char(c: char) -> (r: bool)
    ensures
        r == is_white(c),
{
    let u = c as u32;
    (0x09 <= u && u <= 0x0d) || u == 0x20 || u == 0x85 || u == 0xa0 || u == 0x1680 || (0x2000
        <= u && u <= 0x200a) || u == 0x2028 || u == 0x2029 || u == 0x202f || u == 0x205f || u
        == 0x3000
}

/// The characters of `text` with every `"` escaped as `\"`.
fn escaped_chars(text: &str) -> (r: Vec<char>)
    ensures
        r@ == escape_quotes(text@),
{
    broadcast use vstd::string::group_string_axioms;

    let mut out: Vec<char> = Vec::new();
    for c in it: text.chars()
        invariant
            it.seq() == text@,
            out@ == escape_quotes(text@.take(it.index() as int)),
    {
        proof {
            assert(text@.take(it.index() + 1).drop_last() =~= text@.take(it.index() as int));
        }
        if c == '"' {
            out.push('\\');
            out.push('"');
        } else {
            out.push(c);
        }
    }
    proof {
        assert(text@.take(text@.len() as int) =~= text@);
    }
    out
}

/// Normalises raw OCR text: newlines become spaces, `"` becomes `\"`, and the
/// text is split on whitespace and joined again with single spaces.
pub fn clean_text(text: &str) -> (r: String)
    ensures
        r@ == cleaned(text@),
{
    let e = escaped_chars(text);
    let n = e.len();
    let mut out = String::new();
    let mut i: usize = 0;
    let mut prev_white = true;
    let mut any_word = false;
    while i < n
        invariant
            n == e@.len(),
            i <= n,
            out@ == join_words(words(e@.take(i as int))),
            prev_white == (i == 0 || is_white(e@[i - 1])),
            any_word == (out@.len() > 0),
        decreases n - i,
    {
        let c = e[i];
        let ghost p = e@.take(i as int);
        proof {
            assert(e@.take(i + 1).drop_last() =~= p);
            assert(e@.take(i + 1).last() == c);
            lemma_words_well_formed(p);
            lemma_join_empty(words(p));
        }
        if is_whitespace_char(c) {
        } else if prev_white {
            proof {
                lemma_join_push(words(p), seq![c]);
            }
            if any_word {
                push_char(&mut out, ' ');
            }
            push_char(&mut out, c);
            proof {
                assert(out@ == join_words(words(p).push(seq![c])));
            }
        } else {
            proof {
                lemma_join_extend_last(words(p), c);
            }
            push_char(&mut out, c);
        }
        prev_white = is_whitespace_char(c);
        any_word = any_word || !prev_white;
        i = i + 1;
    }
    proof {
        assert(e@.take(n as int) =~= e@);
    }
    out
}

} // verus!
