//! Token-level, case-insensitive keyword matching over notice text.
//!
//! A text matches a keyword set when at least one of its
//! whitespace-delimited tokens, after trimming surrounding whitespace, comma
//! and period characters and lowercasing, equals one keyword trimmed and
//! lowercased the same way. No substring or stemming: whole tokens only, and
//! an empty text has no tokens.

use vstd::prelude::*;

verus! {

/// The whitespace characters that delimit tokens.
pub open spec fn is_space(c: char) -> bool {
    c == ' ' || c == '\t' || c == '\n' || c == '\r'
}

/// Characters stripped from both ends of every token and keyword:
/// whitespace, comma and period.
pub open spec fn is_trim_char(c: char) -> bool {
    is_space(c) || c == ',' || c == '.'
}

/// `s` with its leading trim characters removed.
pub open spec fn trim_front(s: Seq<char>) -> Seq<char>
    decreases s.len(),
{
    if s.len() > 0 && is_trim_char(s[0]) {
        trim_front(s.drop_first())
    } else {
        s
    }
}

/// `s` with its trailing trim characters removed.
pub open spec fn trim_back(s: Seq<char>) -> Seq<char>
    decreases s.len(),
{
    if s.len() > 0 && is_trim_char(s.last()) {
        trim_back(s.drop_last())
    } else {
        s
    }
}

/// `s` with trim characters removed from both ends.
pub open spec fn trimmed(s: Seq<char>) -> Seq<char> {
    trim_back(trim_front(s))
}

/// The lowercase form of a sequence of characters, as Unicode case mapping
/// defines it. Only the trusted wrapper below gives values to this function.
pub uninterp spec fn lower_of(s: Seq<char>) -> Seq<char>;

/// The canonical form a token or keyword is compared under.
pub open spec fn canon(w: Seq<char>) -> Seq<char> {
    lower_of(trimmed(w))
}

/// `text[start .. end]` is one whitespace-delimited token of `text`: a
/// maximal run of non-whitespace characters (possibly empty, between two
/// adjacent delimiters).
pub open spec fn is_token(text: Seq<char>, start: int, end: int) -> bool {
    &&& 0 <= start <= end <= text.len()
    &&& (start == 0 || is_space(text[start - 1]))
    &&& (end == text.len() || is_space(text[end]))
    &&& (forall|k: int| start <= k < end ==> !is_space(text[k]))
}

/// Whether some token of `text` equals some keyword of `kws`, both taken in
/// canonical form. An empty text has no tokens, so it matches no keyword set.
pub open spec fn text_matches(text: Seq<char>, kws: Seq<Seq<char>>) -> bool {
    text.len() > 0 && exists|a: int, b: int, k: int|
        #[trigger] is_token(text, a, b) && 0 <= k < kws.len() && canon(text.subrange(a, b))
            == canon(#[trigger] kws[k])
}

/// A token is determined by where it ends: two tokens of the same text with
/// the same end also share their start.
pub proof fn lemma_token_start_unique(text: Seq<char>, a1: int, a2: int, b: int)
    requires
        is_token(text, a1, b),
        is_token(text, a2, b),
    ensures
        a1 == a2,
{
    if a1 < a2 {
        assert(!is_space(text[a2 - 1]));
    } else if a2 < a1 {
        assert(!is_space(text[a1 - 1]));
    }
}

/// Relies on str::to_lowercase: the result depends on the characters alone.
#[verifier::external_body]
fn lowercase(s: &str) -> (r: String)
    ensures
        r@ == lower_of(s@),
{
    s.to_lowercase()
}

/// Strips trim characters from both ends of a word.
fn trim_word<'a>(w: &'a str) -> (r: &'a str)
    ensures
        r@ == trimmed(w@),
{
    let n = w.unicode_len();
    proof {
        assert(w@.subrange(0, n as int) =~= w@);
    }
    let mut a: usize = 0;
    while a < n && is_trim_char_exec(w.get_char(a))
        invariant
            0 <= a <= n,
            n == w@.len(),
            trim_front(w@) == trim_front(w@.subrange(a as int, n as int)),
        decreases n - a,
    {
        proof {
            let s = w@.subrange(a as int, n as int);
            assert(s[0] == w@[a as int]);
            assert(s.drop_first() =~= w@.subrange(a as int + 1, n as int));
        }
        a += 1;
    }
    proof {
        assert(w@.subrange(0, n as int) =~= w@);
        let s = w@.subrange(a as int, n as int);
        if a < n {
            assert(s[0] == w@[a as int]);
        }
        assert(trim_front(s) == s);
        assert(trim_front(w@) == w@.subrange(a as int, n as int));
    }
    let mut b: usize = n;
    while b > a && is_trim_char_exec(w.get_char(b - 1))
        invariant
            a <= b <= n,
            n == w@.len(),
            trim_front(w@) == w@.subrange(a as int, n as int),
            trim_back(w@.subrange(a as int, n as int)) == trim_back(
                w@.subrange(a as int, b as int),
            ),
        decreases b,
    {
        proof {
            let s = w@.subrange(a as int, b as int);
            assert(s.last() == w@[b as int - 1]);
            assert(s.drop_last() =~= w@.subrange(a as int, b as int - 1));
        }
        b -= 1;
    }
    proof {
        let s = w@.subrange(a as int, b as int);
        if b > a {
            assert(s.last() == w@[b as int - 1]);
        }
        assert(trim_back(s) == s);
        assert(trimmed(w@) == w@.subrange(a as int, b as int));
    }
    w.substring_char(a, b)
}

/// Executable twin of `is_space`.
fn is_space_exec(c: char) -> (r: bool)
    ensures
        r == is_space(c),
{
    c == ' ' || c == '\t' || c == '\n' || c == '\r'
}

/// Executable twin of `is_trim_char`.
fn is_trim_char_exec(c: char) -> (r: bool)
    ensures
        r == is_trim_char(c),
{
    is_space_exec(c) || c == ',' || c == '.'
}

/// The canonical form of one word: trimmed, then lowercased.
fn canon_word(w: &str) -> (r: String)
    ensures
        r@ == canon(w@),
{
    lowercase(trim_word(w))
}

/// Whether the canonical form of some keyword equals `word_canon`.
fn any_keyword_equals(word_canon: &String, keywords: &Vec<String>) -> (r: bool)
    ensures
        r == exists|k: int|
            0 <= k < keywords.deep_view().len() && word_canon@ == canon(
                #[trigger] keywords.deep_view()[k],
            ),
{
    let mut j: usize = 0;
    while j < keywords.len()
        invariant
            0 <= j <= keywords.len(),
            forall|k: int| 0 <= k < j ==> word_canon@ != canon(#[trigger] keywords.deep_view()[k]),
        decreases keywords.len() - j,
    {
        let kc = canon_word(keywords[j].as_str());
        proof {
            assert(keywords.deep_view()[j as int] == keywords@[j as int]@);
        }
        if *word_canon == kc {
            return true;
        }
        j += 1;
    }
    false
}

/// Whether some token of `text` equals some keyword, both in canonical form.
pub fn text_matches_keywords(text: &String, keywords: Vec<String>) -> (r: bool)
    ensures
        r == text_matches(text@, keywords.deep_view()),
{
    text_matches_keywords_ref(text, &keywords)
}

/// Borrowing form of `text_matches_keywords`, shared by the matching engine.
pub fn text_matches_keywords_ref(text: &String, keywords: &Vec<String>) -> (r: bool)
    ensures
        r == text_matches(text@, keywords.deep_view()),
{
    let s = text.as_str();
    let n = s.unicode_len();
    if n == 0 {
        return false;
    }
    let mut i: usize = 0;
    let mut start: usize = 0;
    while i < n
        invariant
            0 <= start <= i <= n,
            n == text@.len(),
            s@ == text@,
            n > 0,
            start == 0 || is_space(text@[start as int - 1]),
            forall|k: int| start <= k < i ==> !is_space(text@[k]),
            forall|a: int, b: int, k: int|
                #[trigger] is_token(text@, a, b) && b < i && 0 <= k < keywords.deep_view().len()
                    ==> canon(text@.subrange(a, b)) != canon(#[trigger] keywords.deep_view()[k]),
        decreases n - i,
    {
        if is_space_exec(s.get_char(i)) {
            let tok = s.substring_char(start, i);
            let c = canon_word(tok);
            proof {
                assert(is_token(text@, start as int, i as int));
            }
            if any_keyword_equals(&c, keywords) {
                return true;
            }
            proof {
                assert forall|a: int, b: int, k: int|
                    #[trigger] is_token(text@, a, b) && b < i + 1 && 0 <= k
                        < keywords.deep_view().len() implies canon(text@.subrange(a, b)) != canon(
                    #[trigger] keywords.deep_view()[k],
                ) by {
                    if b == i {
                        lemma_token_start_unique(text@, a, start as int, b);
                    }
                }
            }
            start = i + 1;
        } else {
            proof {
                assert forall|a: int, b: int, k: int|
                    #[trigger] is_token(text@, a, b) && b < i + 1 && 0 <= k
                        < keywords.deep_view().len() implies canon(text@.subrange(a, b)) != canon(
                    #[trigger] keywords.deep_view()[k],
                ) by {
                    assert(b != i);
                }
            }
        }
        i += 1;
    }
    let tok = s.substring_char(start, n);
    let c = canon_word(tok);
    proof {
        assert(is_token(text@, start as int, n as int));
    }
    if any_keyword_equals(&c, keywords) {
        return true;
    }
    proof {
        assert forall|a: int, b: int, k: int|
            #[trigger] is_token(text@, a, b) && 0 <= k < keywords.deep_view().len() implies canon(
            text@.subrange(a, b),
        ) != canon(#[trigger] keywords.deep_view()[k]) by {
            if b == n {
                lemma_token_start_unique(text@, a, start as int, b);
            }
        }
    }
    false
}

} // verus!
