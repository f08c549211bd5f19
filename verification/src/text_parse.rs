//! Finding and removing regions of text bounded by an opening and a closing
//! marker, with support for properly nested occurrences of the markers.
use vstd::prelude::*;
use vstd::string::StrSliceExecFns;
use vstd::string::StringExecFns;

verus! {

/// A span of matched text: the inclusive character range `[from, to]` of the
/// whole match (markers included), and the text strictly between the markers.
pub struct Match {
    pub from: usize,
    pub to: usize,
    pub content: String,
}

impl Match {
    /// Shift the span right by `length` characters, keeping the content.
    pub fn push(&mut self, length: usize)
        requires
            old(self).from + length <= usize::MAX,
            old(self).to + length <= usize::MAX,
        ensures
            final(self).from == old(self).from + length,
            final(self).to == old(self).to + length,
            final(self).content == old(self).content,
    {
        self.from = self.from + length;
        self.to = self.to + length;
    }
}

/// The pattern `pat` occurs in `text` starting at character position `i`.
pub open spec fn is_match_at(text: Seq<char>, pat: Seq<char>, i: int) -> bool {
    &&& 0 <= i
    &&& i + pat.len() <= text.len()
    &&& text.subrange(i, i + pat.len() as int) == pat
}

/// Position of the first occurrence of `pat` in `text` at or after `start`.
pub open spec fn spec_find_at(text: Seq<char>, pat: Seq<char>, start: int) -> Option<int>
    decreases text.len() - start,
{
    if start < 0 || start + pat.len() > text.len() {
        None
    } else if is_match_at(text, pat, start) {
        Some(start)
    } else if pat.len() == 0 {
        None
    } else {
        spec_find_at(text, pat, start + 1)
    }
}

pub proof fn lemma_find_at_props(text: Seq<char>, pat: Seq<char>, start: int)
    requires
        0 <= start,
    ensures
        match spec_find_at(text, pat, start) {
            Some(i) => is_match_at(text, pat, i) && start <= i && forall|j: int|
                start <= j < i ==> !is_match_at(text, pat, j),
            None => forall|j: int| start <= j ==> !is_match_at(text, pat, j),
        },
    decreases text.len() - start,
{
    if start + pat.len() > text.len() {
        assert forall|j: int| start <= j implies !is_match_at(text, pat, j) by {}
    } else if is_match_at(text, pat, start) {
    } else if pat.len() == 0 {
        assert(text.subrange(start, start) =~= pat);
        assert(false);
    } else {
        lemma_find_at_props(text, pat, start + 1);
    }
}

/// The first occurrence of `from_pat`, then the first occurrence of `to_pat`
/// after it; the result is the pair (start of `from_pat`, start of `to_pat`).
/// Nested occurrences are not tracked.
pub open spec fn spec_find_between(text: Seq<char>, from_pat: Seq<char>, to_pat: Seq<char>) -> Option<
    (int, int),
> {
    match spec_find_at(text, from_pat, 0) {
        None => None,
        Some(f) => match spec_find_at(text, to_pat, f + from_pat.len()) {
            None => None,
            Some(c) => Some((f, c)),
        },
    }
}

/// Whether `text` and `pat` agree on `pat`'s full length starting at `i`.
fn match_at(text: &str, tlen: usize, pat: &str, plen: usize, i: usize) -> (r: bool)
    requires
        tlen == text@.len(),
        plen == pat@.len(),
    ensures
        r == is_match_at(text@, pat@, i as int),
{
    if i > tlen || plen > tlen - i {
        return false;
    }
    let mut j: usize = 0;
    while j < plen
        invariant
            0 <= j <= plen,
            i + plen <= tlen,
            tlen == text@.len(),
            plen == pat@.len(),
            forall|k: int| 0 <= k < j ==> text@[i + k] == pat@[k],
        decreases plen - j,
    {
        if text.get_char(i + j) != pat.get_char(j) {
            assert(!is_match_at(text@, pat@, i as int)) by {
                assert(text@.subrange(i as int, i + plen as int)[j as int] == text@[i + j]);
            }
            return false;
        }
        j = j + 1;
    }
    assert(text@.subrange(i as int, i + plen as int) =~= pat@);
    true
}

/// Position of the first occurrence of `pat` in `text` at or after `start`.
fn find_at(text: &str, tlen: usize, pat: &str, plen: usize, start: usize) -> (r: Option<usize>)
    requires
        tlen == text@.len(),
        plen == pat@.len(),
        plen > 0,
    ensures
        match spec_find_at(text@, pat@, start as int) {
            Some(i) => r == Some(i as usize),
            None => r is None,
        },
{
    let mut i: usize = start;
    if i > tlen {
        return None;
    }
    while plen <= tlen - i
        invariant
            start <= i <= tlen,
            tlen == text@.len(),
            plen == pat@.len(),
            plen > 0,
            spec_find_at(text@, pat@, start as int) == spec_find_at(text@, pat@, i as int),
        decreases tlen - i,
    {
        if match_at(text, tlen, pat, plen, i) {
            return Some(i);
        }
        i = i + 1;
    }
    None
}

/// Finds the first occurrence of `from`, then the first occurrence of `to`
/// after it, and returns the inclusive span of the whole region together with
/// the text strictly between the two markers. Nesting is not tracked.
pub fn find_between(content: &str, from: &str, to: &str) -> (r: Option<Match>)
    requires
        from@.len() > 0,
        to@.len() > 0,
    ensures
        match spec_find_between(content@, from@, to@) {
            Some(fc) => r is Some && r->0.from == fc.0 && r->0.to == fc.1 + to@.len() - 1 && r->0.content@
                == content@.subrange(fc.0 + from@.len(), fc.1),
            None => r is None,
        },
{
    let clen = content.unicode_len();
    let flen = from.unicode_len();
    let tlen = to.unicode_len();
    let from_index = match find_at(content, clen, from, flen, 0) {
        Some(i) => i,
        None => {
            return None;
        },
    };
    proof {
        lemma_find_at_props(content@, from@, 0);
    }
    let search_start = from_index + flen;
    let to_index = match find_at(content, clen, to, tlen, search_start) {
        Some(i) => i,
        None => {
            return None;
        },
    };
    proof {
        lemma_find_at_props(content@, to@, search_start as int);
    }
    let inner = content.substring_char(search_start, to_index).to_owned();
    Some(Match { from: from_index, to: to_index + tlen - 1, content: inner })
}

/// One step of the left-to-right scan that pairs nested opening and closing
/// markers: a full occurrence of `open` at the cursor raises the depth (and is
/// consumed whole), a full occurrence of `close` after some opening lowers it,
/// and the scan ends where the depth first returns to zero. The result is the
/// pair (position of the first opening marker, position of the closing marker
/// that balances it).
pub open spec fn spec_scan(
    text: Seq<char>,
    open: Seq<char>,
    close: Seq<char>,
    i: int,
    depth: int,
    first: Option<int>,
) -> Option<(int, int)>
    decreases text.len() - i,
{
    if open.len() == 0 || close.len() == 0 || i < 0 || i >= text.len() {
        None
    } else if is_match_at(text, open, i) {
        let f = if first is None {
            Some(i)
        } else {
            first
        };
        spec_scan(text, open, close, i + open.len(), depth + 1, f)
    } else if first is Some && is_match_at(text, close, i) {
        if depth == 1 {
            Some((first->0, i))
        } else {
            spec_scan(text, open, close, i + close.len(), depth - 1, first)
        }
    } else {
        spec_scan(text, open, close, i + 1, depth, first)
    }
}

/// The first outermost properly nested region of `text`, as the pair
/// (start of the opening marker, start of the closing marker): found by the
/// depth-tracking scan when the markers differ, and by plain first-then-next
/// search when they are equal.
pub open spec fn spec_between(text: Seq<char>, open: Seq<char>, close: Seq<char>) -> Option<
    (int, int),
> {
    if open == close {
        spec_find_between(text, open, close)
    } else {
        spec_scan(text, open, close, 0, 0, None)
    }
}

pub proof fn lemma_scan_props(
    text: Seq<char>,
    open: Seq<char>,
    close: Seq<char>,
    i: int,
    depth: int,
    first: Option<int>,
)
    requires
        0 <= i,
        first is Some ==> 0 <= first->0 && first->0 + open.len() <= i && is_match_at(
            text,
            open,
            first->0,
        ),
    ensures
        match spec_scan(text, open, close, i, depth, first) {
            Some(fc) => {
                &&& is_match_at(text, open, fc.0)
                &&& is_match_at(text, close, fc.1)
                &&& 0 <= fc.0
                &&& fc.0 + open.len() <= fc.1
                &&& fc.1 + close.len() <= text.len()
                &&& (first is Some ==> fc.0 == first->0)
            },
            None => true,
        },
    decreases text.len() - i,
{
    if open.len() == 0 || close.len() == 0 || i < 0 || i >= text.len() {
    } else if is_match_at(text, open, i) {
        let f = if first is None {
            Some(i)
        } else {
            first
        };
        lemma_scan_props(text, open, close, i + open.len(), depth + 1, f);
    } else if first is Some && is_match_at(text, close, i) {
        if depth == 1 {
        } else {
            lemma_scan_props(text, open, close, i + close.len(), depth - 1, first);
        }
    } else {
        lemma_scan_props(text, open, close, i + 1, depth, first);
    }
}

/// Positions that hold no full occurrence of the opening marker are skipped
/// by the scan without any effect: closing markers there are ignored.
pub proof fn lemma_scan_skip(text: Seq<char>, open: Seq<char>, close: Seq<char>, i: int, k: int)
    requires
        0 <= i <= k,
        forall|j: int| i <= j < k ==> !is_match_at(text, open, j),
    ensures
        spec_scan(text, open, close, i, 0, None) == spec_scan(text, open, close, k, 0, None),
    decreases k - i,
{
    if i < k {
        if open.len() == 0 || close.len() == 0 {
            assert(spec_scan(text, open, close, i, 0, None) is None);
            assert(spec_scan(text, open, close, k, 0, None) is None);
        } else if i >= text.len() {
            assert(spec_scan(text, open, close, i, 0, None) is None);
            assert(spec_scan(text, open, close, k, 0, None) is None);
        } else {
            assert(!is_match_at(text, open, i));
            lemma_scan_skip(text, open, close, i + 1, k);
        }
    }
}

/// A text with no occurrence of the opening marker at or after the cursor
/// yields no match.
pub proof fn lemma_scan_no_open_none(text: Seq<char>, open: Seq<char>, close: Seq<char>, i: int)
    requires
        0 <= i,
        forall|j: int| i <= j ==> !is_match_at(text, open, j),
    ensures
        spec_scan(text, open, close, i, 0, None) is None,
    decreases text.len() - i,
{
    if open.len() == 0 || close.len() == 0 || i >= text.len() {
    } else {
        lemma_scan_no_open_none(text, open, close, i + 1);
    }
}

/// Closing markers before the first opening marker are ignored: the scan's
/// outcome is the outcome of scanning from the first opening marker on, and
/// a text with no opening marker at all yields no match.
pub proof fn lemma_closing_before_opening_ignored(
    text: Seq<char>,
    open: Seq<char>,
    close: Seq<char>,
)
    ensures
        match spec_find_at(text, open, 0) {
            Some(f) => spec_scan(text, open, close, 0, 0, None) == spec_scan(
                text,
                open,
                close,
                f,
                0,
                None,
            ),
            None => spec_scan(text, open, close, 0, 0, None) is None,
        },
{
    lemma_find_at_props(text, open, 0);
    match spec_find_at(text, open, 0) {
        Some(f) => {
            lemma_scan_skip(text, open, close, 0, f);
        },
        None => {
            lemma_scan_no_open_none(text, open, close, 0);
        },
    }
}

/// An opening marker with no closing marker anywhere after it yields no
/// match, however deep the nesting grows.
pub proof fn lemma_scan_no_close_none(
    text: Seq<char>,
    open: Seq<char>,
    close: Seq<char>,
    i: int,
    depth: int,
    first: Option<int>,
)
    requires
        0 <= i,
        forall|j: int| i <= j ==> !is_match_at(text, close, j),
    ensures
        spec_scan(text, open, close, i, depth, first) is None,
    decreases text.len() - i,
{
    if open.len() == 0 || close.len() == 0 || i >= text.len() {
    } else if is_match_at(text, open, i) {
        let f = if first is None {
            Some(i)
        } else {
            first
        };
        lemma_scan_no_close_none(text, open, close, i + open.len(), depth + 1, f);
    } else {
        lemma_scan_no_close_none(text, open, close, i + 1, depth, first);
    }
}

/// An unmatched opening marker — one with no closing marker at or after the
/// first opening marker's position — yields no match.
pub proof fn lemma_unmatched_opening_yields_no_match(
    text: Seq<char>,
    open: Seq<char>,
    close: Seq<char>,
)
    requires
        open.len() > 0,
        close.len() > 0,
        open != close,
        match spec_find_at(text, open, 0) {
            Some(f) => forall|j: int| f <= j ==> !is_match_at(text, close, j),
            None => true,
        },
    ensures
        spec_between(text, open, close) is None,
{
    lemma_closing_before_opening_ignored(text, open, close);
    match spec_find_at(text, open, 0) {
        Some(f) => {
            lemma_find_at_props(text, open, 0);
            assert(is_match_at(text, open, f));
            assert(spec_scan(text, open, close, f, 0, None) == spec_scan(
                text,
                open,
                close,
                f + open.len(),
                1,
                Some(f),
            ));
            lemma_scan_no_close_none(text, open, close, f + open.len(), 1, Some(f));
        },
        None => {},
    }
}

/// Compare two text slices character by character.
pub fn str_eq(a: &str, b: &str) -> (r: bool)
    ensures
        r == (a@ == b@),
{
    let alen = a.unicode_len();
    let blen = b.unicode_len();
    if alen != blen {
        return false;
    }
    let r = match_at(a, alen, b, blen, 0);
    proof {
        assert(a@.subrange(0, alen as int) =~= a@);
    }
    r
}

/// Finds the first outermost region bounded by `opening_pattern` and
/// `closing_pattern`. When the markers differ, every full occurrence of the
/// opening marker raises the nesting depth and every full occurrence of the
/// closing marker after the first opening lowers it; the match ends where the
/// depth returns to zero, and the inner content keeps nested occurrences
/// verbatim. A closing marker seen before any opening marker is ignored, and
/// an opening marker whose depth never returns to zero yields no match. Equal
/// markers fall back to plain first-then-next search.
pub fn between_connected_patterns(content: &str, opening_pattern: &str, closing_pattern: &str) -> (r:
    Option<Match>)
    requires
        opening_pattern@.len() > 0,
        closing_pattern@.len() > 0,
    ensures
        match spec_between(content@, opening_pattern@, closing_pattern@) {
            Some(fc) => r is Some && r->0.from == fc.0 && r->0.to == fc.1 + closing_pattern@.len()
                - 1 && r->0.content@ == content@.subrange(fc.0 + opening_pattern@.len(), fc.1),
            None => r is None,
        },
{
    if str_eq(opening_pattern, closing_pattern) {
        return find_between(content, opening_pattern, closing_pattern);
    }
    let clen = content.unicode_len();
    let olen = opening_pattern.unicode_len();
    let tlen = closing_pattern.unicode_len();
    let mut i: usize = 0;
    let mut depth: usize = 0;
    let mut first: Option<usize> = None;
    while i < clen
        invariant
            0 <= i,
            clen == content@.len(),
            olen == opening_pattern@.len(),
            tlen == closing_pattern@.len(),
            olen > 0,
            tlen > 0,
            depth <= i,
            first is Some <==> depth >= 1,
            first is Some ==> first->0 + olen <= i && is_match_at(
                content@,
                opening_pattern@,
                first->0 as int,
            ),
            spec_scan(content@, opening_pattern@, closing_pattern@, 0, 0, None) == spec_scan(
                content@,
                opening_pattern@,
                closing_pattern@,
                i as int,
                depth as int,
                if first is Some {
                    Some(first->0 as int)
                } else {
                    None
                },
            ),
        decreases clen - i,
    {
        if match_at(content, clen, opening_pattern, olen, i) {
            depth = depth + 1;
            if first.is_none() {
                first = Some(i);
            }
            i = i + olen;
        } else if first.is_some() && match_at(content, clen, closing_pattern, tlen, i) {
            if depth == 1 {
                let f = match first {
                    Some(f) => f,
                    None => {
                        return None;
                    },
                };
                let inner = content.substring_char(f + olen, i).to_owned();
                return Some(Match { from: f, to: i + tlen - 1, content: inner });
            }
            depth = depth - 1;
            i = i + tlen;
        } else {
            i = i + 1;
        }
    }
    None
}

/// Removes everything inclusively between the first occurrences of `from` and
/// `to` (markers included) and also returns the removed inner text, exclusive
/// of the markers.
pub fn remove_between(content: &str, from: &str, to: &str) -> (r: Option<(String, String)>)
    requires
        from@.len() > 0,
        to@.len() > 0,
    ensures
        match spec_find_between(content@, from@, to@) {
            Some(fc) => r is Some && (r->0).0@ == content@.subrange(0, fc.0) + content@.subrange(
                fc.1 + to@.len(),
                content@.len() as int,
            ) && (r->0).1@ == content@.subrange(fc.0 + from@.len(), fc.1),
            None => r is None,
        },
{
    let find = match find_between(content, from, to) {
        Some(find) => find,
        None => {
            return None;
        },
    };
    let clen = content.unicode_len();
    proof {
        lemma_find_at_props(content@, from@, 0);
        if spec_find_at(content@, from@, 0) is Some {
            let f = spec_find_at(content@, from@, 0)->0;
            lemma_find_at_props(content@, to@, f + from@.len());
        }
    }
    let mut changed = content.substring_char(0, find.from).to_owned();
    changed.append(content.substring_char(find.to + 1, clen));
    Some((changed, find.content))
}

} // verus!

verus! {

/// ASCII whitespace: space, tab, newline, carriage return.
pub open spec fn spec_is_space(c: char) -> bool {
    c == ' ' || c == '\t' || c == '\n' || c == '\r'
}

/// `s` without leading whitespace.
pub open spec fn spec_trim_start(s: Seq<char>) -> Seq<char>
    decreases s.len(),
{
    if s.len() > 0 && spec_is_space(s[0]) {
        spec_trim_start(s.drop_first())
    } else {
        s
    }
}

/// `s` without trailing whitespace.
pub open spec fn spec_trim_end(s: Seq<char>) -> Seq<char>
    decreases s.len(),
{
    if s.len() > 0 && spec_is_space(s.last()) {
        spec_trim_end(s.drop_last())
    } else {
        s
    }
}

/// `s` without leading and trailing whitespace.
pub open spec fn spec_trim(s: Seq<char>) -> Seq<char> {
    spec_trim_end(spec_trim_start(s))
}

proof fn lemma_trim_start_range(s: Seq<char>, a: int)
    requires
        0 <= a <= s.len(),
        forall|j: int| 0 <= j < a ==> spec_is_space(s[j]),
        a < s.len() ==> !spec_is_space(s[a]),
    ensures
        spec_trim_start(s) == s.subrange(a, s.len() as int),
    decreases a,
{
    if a == 0 {
        if s.len() > 0 && spec_is_space(s[0]) {
            assert(false);
        }
        assert(s.subrange(0, s.len() as int) =~= s);
    } else {
        assert(spec_is_space(s[0]));
        lemma_trim_start_range(s.drop_first(), a - 1);
        assert(s.drop_first().subrange(a - 1, s.drop_first().len() as int) =~= s.subrange(
            a,
            s.len() as int,
        ));
    }
}

proof fn lemma_trim_end_range(s: Seq<char>, b: int)
    requires
        0 <= b <= s.len(),
        forall|j: int| b <= j < s.len() ==> spec_is_space(s[j]),
        b > 0 ==> !spec_is_space(s[b - 1]),
    ensures
        spec_trim_end(s) == s.subrange(0, b),
    decreases s.len() - b,
{
    if b == s.len() {
        if s.len() > 0 && spec_is_space(s.last()) {
            assert(false);
        }
        assert(s.subrange(0, s.len() as int) =~= s);
    } else {
        assert(spec_is_space(s.last()));
        lemma_trim_end_range(s.drop_last(), b);
        assert(s.drop_last().subrange(0, b) =~= s.subrange(0, b));
    }
}

/// Whether `c` is ASCII whitespace.
fn is_space(c: char) -> (r: bool)
    ensures
        r == spec_is_space(c),
{
    c == ' ' || c == '\t' || c == '\n' || c == '\r'
}

/// Removes leading and trailing whitespace.
pub fn trim(s: &str) -> (r: String)
    ensures
        r@ == spec_trim(s@),
{
    let len = s.unicode_len();
    let mut a: usize = 0;
    while a < len && is_space(s.get_char(a))
        invariant
            0 <= a <= len,
            len == s@.len(),
            forall|j: int| 0 <= j < a ==> spec_is_space(s@[j]),
        decreases len - a,
    {
        a = a + 1;
    }
    proof {
        lemma_trim_start_range(s@, a as int);
    }
    let mut b: usize = len;
    while b > a && is_space(s.get_char(b - 1))
        invariant
            a <= b <= len,
            len == s@.len(),
            forall|j: int| b <= j < len ==> spec_is_space(s@[j]),
        decreases b,
    {
        b = b - 1;
    }
    let ghost start = spec_trim_start(s@);
    proof {
        assert(start.len() == len - a);
        assert forall|j: int| (b - a) <= j < start.len() implies spec_is_space(start[j]) by {
            assert(start[j] == s@[a + j]);
        }
        if b > a {
            assert(start[b - a - 1] == s@[b - 1]);
        }
        lemma_trim_end_range(start, b - a);
        assert(start.subrange(0, b - a) =~= s@.subrange(a as int, b as int));
    }
    s.substring_char(a, b).to_owned()
}

/// The pieces of `s` between occurrences of the separator: splitting on
/// every occurrence, keeping empty pieces. The result always holds at least
/// one piece.
pub open spec fn spec_split(s: Seq<char>, sep: char) -> Seq<Seq<char>>
    decreases s.len(),
{
    match spec_find_at(s, seq![sep], 0) {
        None => seq![s],
        Some(i) => if 0 <= i < s.len() {
            seq![s.subrange(0, i)] + spec_split(s.subrange(i + 1, s.len() as int), sep)
        } else {
            seq![s]
        },
    }
}

/// The views of a sequence of owned strings.
pub open spec fn strings_view(v: Seq<String>) -> Seq<Seq<char>> {
    Seq::new(v.len(), |i: int| v[i]@)
}

/// A single-character pattern occurs at `i` exactly when that character
/// stands at `i`.
pub proof fn lemma_single_char_match(s: Seq<char>, c: char, i: int)
    ensures
        is_match_at(s, seq![c], i) <==> (0 <= i < s.len() && s[i] == c),
{
    if 0 <= i < s.len() && s[i] == c {
        assert(s.subrange(i, i + 1) =~= seq![c]);
    }
    if is_match_at(s, seq![c], i) {
        assert(s.subrange(i, i + 1)[0] == s[i]);
    }
}

/// When the pattern occurs at `k` and nowhere earlier (at or after `start`),
/// the search finds `k`.
pub proof fn lemma_find_at_first(text: Seq<char>, pat: Seq<char>, start: int, k: int)
    requires
        0 <= start <= k,
        is_match_at(text, pat, k),
        forall|j: int| start <= j < k ==> !is_match_at(text, pat, j),
    ensures
        spec_find_at(text, pat, start) == Some(k),
    decreases k - start,
{
    if start == k {
    } else {
        assert(!is_match_at(text, pat, start));
        assert(start + pat.len() <= text.len());
        if pat.len() == 0 {
            assert(text.subrange(start, start) =~= pat);
            assert(false);
        }
        lemma_find_at_first(text, pat, start + 1, k);
    }
}

/// Splits `s` on every occurrence of `sep`, keeping empty pieces.
pub fn split_char(s: &str, sep: char) -> (r: Vec<String>)
    ensures
        strings_view(r@) == spec_split(s@, sep),
        r@.len() > 0,
{
    let len = s.unicode_len();
    let mut out: Vec<String> = Vec::new();
    let mut start: usize = 0;
    let mut i: usize = 0;
    proof {
        assert(s@.subrange(0, len as int) =~= s@);
        assert(strings_view(out@) + spec_split(s@, sep) =~= spec_split(s@, sep));
    }
    while i < len
        invariant
            0 <= start <= i <= len,
            len == s@.len(),
            forall|j: int| start <= j < i ==> s@[j] != sep,
            spec_split(s@, sep) == strings_view(out@) + spec_split(
                s@.subrange(start as int, len as int),
                sep,
            ),
        decreases len - i,
    {
        if s.get_char(i) == sep {
            let piece = s.substring_char(start, i).to_owned();
            proof {
                let tail = s@.subrange(start as int, len as int);
                assert forall|j: int| 0 <= j < i - start implies !is_match_at(
                    tail,
                    seq![sep],
                    j,
                ) by {
                    lemma_single_char_match(tail, sep, j);
                    assert(tail[j] == s@[start + j]);
                }
                assert(tail[i - start] == s@[i as int]);
                lemma_single_char_match(tail, sep, i - start);
                lemma_find_at_first(tail, seq![sep], 0, i - start);
                assert(tail.subrange(0, i - start) =~= s@.subrange(start as int, i as int));
                assert(tail.subrange(i - start + 1, tail.len() as int) =~= s@.subrange(
                    i + 1,
                    len as int,
                ));
                assert(strings_view(out@.push(piece)) =~= strings_view(out@) + seq![piece@]);
                assert(strings_view(out@) + (seq![piece@] + spec_split(
                    s@.subrange(i + 1, len as int),
                    sep,
                )) =~= strings_view(out@.push(piece)) + spec_split(
                    s@.subrange(i + 1, len as int),
                    sep,
                ));
            }
            out.push(piece);
            start = i + 1;
        }
        i = i + 1;
    }
    let piece = s.substring_char(start, len).to_owned();
    proof {
        let tail = s@.subrange(start as int, len as int);
        assert forall|j: int| 0 <= j < tail.len() implies !is_match_at(tail, seq![sep], j) by {
            lemma_single_char_match(tail, sep, j);
            assert(tail[j] == s@[start + j]);
        }
        lemma_find_at_props(tail, seq![sep], 0);
        if spec_find_at(tail, seq![sep], 0) is Some {
            assert(false);
        }
        assert(strings_view(out@.push(piece)) =~= strings_view(out@) + seq![piece@]);
        assert(piece@ == tail);
    }
    out.push(piece);
    out
}

/// Replaces the character range `[from, to_excl)` of `content` with
/// `replacement`.
pub fn splice(content: &str, from: usize, to_excl: usize, replacement: &str) -> (r: String)
    requires
        from <= to_excl <= content@.len(),
    ensures
        r@ == content@.subrange(0, from as int) + replacement@ + content@.subrange(
            to_excl as int,
            content@.len() as int,
        ),
{
    let len = content.unicode_len();
    let mut out = content.substring_char(0, from).to_owned();
    out.append(replacement);
    out.append(content.substring_char(to_excl, len));
    out
}

} // verus!

verus! {

/// `s` ends with `suffix`.
pub open spec fn spec_ends_with(s: Seq<char>, suffix: Seq<char>) -> bool {
    s.len() >= suffix.len() && s.subrange(s.len() - suffix.len(), s.len() as int) == suffix
}

/// Whether `s` ends with `suffix`.
pub fn ends_with(s: &str, suffix: &str) -> (r: bool)
    ensures
        r == spec_ends_with(s@, suffix@),
{
    let slen = s.unicode_len();
    let plen = suffix.unicode_len();
    if plen > slen {
        return false;
    }
    match_at(s, slen, suffix, plen, slen - plen)
}

} // verus!

verus! {

/// `s` without its leading occurrences of `c`.
pub open spec fn spec_trim_leading(s: Seq<char>, c: char) -> Seq<char>
    decreases s.len(),
{
    if s.len() > 0 && s[0] == c {
        spec_trim_leading(s.drop_first(), c)
    } else {
        s
    }
}

proof fn lemma_trim_leading_range(s: Seq<char>, c: char, a: int)
    requires
        0 <= a <= s.len(),
        forall|j: int| 0 <= j < a ==> s[j] == c,
        a < s.len() ==> s[a] != c,
    ensures
        spec_trim_leading(s, c) == s.subrange(a, s.len() as int),
    decreases a,
{
    if a == 0 {
        assert(s.subrange(0, s.len() as int) =~= s);
    } else {
        lemma_trim_leading_range(s.drop_first(), c, a - 1);
        assert(s.drop_first().subrange(a - 1, s.drop_first().len() as int) =~= s.subrange(
            a,
            s.len() as int,
        ));
    }
}

/// Removes every leading occurrence of `c`.
pub fn trim_leading(s: &str, c: char) -> (r: String)
    ensures
        r@ == spec_trim_leading(s@, c),
{
    let len = s.unicode_len();
    let mut a: usize = 0;
    while a < len && s.get_char(a) == c
        invariant
            0 <= a <= len,
            len == s@.len(),
            forall|j: int| 0 <= j < a ==> s@[j] == c,
        decreases len - a,
    {
        a = a + 1;
    }
    proof {
        lemma_trim_leading_range(s@, c, a as int);
    }
    s.substring_char(a, len).to_owned()
}

} // verus!

verus! {

/// A pattern occurs in a window of `text` exactly when it occurs at the
/// corresponding position of the whole text and fits inside the window.
pub proof fn lemma_match_in_subrange(text: Seq<char>, a: int, b: int, pat: Seq<char>, j: int)
    requires
        0 <= a <= b <= text.len(),
    ensures
        is_match_at(text.subrange(a, b), pat, j) <==> (0 <= j && j + pat.len() <= b - a
            && is_match_at(text, pat, a + j)),
{
    if 0 <= j && j + pat.len() <= b - a {
        assert(text.subrange(a, b).subrange(j, j + pat.len() as int) =~= text.subrange(
            a + j,
            a + j + pat.len() as int,
        ));
    }
}

/// The pieces of `s` between non-overlapping occurrences of the separator
/// pattern, scanning left to right and keeping empty pieces. The result
/// always holds at least one piece.
pub open spec fn spec_split_pat(s: Seq<char>, sep: Seq<char>) -> Seq<Seq<char>>
    decreases s.len(),
{
    if sep.len() == 0 {
        seq![s]
    } else {
        match spec_find_at(s, sep, 0) {
            None => seq![s],
            Some(i) => if 0 <= i && i + sep.len() <= s.len() {
                seq![s.subrange(0, i)] + spec_split_pat(
                    s.subrange(i + sep.len(), s.len() as int),
                    sep,
                )
            } else {
                seq![s]
            },
        }
    }
}

/// Splits `s` on every non-overlapping occurrence of `sep`, keeping empty
/// pieces.
#[verifier::loop_isolation(false)]
pub fn split_str(s: &str, sep: &str) -> (r: Vec<String>)
    requires
        sep@.len() > 0,
    ensures
        strings_view(r@) == spec_split_pat(s@, sep@),
        r@.len() > 0,
{
    let len = s.unicode_len();
    let seplen = sep.unicode_len();
    let mut out: Vec<String> = Vec::new();
    let mut start: usize = 0;
    let mut i: usize = 0;
    proof {
        assert(s@.subrange(0, len as int) =~= s@);
        assert(strings_view(out@) + spec_split_pat(s@, sep@) =~= spec_split_pat(s@, sep@));
    }
    while i < len
        invariant
            0 <= start <= i <= len,
            forall|j: int| start <= j < i ==> !is_match_at(s@, sep@, j),
            spec_split_pat(s@, sep@) == strings_view(out@) + spec_split_pat(
                s@.subrange(start as int, len as int),
                sep@,
            ),
        decreases len - i,
    {
        if match_at(s, len, sep, seplen, i) {
            let piece = s.substring_char(start, i).to_owned();
            proof {
                let tail = s@.subrange(start as int, len as int);
                assert forall|j: int| 0 <= j < i - start implies !is_match_at(tail, sep@, j) by {
                    lemma_match_in_subrange(s@, start as int, len as int, sep@, j);
                }
                lemma_match_in_subrange(s@, start as int, len as int, sep@, i - start);
                lemma_find_at_first(tail, sep@, 0, i - start);
                assert(tail.subrange(0, i - start) =~= s@.subrange(start as int, i as int));
                assert(tail.subrange(i - start + seplen, tail.len() as int) =~= s@.subrange(
                    i + seplen,
                    len as int,
                ));
                assert(strings_view(out@.push(piece)) =~= strings_view(out@) + seq![piece@]);
                assert(strings_view(out@) + (seq![piece@] + spec_split_pat(
                    s@.subrange(i + seplen, len as int),
                    sep@,
                )) =~= strings_view(out@.push(piece)) + spec_split_pat(
                    s@.subrange(i + seplen, len as int),
                    sep@,
                ));
            }
            out.push(piece);
            start = i + seplen;
            i = start;
        } else {
            i = i + 1;
        }
    }
    let piece = s.substring_char(start, len).to_owned();
    proof {
        let tail = s@.subrange(start as int, len as int);
        assert forall|j: int| 0 <= j implies !is_match_at(tail, sep@, j) by {
            if 0 <= j && j + sep@.len() <= tail.len() {
                lemma_match_in_subrange(s@, start as int, len as int, sep@, j);
            }
        }
        lemma_find_at_props(tail, sep@, 0);
        if spec_find_at(tail, sep@, 0) is Some {
            assert(false);
        }
        assert(strings_view(out@.push(piece)) =~= strings_view(out@) + seq![piece@]);
        assert(piece@ == tail);
    }
    out.push(piece);
    out
}

} // verus!
