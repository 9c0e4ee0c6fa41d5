//! Text as sequences of characters: searching, splitting, trimming and
//! formatting, shared by the scoring, routing and parsing code.

use vstd::prelude::*;

verus! {

/// `String::push` appends one character to the end of the string.
pub assume_specification[ String::push ](s: &mut String, c: char)
    ensures
        final(s)@ == old(s)@.push(c),
;

/// Whether `c` is a letter or a digit in the sense of Unicode.
pub uninterp spec fn spec_alphanumeric(c: char) -> bool;

/// Whether `c` has the Unicode property `White_Space`: the controls from
/// tabulator to carriage return, the space, next line, the no-break space,
/// the Ogham space mark, the spaces from en quad to hair space, the line
/// and paragraph separators, the narrow no-break space, the medium
/// mathematical space and the ideographic space.
pub open spec fn spec_whitespace(c: char) -> bool {
    let n = c as u32;
    ||| 0x09 <= n <= 0x0d
    ||| n == 0x20
    ||| n == 0x85
    ||| n == 0xa0
    ||| n == 0x1680
    ||| 0x2000 <= n <= 0x200a
    ||| n == 0x2028
    ||| n == 0x2029
    ||| n == 0x202f
    ||| n == 0x205f
    ||| n == 0x3000
}

/// Whether `c` is a control code (Unicode general category `Cc`): below the
/// space, or from delete to the end of the second control block.
pub open spec fn spec_control(c: char) -> bool {
    let n = c as u32;
    n <= 0x1f || 0x7f <= n <= 0x9f
}

/// The lowercase form of `s` as Unicode defines it for a text.
pub uninterp spec fn spec_lowercase(s: Seq<char>) -> Seq<char>;

/// `char::is_alphanumeric` depends on the character alone; the Unicode tables
/// that it consults are not restated here.
pub assume_specification[ char::is_alphanumeric ](c: char) -> (r: bool)
    ensures
        r == spec_alphanumeric(c),
;

/// Whether `c` has the Unicode property `White_Space`.
pub fn char_is_whitespace(c: char) -> (r: bool)
    ensures
        r == spec_whitespace(c),
{
    let n: u32 = c as u32;
    (0x09 <= n && n <= 0x0d) || n == 0x20 || n == 0x85 || n == 0xa0 || n == 0x1680 || (0x2000 <= n
        && n <= 0x200a) || n == 0x2028 || n == 0x2029 || n == 0x202f || n == 0x205f || n == 0x3000
}

/// Whether `c` is a control code.
pub fn char_is_control(c: char) -> (r: bool)
    ensures
        r == spec_control(c),
{
    let n: u32 = c as u32;
    n <= 0x1f || (0x7f <= n && n <= 0x9f)
}

/// `str::to_lowercase` depends on the characters of the string alone.
pub assume_specification[ str::to_lowercase ](s: &str) -> (r: String)
    ensures
        r@ == spec_lowercase(s@),
;

/// How the `Debug` format writes a string: between double quotes, with escapes.
pub uninterp spec fn debug_quoted(s: Seq<char>) -> Seq<char>;

/// The `Debug` rendering of `s`, as `format!("{:?}", s)` gives it. The
/// contract only names the result: the escaping rules are those of the
/// standard library.
#[verifier::external_body]
pub(crate) fn debug_quoted_string(s: &str) -> (r: String)
    ensures
        r@ == debug_quoted(s@),
{
    format!("{:?}", s)
}

/// The characters of `s`, in order.
pub fn chars_of(s: &str) -> (v: Vec<char>)
    ensures
        v@ == s@,
{
    let mut v: Vec<char> = Vec::new();
    for c in it: s.chars()
        invariant
            v@ == it.seq().take(it.index()),
            it.seq() == s@,
    {
        v.push(c);
    }
    v
}

/// The string made of the characters of `v`, in order.
pub fn string_of(v: &Vec<char>) -> (s: String)
    ensures
        s@ == v@,
{
    let mut s = String::new();
    let mut i: usize = 0;
    while i < v.len()
        invariant
            i <= v.len(),
            s@ == v@.take(i as int),
        decreases v.len() - i,
    {
        s.push(v[i]);
        i += 1;
        assert(v@.take(i as int) == v@.take(i - 1).push(v@[i - 1]));
    }
    assert(v@.take(v.len() as int) == v@);
    s
}

/// A copy of `v` with the same strings in the same order.
pub fn clone_strings(v: &Vec<String>) -> (r: Vec<String>)
    ensures
        r.deep_view() == v.deep_view(),
{
    let mut r: Vec<String> = Vec::new();
    let mut i: usize = 0;
    while i < v.len()
        invariant
            i <= v.len(),
            r.len() == i,
            forall|k: int| 0 <= k < i ==> r@[k]@ == v@[k]@,
        decreases v.len() - i,
    {
        r.push(v[i].clone());
        i += 1;
    }
    assert(r.deep_view() =~= v.deep_view());
    r
}

/// A copy of an optional string.
pub fn clone_optional_string(s: &Option<String>) -> (r: Option<String>)
    ensures
        r.deep_view() == s.deep_view(),
{
    match s {
        Some(text) => Some(text.clone()),
        None => None,
    }
}

/// `needle` occurs in `hay` at index `at`.
pub open spec fn matches_at(hay: Seq<char>, needle: Seq<char>, at: int) -> bool {
    &&& 0 <= at
    &&& at + needle.len() <= hay.len()
    &&& hay.subrange(at, at + needle.len()) == needle
}

/// `needle` occurs somewhere in `hay`.
pub open spec fn spec_contains(hay: Seq<char>, needle: Seq<char>) -> bool {
    exists|at: int| matches_at(hay, needle, at)
}

/// The index of the first occurrence of `needle` in `hay` at or after `from`.
pub open spec fn spec_find(hay: Seq<char>, needle: Seq<char>, from: int) -> Option<int>
    decreases hay.len() + 1 - from,
{
    if from < 0 || from + needle.len() > hay.len() {
        None
    } else if matches_at(hay, needle, from) {
        Some(from)
    } else {
        spec_find(hay, needle, from + 1)
    }
}

/// `spec_find` gives the first occurrence at or after `from`, and `None` only
/// where there is none.
pub proof fn lemma_find_is_first(hay: Seq<char>, needle: Seq<char>, from: int)
    requires
        0 <= from,
    ensures
        match spec_find(hay, needle, from) {
            Some(at) => {
                &&& from <= at
                &&& matches_at(hay, needle, at)
                &&& forall|k: int| from <= k < at ==> !matches_at(hay, needle, k)
            },
            None => forall|k: int| from <= k ==> !matches_at(hay, needle, k),
        },
    decreases hay.len() + 1 - from,
{
    if from + needle.len() > hay.len() {
    } else if matches_at(hay, needle, from) {
    } else {
        lemma_find_is_first(hay, needle, from + 1);
    }
}

/// Something is found from the start exactly where the needle occurs.
pub proof fn lemma_find_iff_contains(hay: Seq<char>, needle: Seq<char>)
    ensures
        spec_find(hay, needle, 0) is Some <==> spec_contains(hay, needle),
{
    lemma_find_is_first(hay, needle, 0);
}

/// Whether `needle` occurs in `hay` at index `at`.
pub fn occurs_at(hay: &Vec<char>, needle: &Vec<char>, at: usize) -> (r: bool)
    ensures
        r == matches_at(hay@, needle@, at as int),
{
    if needle.len() > hay.len() || at > hay.len() - needle.len() {
        return false;
    }
    let mut k: usize = 0;
    while k < needle.len()
        invariant
            k <= needle.len(),
            at + needle.len() <= hay.len(),
            forall|j: int| 0 <= j < k ==> hay@[at + j] == needle@[j],
        decreases needle.len() - k,
    {
        if hay[at + k] != needle[k] {
            assert(hay@.subrange(at as int, at + needle.len())[k as int] == hay@[at + k]);
            return false;
        }
        k += 1;
    }
    assert(hay@.subrange(at as int, at + needle.len()) =~= needle@);
    true
}

/// The index of the first occurrence of `needle` in `hay` at or after `from`.
pub fn find_from(hay: &Vec<char>, needle: &Vec<char>, from: usize) -> (r: Option<usize>)
    ensures
        match r {
            Some(at) => spec_find(hay@, needle@, from as int) == Some(at as int),
            None => spec_find(hay@, needle@, from as int) is None,
        },
{
    if needle.len() > hay.len() || from > hay.len() - needle.len() {
        return None;
    }
    let last: usize = hay.len() - needle.len();
    let mut at: usize = from;
    while at < last
        invariant
            from <= at <= last,
            last == hay.len() - needle.len(),
            spec_find(hay@, needle@, from as int) == spec_find(hay@, needle@, at as int),
        decreases last - at,
    {
        if occurs_at(hay, needle, at) {
            return Some(at);
        }
        at += 1;
    }
    if occurs_at(hay, needle, at) {
        Some(at)
    } else {
        assert(spec_find(hay@, needle@, at + 1) is None);
        None
    }
}

/// Whether `needle` occurs in `hay`.
pub fn contains(hay: &str, needle: &str) -> (r: bool)
    ensures
        r == spec_contains(hay@, needle@),
{
    proof {
        lemma_find_iff_contains(hay@, needle@);
    }
    find_from(&chars_of(hay), &chars_of(needle), 0).is_some()
}

/// `prefix` is the beginning of `s`.
pub open spec fn spec_starts_with(s: Seq<char>, prefix: Seq<char>) -> bool {
    matches_at(s, prefix, 0)
}

/// Whether `s` begins with `prefix`.
pub fn starts_with(s: &str, prefix: &str) -> (r: bool)
    ensures
        r == spec_starts_with(s@, prefix@),
{
    occurs_at(&chars_of(s), &chars_of(prefix), 0)
}

/// The length of the longest prefix of `s` without whitespace.
pub open spec fn spec_word_len(s: Seq<char>) -> int
    decreases s.len(),
{
    if s.len() == 0 || spec_whitespace(s[0]) {
        0
    } else {
        1 + spec_word_len(s.drop_first())
    }
}

/// The maximal runs of characters of `s` that hold no whitespace, in order.
pub open spec fn spec_words(s: Seq<char>) -> Seq<Seq<char>>
    decreases s.len(),
{
    if s.len() == 0 {
        Seq::empty()
    } else if spec_whitespace(s[0]) {
        spec_words(s.drop_first())
    } else {
        let n = spec_word_len(s);
        if 0 < n <= s.len() {
            seq![s.take(n)] + spec_words(s.skip(n))
        } else {
            Seq::empty()
        }
    }
}

/// The words joined by `sep`.
pub open spec fn spec_join(words: Seq<Seq<char>>, sep: Seq<char>) -> Seq<char>
    decreases words.len(),
{
    if words.len() == 0 {
        Seq::empty()
    } else if words.len() == 1 {
        words[0]
    } else {
        spec_join(words.drop_last(), sep) + sep + words.last()
    }
}

/// `s` without its leading whitespace.
pub open spec fn spec_trim_start(s: Seq<char>) -> Seq<char>
    decreases s.len(),
{
    if s.len() > 0 && spec_whitespace(s[0]) {
        spec_trim_start(s.drop_first())
    } else {
        s
    }
}

/// `s` without its trailing whitespace.
pub open spec fn spec_trim_end(s: Seq<char>) -> Seq<char>
    decreases s.len(),
{
    if s.len() > 0 && spec_whitespace(s.last()) {
        spec_trim_end(s.drop_last())
    } else {
        s
    }
}

/// `s` without leading and trailing whitespace.
pub open spec fn spec_trim(s: Seq<char>) -> Seq<char> {
    spec_trim_end(spec_trim_start(s))
}

/// A word is at least one character long where the text begins without whitespace.
pub proof fn lemma_word_len_bounds(s: Seq<char>)
    ensures
        0 <= spec_word_len(s) <= s.len(),
        s.len() > 0 && !spec_whitespace(s[0]) ==> spec_word_len(s) >= 1,
        forall|k: int| 0 <= k < spec_word_len(s) ==> !spec_whitespace(#[trigger] s[k]),
        spec_word_len(s) < s.len() ==> spec_whitespace(s[spec_word_len(s)]),
    decreases s.len(),
{
    if s.len() == 0 || spec_whitespace(s[0]) {
    } else {
        let rest = s.drop_first();
        lemma_word_len_bounds(rest);
        assert forall|k: int| 0 <= k < spec_word_len(s) implies !spec_whitespace(
            #[trigger] s[k],
        ) by {
            if k > 0 {
                assert(s[k] == rest[k - 1]);
            }
        }
        if spec_word_len(s) < s.len() {
            assert(s[spec_word_len(s)] == rest[spec_word_len(rest)]);
        }
    }
}

/// The word that begins at `from` reaches as far as there is no whitespace.
proof fn lemma_word_len_step(s: Seq<char>, from: int, to: int)
    requires
        0 <= from <= to <= s.len(),
        forall|k: int| from <= k < to ==> !spec_whitespace(#[trigger] s[k]),
    ensures
        spec_word_len(s.skip(from)) == (to - from) + spec_word_len(s.skip(to)),
    decreases to - from,
{
    if from < to {
        assert(s.skip(from).len() > 0);
        assert(s.skip(from)[0] == s[from]);
        assert(s.skip(from).drop_first() =~= s.skip(from + 1));
        lemma_word_len_step(s, from + 1, to);
    }
}

/// The maximal runs of characters without whitespace, in order.
pub fn split_words(chars: &Vec<char>) -> (r: Vec<Vec<char>>)
    ensures
        r.deep_view() == spec_words(chars@),
        forall|k: int| 0 <= k < r.len() ==> (#[trigger] r@[k]).len() > 0,
{
    let mut words: Vec<Vec<char>> = Vec::new();
    let mut i: usize = 0;
    assert(chars@.skip(0) =~= chars@);
    assert(words.deep_view() =~= Seq::<Seq<char>>::empty());
    while i < chars.len()
        invariant
            i <= chars.len(),
            spec_words(chars@) == words.deep_view() + spec_words(chars@.skip(i as int)),
            forall|k: int| 0 <= k < words.len() ==> (#[trigger] words@[k]).len() > 0,
        decreases chars.len() - i,
    {
        let ghost rest = chars@.skip(i as int);
        assert(rest[0] == chars@[i as int]);
        if char_is_whitespace(chars[i]) {
            assert(rest.drop_first() =~= chars@.skip(i + 1));
            i += 1;
        } else {
            let start: usize = i;
            let mut word: Vec<char> = Vec::new();
            while i < chars.len() && !char_is_whitespace(chars[i])
                invariant
                    start <= i <= chars.len(),
                    word@ == chars@.subrange(start as int, i as int),
                    forall|k: int| start <= k < i ==> !spec_whitespace(#[trigger] chars@[k]),
                decreases chars.len() - i,
            {
                word.push(chars[i]);
                i += 1;
                assert(word@ =~= chars@.subrange(start as int, i as int));
            }
            proof {
                lemma_word_len_step(chars@, start as int, i as int);
                lemma_word_len_bounds(chars@.skip(i as int));
                if i < chars.len() {
                    assert(chars@.skip(i as int)[0] == chars@[i as int]);
                }
                assert(spec_word_len(chars@.skip(i as int)) == 0);
                assert(spec_word_len(rest) == i - start);
                assert(rest.take(i - start) =~= word@);
                assert(rest.skip(i - start) =~= chars@.skip(i as int));
            }
            let ghost before = words.deep_view();
            assert(word.deep_view() =~= word@);
            words.push(word);
            assert(words.deep_view() =~= before + seq![word@]);
        }
    }
    assert(chars@.skip(chars.len() as int) =~= Seq::<char>::empty());
    words
}

/// The words joined by `sep`.
pub fn join_words(words: &Vec<Vec<char>>, sep: &Vec<char>) -> (r: Vec<char>)
    ensures
        r@ == spec_join(words.deep_view(), sep@),
{
    let mut out: Vec<char> = Vec::new();
    let mut i: usize = 0;
    let ghost views = words.deep_view();
    assert(views.take(0) =~= Seq::<Seq<char>>::empty());
    while i < words.len()
        invariant
            i <= words.len(),
            views == words.deep_view(),
            out@ == spec_join(views.take(i as int), sep@),
        decreases words.len() - i,
    {
        let ghost before = out@;
        if i > 0 {
            append_chars(&mut out, sep);
        }
        append_chars(&mut out, &words[i]);
        proof {
            let now = views.take(i + 1);
            assert(now.drop_last() =~= views.take(i as int));
            assert(now.last() == words@[i as int]@);
            if i == 0 {
                assert(out@ =~= words@[0]@);
            }
        }
        i += 1;
    }
    assert(views.take(words.len() as int) =~= views);
    out
}

/// Appends the characters of `tail` to `out`.
pub fn append_chars(out: &mut Vec<char>, tail: &Vec<char>)
    ensures
        final(out)@ == old(out)@ + tail@,
{
    let mut i: usize = 0;
    while i < tail.len()
        invariant
            i <= tail.len(),
            out@ == old(out)@ + tail@.take(i as int),
        decreases tail.len() - i,
    {
        out.push(tail[i]);
        i += 1;
        assert(out@ =~= old(out)@ + tail@.take(i as int));
    }
    assert(tail@.take(tail.len() as int) =~= tail@);
}

/// The characters of `chars` from `from` up to `to`.
pub fn slice_chars(chars: &Vec<char>, from: usize, to: usize) -> (r: Vec<char>)
    requires
        from <= to <= chars.len(),
    ensures
        r@ == chars@.subrange(from as int, to as int),
{
    let mut out: Vec<char> = Vec::new();
    let mut i: usize = from;
    while i < to
        invariant
            from <= i <= to <= chars.len(),
            out@ == chars@.subrange(from as int, i as int),
        decreases to - i,
    {
        out.push(chars[i]);
        i += 1;
        assert(out@ =~= chars@.subrange(from as int, i as int));
    }
    out
}

/// `chars` without leading and trailing whitespace.
pub fn trim_chars(chars: &Vec<char>) -> (r: Vec<char>)
    ensures
        r@ == spec_trim(chars@),
{
    let mut start: usize = 0;
    assert(chars@.skip(0) =~= chars@);
    while start < chars.len() && char_is_whitespace(chars[start])
        invariant
            start <= chars.len(),
            spec_trim_start(chars@) == spec_trim_start(chars@.skip(start as int)),
        decreases chars.len() - start,
    {
        assert(chars@.skip(start as int)[0] == chars@[start as int]);
        assert(chars@.skip(start as int).drop_first() =~= chars@.skip(start + 1));
        start += 1;
    }
    proof {
        if start < chars.len() {
            assert(chars@.skip(start as int)[0] == chars@[start as int]);
        }
        assert(spec_trim_start(chars@) == chars@.skip(start as int));
    }
    let ghost body = chars@.skip(start as int);
    let mut end: usize = chars.len();
    assert(chars@.subrange(start as int, end as int) =~= body);
    while end > start && char_is_whitespace(chars[end - 1])
        invariant
            start <= end <= chars.len(),
            spec_trim_end(body) == spec_trim_end(chars@.subrange(start as int, end as int)),
        decreases end - start,
    {
        assert(chars@.subrange(start as int, end as int).last() == chars@[end - 1]);
        assert(chars@.subrange(start as int, end as int).drop_last() =~= chars@.subrange(
            start as int,
            end - 1,
        ));
        end -= 1;
    }
    proof {
        if end > start {
            assert(chars@.subrange(start as int, end as int).last() == chars@[end - 1]);
        }
    }
    slice_chars(chars, start, end)
}

/// The index of the first occurrence of `needle` at or after `from`, or the
/// length of `hay` where there is none.
pub open spec fn spec_find_or_end(hay: Seq<char>, needle: Seq<char>, from: int) -> int {
    match spec_find(hay, needle, from) {
        Some(at) => at,
        None => hay.len() as int,
    }
}

/// What follows each occurrence of the separator `sep` at or after `from`,
/// up to the next occurrence or the end. Occurrences are taken from left to
/// right and do not overlap.
pub open spec fn spec_sections(hay: Seq<char>, sep: Seq<char>, from: int) -> Seq<Seq<char>>
    decreases hay.len() - from,
{
    if sep.len() == 0 || from < 0 {
        Seq::empty()
    } else {
        match spec_find(hay, sep, from) {
            Some(at) => if from <= at && at + sep.len() <= hay.len() {
                let start = at + sep.len();
                seq![hay.subrange(start, spec_find_or_end(hay, sep, start))] + spec_sections(
                    hay,
                    sep,
                    start,
                )
            } else {
                Seq::empty()
            },
            None => Seq::empty(),
        }
    }
}

/// What stands between each occurrence of `marker` at or after `from` and
/// the next occurrence of `closer` behind it; an occurrence of the marker
/// that no closer follows gives nothing.
pub open spec fn spec_enclosed(hay: Seq<char>, marker: Seq<char>, closer: Seq<char>, from: int) -> Seq<
    Seq<char>,
>
    decreases hay.len() - from,
{
    if marker.len() == 0 || from < 0 {
        Seq::empty()
    } else {
        match spec_find(hay, marker, from) {
            Some(at) => if from <= at && at + marker.len() <= hay.len() {
                let start = at + marker.len();
                let rest = spec_enclosed(hay, marker, closer, start);
                match spec_find(hay, closer, start) {
                    Some(end) => seq![hay.subrange(start, end)] + rest,
                    None => rest,
                }
            } else {
                Seq::empty()
            },
            None => Seq::empty(),
        }
    }
}

/// What follows each occurrence of `sep`, up to the next or the end.
pub fn sections(hay: &Vec<char>, sep: &Vec<char>) -> (r: Vec<Vec<char>>)
    ensures
        r.deep_view() == spec_sections(hay@, sep@, 0),
{
    let mut out: Vec<Vec<char>> = Vec::new();
    assert(out.deep_view() =~= Seq::<Seq<char>>::empty());
    if sep.len() == 0 {
        return out;
    }
    let mut from: usize = 0;
    loop
        invariant
            sep.len() > 0,
            from <= hay.len(),
            spec_sections(hay@, sep@, 0) == out.deep_view() + spec_sections(
                hay@,
                sep@,
                from as int,
            ),
        decreases hay.len() - from,
    {
        proof {
            lemma_find_is_first(hay@, sep@, from as int);
        }
        let at = match find_from(hay, sep, from) {
            Some(at) => at,
            None => {
                return out;
            },
        };
        let start: usize = at + sep.len();
        proof {
            lemma_find_is_first(hay@, sep@, start as int);
        }
        let end: usize = match find_from(hay, sep, start) {
            Some(next) => next,
            None => hay.len(),
        };
        let piece = slice_chars(hay, start, end);
        let ghost before = out.deep_view();
        assert(piece.deep_view() =~= piece@);
        out.push(piece);
        assert(out.deep_view() =~= before + seq![piece@]);
        from = start;
    }
}

/// What stands between each occurrence of `marker` and the next `closer`.
pub fn enclosed(hay: &Vec<char>, marker: &Vec<char>, closer: &Vec<char>) -> (r: Vec<Vec<char>>)
    ensures
        r.deep_view() == spec_enclosed(hay@, marker@, closer@, 0),
{
    let mut out: Vec<Vec<char>> = Vec::new();
    assert(out.deep_view() =~= Seq::<Seq<char>>::empty());
    if marker.len() == 0 {
        return out;
    }
    let mut from: usize = 0;
    loop
        invariant
            marker.len() > 0,
            from <= hay.len(),
            spec_enclosed(hay@, marker@, closer@, 0) == out.deep_view() + spec_enclosed(
                hay@,
                marker@,
                closer@,
                from as int,
            ),
        decreases hay.len() - from,
    {
        proof {
            lemma_find_is_first(hay@, marker@, from as int);
        }
        let at = match find_from(hay, marker, from) {
            Some(at) => at,
            None => {
                return out;
            },
        };
        let start: usize = at + marker.len();
        proof {
            lemma_find_is_first(hay@, closer@, start as int);
        }
        match find_from(hay, closer, start) {
            Some(end) => {
                let piece = slice_chars(hay, start, end);
                let ghost before = out.deep_view();
                assert(piece.deep_view() =~= piece@);
                out.push(piece);
                assert(out.deep_view() =~= before + seq![piece@]);
            },
            None => {},
        }
        from = start;
    }
}

/// What follows the last slash of `s`; all of `s` where it has none.
pub open spec fn spec_last_segment(s: Seq<char>) -> Seq<char>
    decreases s.len(),
{
    if s.len() == 0 || s.last() == '/' {
        Seq::empty()
    } else {
        spec_last_segment(s.drop_last()).push(s.last())
    }
}

/// What follows the last slash of `chars`.
pub fn last_segment(chars: &Vec<char>) -> (r: Vec<char>)
    ensures
        r@ == spec_last_segment(chars@),
{
    let mut start: usize = chars.len();
    while start > 0 && chars[start - 1] != '/'
        invariant
            start <= chars.len(),
            forall|k: int| start <= k < chars.len() ==> chars@[k] != '/',
        decreases start,
    {
        start -= 1;
    }
    proof {
        lemma_last_segment(chars@, start as int);
    }
    slice_chars(chars, start, chars.len())
}

/// The last segment begins behind the last slash.
proof fn lemma_last_segment(s: Seq<char>, start: int)
    requires
        0 <= start <= s.len(),
        forall|k: int| start <= k < s.len() ==> s[k] != '/',
        start > 0 ==> s[start - 1] == '/',
    ensures
        spec_last_segment(s) == s.subrange(start, s.len() as int),
    decreases s.len(),
{
    if s.len() == 0 || s.last() == '/' {
        assert(s.subrange(start, s.len() as int) =~= Seq::<char>::empty());
    } else {
        lemma_last_segment(s.drop_last(), start);
        assert(s.drop_last().subrange(start, s.len() - 1).push(s.last()) =~= s.subrange(
            start,
            s.len() as int,
        ));
    }
}

/// The decimal digit for `d`.
pub open spec fn spec_digit(d: int) -> char {
    if d == 0 {
        '0'
    } else if d == 1 {
        '1'
    } else if d == 2 {
        '2'
    } else if d == 3 {
        '3'
    } else if d == 4 {
        '4'
    } else if d == 5 {
        '5'
    } else if d == 6 {
        '6'
    } else if d == 7 {
        '7'
    } else if d == 8 {
        '8'
    } else {
        '9'
    }
}

/// The decimal digit for `d`.
pub fn digit_char(d: u8) -> (c: char)
    requires
        d < 10,
    ensures
        c == spec_digit(d as int),
{
    if d == 0 {
        '0'
    } else if d == 1 {
        '1'
    } else if d == 2 {
        '2'
    } else if d == 3 {
        '3'
    } else if d == 4 {
        '4'
    } else if d == 5 {
        '5'
    } else if d == 6 {
        '6'
    } else if d == 7 {
        '7'
    } else if d == 8 {
        '8'
    } else {
        '9'
    }
}

/// `n` written in decimal, without leading zeros.
pub open spec fn spec_decimal(n: nat) -> Seq<char>
    decreases n,
{
    if n < 10 {
        seq![spec_digit(n as int)]
    } else {
        spec_decimal(n / 10).push(spec_digit((n % 10) as int))
    }
}

/// Appends `n` in decimal to `out`.
pub fn push_decimal(out: &mut String, n: u64)
    ensures
        final(out)@ == old(out)@ + spec_decimal(n as nat),
    decreases n,
{
    if n >= 10 {
        push_decimal(out, n / 10);
    }
    out.push(digit_char((n % 10) as u8));
    assert(out@ =~= old(out)@ + spec_decimal(n as nat));
}

/// A fixed-point fraction written with two decimals, rounded half up.
pub open spec fn spec_two_decimals(millionths: int) -> Seq<char> {
    let hundredths = (millionths + 5_000) / 10_000;
    spec_decimal((hundredths / 100) as nat) + seq!['.'] + seq![
        spec_digit(hundredths / 10 % 10),
        spec_digit(hundredths % 10),
    ]
}

/// Appends a fixed-point fraction with two decimals to `out`.
pub fn push_two_decimals(out: &mut String, millionths: u32)
    ensures
        final(out)@ == old(out)@ + spec_two_decimals(millionths as int),
{
    let hundredths: u64 = (millionths as u64 + 5_000) / 10_000;
    push_decimal(out, hundredths / 100);
    out.push('.');
    out.push(digit_char((hundredths / 10 % 10) as u8));
    out.push(digit_char((hundredths % 10) as u8));
    assert(out@ =~= old(out)@ + spec_two_decimals(millionths as int));
}

/// A fixed-point fraction as a whole percentage, rounded half up.
pub open spec fn spec_whole_percent(millionths: int) -> Seq<char> {
    spec_decimal(((millionths + 5_000) / 10_000) as nat)
}

/// Appends a fixed-point fraction as a whole percentage to `out`.
pub fn push_whole_percent(out: &mut String, millionths: u32)
    ensures
        final(out)@ == old(out)@ + spec_whole_percent(millionths as int),
{
    push_decimal(out, (millionths as u64 + 5_000) / 10_000);
}

/// The value of a decimal digit.
pub open spec fn spec_digit_value(c: char) -> Option<int> {
    if c == '0' {
        Some(0)
    } else if c == '1' {
        Some(1)
    } else if c == '2' {
        Some(2)
    } else if c == '3' {
        Some(3)
    } else if c == '4' {
        Some(4)
    } else if c == '5' {
        Some(5)
    } else if c == '6' {
        Some(6)
    } else if c == '7' {
        Some(7)
    } else if c == '8' {
        Some(8)
    } else if c == '9' {
        Some(9)
    } else {
        None
    }
}

/// The number that a run of decimal digits denotes; `None` where a
/// character is no digit.
pub open spec fn spec_digits_value(digits: Seq<char>) -> Option<int>
    decreases digits.len(),
{
    if digits.len() == 0 {
        Some(0)
    } else {
        match (spec_digits_value(digits.drop_last()), spec_digit_value(digits.last())) {
            (Some(front), Some(d)) => Some(front * 10 + d),
            _ => None,
        }
    }
}

/// The number that a text denotes: decimal digits, at least one, after an
/// optional plus sign; `None` for anything else and for what does not fit
/// in 64 bits.
pub open spec fn spec_parse_u64(text: Seq<char>) -> Option<u64> {
    let digits = if text.len() > 0 && text[0] == '+' {
        text.drop_first()
    } else {
        text
    };
    if digits.len() == 0 {
        None
    } else {
        match spec_digits_value(digits) {
            Some(value) => if value <= u64::MAX {
                Some(value as u64)
            } else {
                None
            },
            None => None,
        }
    }
}

/// The value of a decimal digit.
fn digit_value(c: char) -> (r: Option<u64>)
    ensures
        match r {
            Some(d) => spec_digit_value(c) == Some(d as int) && d < 10,
            None => spec_digit_value(c) is None,
        },
{
    if c == '0' {
        Some(0)
    } else if c == '1' {
        Some(1)
    } else if c == '2' {
        Some(2)
    } else if c == '3' {
        Some(3)
    } else if c == '4' {
        Some(4)
    } else if c == '5' {
        Some(5)
    } else if c == '6' {
        Some(6)
    } else if c == '7' {
        Some(7)
    } else if c == '8' {
        Some(8)
    } else if c == '9' {
        Some(9)
    } else {
        None
    }
}

/// Digits denote a number that never shrinks as digits are added, and no
/// number at all once a character was no digit.
proof fn lemma_digits_value_grows(digits: Seq<char>, n: int)
    requires
        0 <= n <= digits.len(),
    ensures
        spec_digits_value(digits.take(n)) is None ==> spec_digits_value(digits) is None,
        spec_digits_value(digits.take(n)) matches Some(front) ==> front >= 0 && (
        spec_digits_value(digits) matches Some(all) ==> all >= front),
    decreases digits.len() - n,
{
    if n == digits.len() {
        assert(digits.take(n) =~= digits);
        lemma_digits_value_nonnegative(digits);
    } else {
        assert(digits.take(n + 1).drop_last() =~= digits.take(n));
        lemma_digits_value_grows(digits, n + 1);
        lemma_digits_value_nonnegative(digits.take(n));
    }
}

/// Digits denote no negative number.
proof fn lemma_digits_value_nonnegative(digits: Seq<char>)
    ensures
        spec_digits_value(digits) matches Some(v) ==> v >= 0,
    decreases digits.len(),
{
    if digits.len() > 0 {
        lemma_digits_value_nonnegative(digits.drop_last());
    }
}

/// Reads a number as `spec_parse_u64` defines it.
pub fn parse_u64(text: &str) -> (r: Option<u64>)
    ensures
        r == spec_parse_u64(text@),
{
    let chars = chars_of(text);
    parse_u64_chars(&chars)
}

/// Reads a number as `spec_parse_u64` defines it.
pub fn parse_u64_chars(chars: &Vec<char>) -> (r: Option<u64>)
    ensures
        r == spec_parse_u64(chars@),
{
    let start: usize = if chars.len() > 0 && chars[0] == '+' {
        1
    } else {
        0
    };
    if start >= chars.len() {
        return None;
    }
    let ghost digits = chars@.skip(start as int);
    assert(start == 1 ==> digits =~= chars@.drop_first());
    assert(start == 0 ==> digits =~= chars@);
    let mut value: u64 = 0;
    let mut i: usize = start;
    assert(digits.take(0) =~= Seq::<char>::empty());
    while i < chars.len()
        invariant
            start <= i <= chars.len(),
            start < chars.len(),
            start == 1 ==> chars@[0] == '+' && digits == chars@.drop_first(),
            start == 0 ==> chars@[0] != '+' && digits == chars@,
            start <= 1,
            digits == chars@.skip(start as int),
            spec_digits_value(digits.take(i - start)) == Some(value as int),
        decreases chars.len() - i,
    {
        proof {
            assert(digits.take(i - start + 1).drop_last() =~= digits.take(i - start));
            assert(digits.take(i - start + 1).last() == chars@[i as int]);
            lemma_digits_value_grows(digits, i - start + 1);
        }
        let d = match digit_value(chars[i]) {
            Some(d) => d,
            None => {
                assert(spec_digits_value(digits.take(i - start + 1)) is None);
                return None;
            },
        };
        assert(spec_digits_value(digits.take(i - start + 1)) == Some(value * 10 + d));
        if value > (u64::MAX - d) / 10 {
            assert(value * 10 + d > u64::MAX) by (nonlinear_arith)
                requires
                    value > (u64::MAX - d) / 10,
                    0 <= d < 10,
            ;
            return None;
        }
        assert(value * 10 + d <= u64::MAX) by (nonlinear_arith)
            requires
                value <= (u64::MAX - d) / 10,
                0 <= d < 10,
        ;
        value = value * 10 + d;
        i += 1;
    }
    assert(digits.take(chars.len() - start) =~= digits);
    Some(value)
}

} // verus!
