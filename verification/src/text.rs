//! Text as sequences of characters.
//!
//! Specifications over `Seq<char>` for searching, trimming, splitting and
//! joining text, and the executable functions that meet them.

use vstd::prelude::*;

verus! {

/// The views of a sequence of strings.
pub open spec fn texts(strings: Seq<String>) -> Seq<Seq<char>> {
    strings.map_values(|s: String| s@)
}

/// The view of an optional string.
pub open spec fn optional_text(text: Option<String>) -> Option<Seq<char>> {
    match text {
        Some(s) => Some(s@),
        None => None,
    }
}

/// The characters with the Unicode property `White_Space`.
pub open spec fn is_white(c: char) -> bool {
    let u = c as u32;
    ||| 0x09 <= u <= 0x0d
    ||| u == 0x20
    ||| u == 0x85
    ||| u == 0xa0
    ||| u == 0x1680
    ||| 0x2000 <= u <= 0x200a
    ||| u == 0x2028
    ||| u == 0x2029
    ||| u == 0x202f
    ||| u == 0x205f
    ||| u == 0x3000
}

/// `needle` occurs in `hay` as a run of consecutive characters.
pub open spec fn contains(hay: Seq<char>, needle: Seq<char>) -> bool {
    exists|at: int| occurs_at(hay, needle, at)
}

/// `needle` occurs in `hay` from position `at` on.
pub open spec fn occurs_at(hay: Seq<char>, needle: Seq<char>, at: int) -> bool {
    &&& 0 <= at
    &&& at + needle.len() <= hay.len()
    &&& hay.subrange(at, at + needle.len()) == needle
}

/// Some of the texts occurs in `hay`.
pub open spec fn contains_any(hay: Seq<char>, needles: Seq<Seq<char>>) -> bool {
    exists|i: int| 0 <= i < needles.len() && contains(hay, #[trigger] needles[i])
}

/// The index of the first of the texts that occurs in `hay`, or their number
/// where none does.
pub open spec fn first_hit(hay: Seq<char>, needles: Seq<Seq<char>>) -> nat
    decreases needles.len(),
{
    if needles.len() == 0 || contains(hay, needles[0]) {
        0
    } else {
        1 + first_hit(hay, needles.drop_first())
    }
}

/// The text without its leading white space.
pub open spec fn trim_start(text: Seq<char>) -> Seq<char>
    decreases text.len(),
{
    if text.len() > 0 && is_white(text[0]) {
        trim_start(text.drop_first())
    } else {
        text
    }
}

/// The text without its trailing white space.
pub open spec fn trim_end(text: Seq<char>) -> Seq<char>
    decreases text.len(),
{
    if text.len() > 0 && is_white(text.last()) {
        trim_end(text.drop_last())
    } else {
        text
    }
}

/// The text without white space at either end.
pub open spec fn trimmed(text: Seq<char>) -> Seq<char> {
    trim_end(trim_start(text))
}

/// The number of characters before the first `c`, or all of them.
pub open spec fn before(text: Seq<char>, c: char) -> nat
    decreases text.len(),
{
    if text.len() == 0 || text[0] == c {
        0
    } else {
        1 + before(text.drop_first(), c)
    }
}

/// The number of leading characters that are not white space.
pub open spec fn word_len(text: Seq<char>) -> nat
    decreases text.len(),
{
    if text.len() == 0 || is_white(text[0]) {
        0
    } else {
        1 + word_len(text.drop_first())
    }
}

/// A line without the carriage return that belonged to its line ending.
pub open spec fn chomp(line: Seq<char>) -> Seq<char> {
    if line.len() > 0 && line.last() == '\r' {
        line.drop_last()
    } else {
        line
    }
}

/// The lines of a text. A line ends at `\n` or `\r\n`; the ending of the last
/// line is optional.
pub open spec fn lines_of(text: Seq<char>) -> Seq<Seq<char>>
    decreases text.len(),
{
    if text.len() == 0 {
        Seq::empty()
    } else {
        let end = before(text, '\n');
        if end >= text.len() {
            seq![text]
        } else {
            seq![chomp(text.take(end as int))] + lines_of(text.skip(end as int + 1))
        }
    }
}

/// The words of a text: its maximal runs without white space.
pub open spec fn words_of(text: Seq<char>) -> Seq<Seq<char>>
    decreases text.len(),
{
    let rest = trim_start(text);
    if rest.len() == 0 {
        Seq::empty()
    } else {
        proof {
            lemma_trim_start(text);
            lemma_word_len(rest);
        }
        seq![rest.take(word_len(rest) as int)] + words_of(rest.skip(word_len(rest) as int))
    }
}

/// The character of a decimal digit.
pub open spec fn digit_char(d: nat) -> char {
    if d == 0 {
        '0'
    } else if d == 1 {
        '1'
    } else if d == 2 {
        '2'
    } else if d == 3 {
        '3'
    } else if d == 4 {
        '4'
    } else if d == 5 {
        '5'
    } else if d == 6 {
        '6'
    } else if d == 7 {
        '7'
    } else if d == 8 {
        '8'
    } else {
        '9'
    }
}

/// The decimal notation of a number, without leading zeros.
pub open spec fn decimal(n: nat) -> Seq<char>
    decreases n,
{
    if n < 10 {
        seq![digit_char(n)]
    } else {
        decimal(n / 10).push(digit_char(n % 10))
    }
}

/// The lowercase form of a text as Unicode defines it.
pub uninterp spec fn lowercase(text: Seq<char>) -> Seq<char>;

/// `str::to_lowercase`: its result is named by [`lowercase`]. It depends on the
/// text alone; which characters it holds is left to Unicode's tables.
pub assume_specification[ str::to_lowercase ](text: &str) -> (lower: String)
    ensures
        lower@ == lowercase(text@),
;

/// The lowercase forms of a sequence of texts.
pub open spec fn lowercase_each(items: Seq<Seq<char>>) -> Seq<Seq<char>> {
    items.map_values(|t: Seq<char>| lowercase(t))
}

pub proof fn lemma_trim_start(text: Seq<char>)
    ensures
        trim_start(text).len() <= text.len(),
        trim_start(text) == text.skip(text.len() - trim_start(text).len()),
        trim_start(text).len() > 0 ==> !is_white(trim_start(text)[0]),
    decreases text.len(),
{
    if text.len() > 0 && is_white(text[0]) {
        lemma_trim_start(text.drop_first());
        let rest = trim_start(text.drop_first());
        assert(text.skip(text.len() - rest.len()) =~= text.drop_first().skip(
            text.drop_first().len() - rest.len(),
        ));
    } else {
        assert(text.skip(0) =~= text);
    }
}

pub proof fn lemma_word_len(text: Seq<char>)
    ensures
        word_len(text) <= text.len(),
        text.len() > 0 && !is_white(text[0]) ==> word_len(text) > 0,
        forall|i: int| 0 <= i < word_len(text) ==> !is_white(text[i]),
        word_len(text) < text.len() ==> is_white(text[word_len(text) as int]),
    decreases text.len(),
{
    if text.len() > 0 && !is_white(text[0]) {
        let rest = text.drop_first();
        lemma_word_len(rest);
        assert forall|i: int| 0 <= i < word_len(text) implies !is_white(text[i]) by {
            if i > 0 {
                assert(rest[i - 1] == text[i]);
            }
        }
        if word_len(text) < text.len() {
            assert(rest[word_len(rest) as int] == text[word_len(text) as int]);
        }
    }
}

/// `first_hit` is at a text that occurs, and none before it does.
pub proof fn lemma_first_hit(hay: Seq<char>, needles: Seq<Seq<char>>)
    ensures
        first_hit(hay, needles) <= needles.len(),
        first_hit(hay, needles) < needles.len() <==> contains_any(hay, needles),
        first_hit(hay, needles) < needles.len() ==> contains(
            hay,
            needles[first_hit(hay, needles) as int],
        ),
        forall|j: int|
            0 <= j < first_hit(hay, needles) ==> !contains(hay, #[trigger] needles[j]),
    decreases needles.len(),
{
    if needles.len() > 0 && !contains(hay, needles[0]) {
        let rest = needles.drop_first();
        lemma_first_hit(hay, rest);
        assert forall|j: int| 0 <= j < first_hit(hay, needles) implies !contains(
            hay,
            #[trigger] needles[j],
        ) by {
            if j > 0 {
                assert(rest[j - 1] == needles[j]);
            }
        }
        if contains_any(hay, needles) {
            let j = choose|j: int| 0 <= j < needles.len() && contains(hay, #[trigger] needles[j]);
            assert(contains(hay, rest[j - 1]));
        }
    }
}

/// `before` is the one position that has no `c` in front of it and is at a `c`
/// or at the end.
pub proof fn lemma_before(text: Seq<char>, c: char, at: int)
    requires
        0 <= at <= text.len(),
        forall|i: int| 0 <= i < at ==> text[i] != c,
        at < text.len() ==> text[at] == c,
    ensures
        before(text, c) == at,
    decreases text.len(),
{
    if text.len() > 0 && text[0] != c {
        let rest = text.drop_first();
        assert(at > 0);
        assert forall|i: int| 0 <= i < at - 1 implies rest[i] != c by {
            assert(rest[i] == text[i + 1]);
        }
        lemma_before(rest, c, at - 1);
    } else if text.len() > 0 {
        if at > 0 {
            assert(text[0] != c);
        }
    }
}

proof fn lemma_word_len_at(text: Seq<char>, at: int)
    requires
        0 <= at <= text.len(),
        forall|i: int| 0 <= i < at ==> !is_white(text[i]),
        at < text.len() ==> is_white(text[at]),
    ensures
        word_len(text) == at,
    decreases text.len(),
{
    if text.len() > 0 && !is_white(text[0]) {
        let rest = text.drop_first();
        assert(at > 0);
        assert forall|i: int| 0 <= i < at - 1 implies !is_white(rest[i]) by {
            assert(rest[i] == text[i + 1]);
        }
        lemma_word_len_at(rest, at - 1);
    } else if text.len() > 0 {
        if at > 0 {
            assert(!is_white(text[0]));
        }
    }
}

/// Whether a character is white space.
pub fn is_white_space(c: char) -> (r: bool)
    ensures
        r == is_white(c),
{
    let u: u32 = c as u32;
    (0x09 <= u && u <= 0x0d) || u == 0x20 || u == 0x85 || u == 0xa0 || u == 0x1680 || (0x2000 <= u
        && u <= 0x200a) || u == 0x2028 || u == 0x2029 || u == 0x202f || u == 0x205f || u == 0x3000
}

/// The characters of a text.
pub fn chars_of(text: &str) -> (chars: Vec<char>)
    ensures
        chars@ == text@,
{
    let mut chars: Vec<char> = Vec::new();
    for c in it: text.chars()
        invariant
            chars@ == it.seq().take(it.index() as int),
            it.seq() == text@,
    {
        chars.push(c);
    }
    chars
}

/// Whether two texts are the same.
pub fn same_text(a: &str, b: &str) -> (r: bool)
    ensures
        r == (a@ == b@),
{
    a.to_owned() == b.to_owned()
}

/// Whether a list of strings holds a text.
pub fn has_text(list: &[String], text: &str) -> (r: bool)
    ensures
        r == texts(list@).contains(text@),
{
    for i in 0..list.len()
        invariant
            forall|j: int| 0 <= j < i ==> list@[j]@ != text@,
    {
        if same_text(list[i].as_str(), text) {
            assert(texts(list@)[i as int] == text@);
            return true;
        }
    }
    assert forall|j: int| 0 <= j < texts(list@).len() implies texts(list@)[j] != text@ by {
        assert(texts(list@)[j] == list@[j]@);
    }
    false
}

/// A text joined from two parts.
pub fn join(a: &str, b: &str) -> (r: String)
    ensures
        r@ == a@ + b@,
{
    let mut joined = String::new();
    joined.append(a);
    joined.append(b);
    assert(joined@ =~= a@ + b@);
    joined
}

/// A list of the same texts.
pub fn copy_texts(list: &Vec<String>) -> (r: Vec<String>)
    ensures
        texts(r@) == texts(list@),
{
    let mut copy: Vec<String> = Vec::new();
    for i in 0..list.len()
        invariant
            copy@.len() == i,
            forall|j: int| 0 <= j < i ==> copy@[j]@ == list@[j]@,
    {
        copy.push(list[i].clone());
    }
    assert(texts(copy@) =~= texts(list@));
    copy
}

/// A text joined from three parts.
pub fn join3(a: &str, b: &str, c: &str) -> (r: String)
    ensures
        r@ == a@ + b@ + c@,
{
    let mut joined = join(a, b);
    joined.append(c);
    joined
}

/// Whether `prefix` stands at the start of `text`.
pub fn starts_with(text: &str, prefix: &str) -> (r: bool)
    ensures
        r == prefix@.is_prefix_of(text@),
{
    let n: usize = prefix.unicode_len();
    if n > text.unicode_len() {
        return false;
    }
    let head = text.substring_char(0, n);
    same_text(head, prefix)
}

/// The part of a text from character `from` on.
pub fn tail(text: &str, from: usize) -> (r: String)
    requires
        from <= text@.len(),
    ensures
        r@ == text@.skip(from as int),
{
    let rest = text.substring_char(from, text.unicode_len());
    assert(rest@ =~= text@.skip(from as int));
    rest.to_owned()
}

fn occurs_from(hay: &Vec<char>, needle: &Vec<char>, at: usize) -> (r: bool)
    requires
        at + needle@.len() <= hay@.len(),
    ensures
        r == occurs_at(hay@, needle@, at as int),
{
    let ghost window = hay@.subrange(at as int, at + needle@.len());
    let size: usize = hay.len();
    for i in 0..needle.len()
        invariant
            size == hay@.len(),
            at + needle@.len() <= size,
            window == hay@.subrange(at as int, at + needle@.len()),
            forall|j: int| 0 <= j < i ==> window[j] == needle@[j],
    {
        if hay[at + i] != needle[i] {
            assert(window[i as int] != needle@[i as int]);
            return false;
        }
    }
    assert(window =~= needle@);
    true
}

/// Whether `needle` occurs in `hay`.
pub fn contains_text(hay: &str, needle: &str) -> (r: bool)
    ensures
        r == contains(hay@, needle@),
{
    let h = chars_of(hay);
    let n = chars_of(needle);
    if n.len() > h.len() {
        return false;
    }
    let last: usize = h.len() - n.len();
    let mut at: usize = 0;
    while at <= last
        invariant
            h@ == hay@,
            n@ == needle@,
            n@.len() + last == h@.len(),
            at <= last + 1,
            forall|j: int| 0 <= j < at ==> !occurs_at(hay@, needle@, j),
        decreases last + 1 - at,
    {
        if occurs_from(&h, &n, at) {
            assert(occurs_at(hay@, needle@, at as int));
            return true;
        }
        if at == last {
            assert forall|j: int| !occurs_at(hay@, needle@, j) by {}
            return false;
        }
        at = at + 1;
    }
    false
}

/// The index of the first of `needles` that occurs in `hay`.
pub fn first_contained(hay: &str, needles: &[String]) -> (r: Option<usize>)
    ensures
        match r {
            Some(i) => {
                &&& i < needles@.len()
                &&& i == first_hit(hay@, texts(needles@))
                &&& contains_any(hay@, texts(needles@))
            },
            None => !contains_any(hay@, texts(needles@)),
        },
{
    for i in 0..needles.len()
        invariant
            forall|j: int| 0 <= j < i ==> !contains(hay@, #[trigger] texts(needles@)[j]),
    {
        assert(texts(needles@)[i as int] == needles@[i as int]@);
        if contains_text(hay, needles[i].as_str()) {
            proof {
                lemma_first_hit(hay@, texts(needles@));
                let first = first_hit(hay@, texts(needles@)) as int;
                assert(contains(hay@, texts(needles@)[first]));
            }
            return Some(i);
        }
    }
    None
}

/// The lowercase forms of a list of strings.
pub fn lowercase_list(items: &[String]) -> (lower: Vec<String>)
    ensures
        texts(lower@) == lowercase_each(texts(items@)),
{
    let mut lower: Vec<String> = Vec::new();
    for i in 0..items.len()
        invariant
            lower@.len() == i,
            forall|j: int| 0 <= j < i ==> lower@[j]@ == lowercase(#[trigger] items@[j]@),
    {
        let one = items[i].as_str().to_lowercase();
        lower.push(one);
    }
    assert(texts(lower@) =~= lowercase_each(texts(items@)));
    lower
}

/// The text without white space at either end.
pub fn trim(text: &str) -> (r: String)
    ensures
        r@ == trimmed(text@),
{
    let chars = chars_of(text);
    let mut lo: usize = 0;
    assert(text@.skip(0) =~= text@);
    while lo < chars.len() && is_white_space(chars[lo])
        invariant
            chars@ == text@,
            lo <= chars@.len(),
            trim_start(text@) == trim_start(text@.skip(lo as int)),
        decreases chars@.len() - lo,
    {
        assert(text@.skip(lo as int).drop_first() =~= text@.skip(lo + 1));
        lo = lo + 1;
    }
    assert(trim_start(text@) == text@.skip(lo as int));
    let mut hi: usize = chars.len();
    assert(text@.subrange(lo as int, hi as int) =~= text@.skip(lo as int));
    while lo < hi && is_white_space(chars[hi - 1])
        invariant
            chars@ == text@,
            lo <= hi <= chars@.len(),
            trimmed(text@) == trim_end(text@.subrange(lo as int, hi as int)),
        decreases hi,
    {
        assert(text@.subrange(lo as int, hi as int).drop_last() =~= text@.subrange(
            lo as int,
            hi - 1,
        ));
        hi = hi - 1;
    }
    text.substring_char(lo, hi).to_owned()
}

fn find_char(chars: &Vec<char>, from: usize, c: char) -> (at: usize)
    requires
        from <= chars@.len(),
    ensures
        from <= at <= chars@.len(),
        at - from == before(chars@.skip(from as int), c),
{
    let mut at: usize = from;
    while at < chars.len() && chars[at] != c
        invariant
            from <= at <= chars@.len(),
            forall|i: int| from <= i < at ==> chars@[i] != c,
        decreases chars@.len() - at,
    {
        at = at + 1;
    }
    proof {
        lemma_before(chars@.skip(from as int), c, at - from);
    }
    at
}

/// The number of characters before the first `c`, or all of them.
pub fn chars_before(text: &str, c: char) -> (at: usize)
    ensures
        at == before(text@, c),
        at <= text@.len(),
{
    let chars = chars_of(text);
    assert(text@.skip(0) =~= text@);
    find_char(&chars, 0, c)
}

/// The lines of a text.
pub fn lines(text: &str) -> (r: Vec<String>)
    ensures
        texts(r@) == lines_of(text@),
{
    let chars = chars_of(text);
    let mut out: Vec<String> = Vec::new();
    let mut from: usize = 0;
    assert(text@.skip(0) =~= text@);
    assert(texts(out@) + lines_of(text@.skip(0)) =~= lines_of(text@));
    while from < chars.len()
        invariant
            chars@ == text@,
            from <= chars@.len(),
            lines_of(text@) == texts(out@) + lines_of(text@.skip(from as int)),
        decreases chars@.len() - from,
    {
        let ghost rest = text@.skip(from as int);
        let ghost done = out@;
        let end: usize = find_char(&chars, from, '\n');
        if end == chars.len() {
            let line = text.substring_char(from, end);
            out.push(line.to_owned());
            assert(line@ =~= rest);
            assert(text@.skip(end as int) =~= Seq::<char>::empty());
            assert(texts(out@) =~= texts(done) + seq![rest]);
            assert(texts(out@) + lines_of(text@.skip(end as int)) =~= texts(out@));
            from = end;
        } else {
            let mut stop: usize = end;
            if end > from && chars[end - 1] == '\r' {
                stop = end - 1;
            }
            let line = text.substring_char(from, stop);
            out.push(line.to_owned());
            assert(line@ =~= chomp(rest.take(end - from)));
            assert(texts(out@) =~= texts(done) + seq![line@]);
            assert(rest.skip(end - from + 1) =~= text@.skip(end + 1));
            assert(texts(out@) + lines_of(text@.skip(end + 1)) =~= texts(done) + (seq![line@]
                + lines_of(text@.skip(end + 1))));
            from = end + 1;
        }
    }
    assert(text@.skip(from as int) =~= Seq::<char>::empty());
    assert(texts(out@) + lines_of(text@.skip(from as int)) =~= texts(out@));
    out
}

/// The words of a text.
pub fn words(text: &str) -> (r: Vec<String>)
    ensures
        texts(r@) == words_of(text@),
{
    let chars = chars_of(text);
    let mut out: Vec<String> = Vec::new();
    let mut from: usize = 0;
    assert(text@.skip(0) =~= text@);
    assert(texts(out@) + words_of(text@.skip(0)) =~= words_of(text@));
    while from < chars.len()
        invariant
            chars@ == text@,
            from <= chars@.len(),
            words_of(text@) == texts(out@) + words_of(text@.skip(from as int)),
        decreases chars@.len() - from,
    {
        let ghost rest = text@.skip(from as int);
        if is_white_space(chars[from]) {
            assert(rest.drop_first() =~= text@.skip(from + 1));
            assert(words_of(rest) == words_of(text@.skip(from + 1)));
            from = from + 1;
        } else {
            let ghost done = out@;
            let mut end: usize = from;
            while end < chars.len() && !is_white_space(chars[end])
                invariant
                    chars@ == text@,
                    from <= end <= chars@.len(),
                    forall|i: int| from <= i < end ==> !is_white(chars@[i]),
                decreases chars@.len() - end,
            {
                end = end + 1;
            }
            proof {
                lemma_word_len_at(rest, end - from);
                lemma_word_len(rest);
            }
            let word = text.substring_char(from, end);
            out.push(word.to_owned());
            assert(word@ =~= rest.take(end - from));
            assert(rest.skip(end - from) =~= text@.skip(end as int));
            assert(texts(out@) =~= texts(done) + seq![word@]);
            assert(texts(out@) + words_of(text@.skip(end as int)) =~= texts(done) + (seq![word@]
                + words_of(text@.skip(end as int))));
            from = end;
        }
    }
    assert(text@.skip(from as int) =~= Seq::<char>::empty());
    assert(texts(out@) + words_of(text@.skip(from as int)) =~= texts(out@));
    out
}

fn digit_text(d: u64) -> (r: String)
    requires
        d < 10,
    ensures
        r@ == seq![digit_char(d as nat)],
{
    proof {
        reveal_strlit("0");
        reveal_strlit("1");
        reveal_strlit("2");
        reveal_strlit("3");
        reveal_strlit("4");
        reveal_strlit("5");
        reveal_strlit("6");
        reveal_strlit("7");
        reveal_strlit("8");
        reveal_strlit("9");
    }
    let digit = if d == 0 {
        "0"
    } else if d == 1 {
        "1"
    } else if d == 2 {
        "2"
    } else if d == 3 {
        "3"
    } else if d == 4 {
        "4"
    } else if d == 5 {
        "5"
    } else if d == 6 {
        "6"
    } else if d == 7 {
        "7"
    } else if d == 8 {
        "8"
    } else {
        "9"
    };
    assert(digit@ =~= seq![digit_char(d as nat)]);
    digit.to_owned()
}

/// The decimal notation of a number.
pub fn decimal_text(n: u64) -> (r: String)
    ensures
        r@ == decimal(n as nat),
    decreases n,
{
    if n < 10 {
        digit_text(n)
    } else {
        let mut out = decimal_text(n / 10);
        let digit = digit_text(n % 10);
        out.append(digit.as_str());
        assert(out@ =~= decimal((n / 10) as nat).push(digit_char((n % 10) as nat)));
        out
    }
}

/// A text contains what stands between any two others.
pub proof fn law_text_contains_its_parts(
    front: Seq<char>,
    part: Seq<char>,
    back: Seq<char>,
)
    ensures
        contains(front + part + back, part),
{
    let hay = front + part + back;
    assert(hay.subrange(front.len() as int, (front.len() + part.len()) as int) =~= part);
    assert(occurs_at(hay, part, front.len() as int));
}

/// What a text contains stands in it between two others.
pub proof fn law_contained_text_is_a_part(hay: Seq<char>, part: Seq<char>)
    requires
        contains(hay, part),
    ensures
        exists|front: Seq<char>, back: Seq<char>| hay == #[trigger] (front + part + back),
{
    let at = choose|at: int| occurs_at(hay, part, at);
    let front = hay.take(at);
    let back = hay.skip(at + part.len());
    assert(hay =~= front + part + back);
}

/// Some of the texts is contained exactly where one of them is.
pub proof fn law_some_text_is_contained(hay: Seq<char>, needles: Seq<Seq<char>>, i: int)
    ensures
        0 <= i < needles.len() && contains(hay, needles[i]) ==> contains_any(hay, needles),
        contains_any(hay, needles) ==> exists|j: int|
            0 <= j < needles.len() && contains(hay, #[trigger] needles[j]),
{
}

/// All characters of a text are white space.
pub open spec fn all_white(text: Seq<char>) -> bool {
    forall|i: int| 0 <= i < text.len() ==> is_white(#[trigger] text[i])
}

/// None of the characters of a text is white space.
pub open spec fn no_white(text: Seq<char>) -> bool {
    forall|i: int| 0 <= i < text.len() ==> !is_white(#[trigger] text[i])
}

/// White space is not found among the characters beyond the ideographic space.
pub proof fn law_white_space_ends(c: char)
    ensures
        c as u32 > 0x3000 ==> !is_white(c),
{
}

proof fn lemma_trim_start_of(front: Seq<char>, rest: Seq<char>)
    requires
        all_white(front),
    ensures
        trim_start(front + rest) == trim_start(rest),
    decreases front.len(),
{
    if front.len() == 0 {
        assert(front + rest =~= rest);
    } else {
        assert((front + rest)[0] == front[0]);
        assert((front + rest).drop_first() =~= front.drop_first() + rest);
        lemma_trim_start_of(front.drop_first(), rest);
    }
}

proof fn lemma_trim_end_of(rest: Seq<char>, back: Seq<char>)
    requires
        all_white(back),
    ensures
        trim_end(rest + back) == trim_end(rest),
    decreases back.len(),
{
    if back.len() == 0 {
        assert(rest + back =~= rest);
    } else {
        assert((rest + back).last() == back.last());
        assert((rest + back).drop_last() =~= rest + back.drop_last());
        lemma_trim_end_of(rest, back.drop_last());
    }
}

/// Trimming takes the white space at both ends of a text away, and nothing that
/// stands between two characters of another kind.
pub proof fn law_trimming_keeps_the_core(front: Seq<char>, core: Seq<char>, back: Seq<char>)
    requires
        all_white(front),
        all_white(back),
        core.len() > 0 ==> !is_white(core[0]) && !is_white(core.last()),
    ensures
        trimmed(front + core + back) == core,
{
    assert(front + core + back =~= front + (core + back));
    lemma_trim_start_of(front, core + back);
    if core.len() == 0 {
        assert(core + back =~= back);
        assert(back + core =~= back);
        lemma_trim_start_of(back, core);
        assert(trim_start(core) =~= core);
    } else {
        assert((core + back)[0] == core[0]);
        lemma_trim_end_of(core, back);
    }
}

/// A line ends at a line feed, and a carriage return before that belongs to the
/// ending; the last line needs no ending, and keeps a carriage return.
pub proof fn law_lines_end_at_line_feeds(line: Seq<char>, rest: Seq<char>)
    requires
        !line.contains('\n'),
    ensures
        lines_of(Seq::empty()) == Seq::<Seq<char>>::empty(),
        line.len() > 0 ==> lines_of(line) == seq![line],
        line.len() == 0 || line.last() != '\r' ==> lines_of(line + seq!['\n'] + rest) == seq![line]
            + lines_of(rest),
        lines_of(line + seq!['\r', '\n'] + rest) == seq![line] + lines_of(rest),
{
    lemma_before(line, '\n', line.len() as int);
    let plain = line + seq!['\n'] + rest;
    lemma_before(plain, '\n', line.len() as int);
    assert(plain.take(line.len() as int) =~= line);
    assert(plain.skip(line.len() as int + 1) =~= rest);
    let long = line + seq!['\r', '\n'] + rest;
    let end = line.len() as int + 1;
    assert forall|i: int| 0 <= i < end implies long[i] != '\n' by {
        if i < line.len() {
            assert(long[i] == line[i]);
        }
    }
    lemma_before(long, '\n', end);
    assert(long.take(end) =~= line.push('\r'));
    assert(line.push('\r').drop_last() =~= line);
    assert(long.skip(end + 1) =~= rest);
}

/// Words stand between white space: it only parts them, a run of other characters
/// is one word, and the words after it follow.
pub proof fn law_words_stand_between_white_space(word: Seq<char>, space: char, rest: Seq<char>)
    requires
        word.len() > 0,
        no_white(word),
        is_white(space),
    ensures
        words_of(Seq::empty()) == Seq::<Seq<char>>::empty(),
        words_of(seq![space] + rest) == words_of(rest),
        words_of(word) == seq![word],
        words_of(word + seq![space] + rest) == seq![word] + words_of(rest),
{
    let gap = seq![space] + rest;
    assert(gap[0] == space);
    assert(gap.drop_first() =~= rest);
    assert(trim_start(gap) == trim_start(rest));
    let empty = Seq::<char>::empty();
    assert(words_of(empty) =~= Seq::empty());
    lemma_word_len_at(word, word.len() as int);
    assert(word.take(word.len() as int) =~= word);
    assert(word.skip(word.len() as int) =~= empty);
    assert(words_of(word) =~= seq![word]);
    let more = word + seq![space] + rest;
    assert forall|i: int| 0 <= i < word.len() implies !is_white(more[i]) by {
        assert(more[i] == word[i]);
    }
    assert(more[0] == word[0]);
    lemma_word_len_at(more, word.len() as int);
    assert(more.take(word.len() as int) =~= word);
    assert(more.skip(word.len() as int) =~= gap);
}

/// The number that a text of decimal digits stands for.
pub open spec fn number_of(digits: Seq<char>) -> int
    decreases digits.len(),
{
    if digits.len() == 0 {
        0
    } else {
        10 * number_of(digits.drop_last()) + (digits.last() as int - 0x30)
    }
}

/// The decimal notation of a number consists of digits, stands for the number, and
/// has no leading zero.
pub proof fn law_decimal_notation(n: nat)
    ensures
        number_of(decimal(n)) == n,
        decimal(n).len() > 0,
        forall|i: int| 0 <= i < decimal(n).len() ==> 0x30 <= (#[trigger] decimal(n)[i]) as int <= 0x39,
        n > 0 ==> decimal(n)[0] as int != 0x30,
    decreases n,
{
    if n < 10 {
        let only = seq![digit_char(n)];
        assert(only.drop_last() =~= Seq::empty());
        assert(number_of(only) == 10 * number_of(only.drop_last()) + (only.last() as int - 0x30));
    } else {
        law_decimal_notation(n / 10);
        let front = decimal(n / 10);
        assert(decimal(n).drop_last() =~= front);
        assert(decimal(n)[0] == front[0]);
        assert forall|i: int| 0 <= i < decimal(n).len() implies 0x30 <= (
        #[trigger] decimal(n)[i]) as int <= 0x39 by {
            if i < front.len() {
                assert(decimal(n)[i] == front[i]);
            }
        }
    }
}

/// The views of strings are theirs one by one, and the view of an optional string is
/// its own, if it is there.
pub proof fn law_views_are_one_by_one(strings: Seq<String>, i: int, text: String)
    ensures
        texts(strings).len() == strings.len(),
        0 <= i < strings.len() ==> texts(strings)[i] == strings[i]@,
        optional_text(Some(text)) == Some(text@),
        optional_text(None) is None,
{
}

} // verus!
