//! Line splitting and `key=value` lookup, as the session record format uses them.
use vstd::prelude::*;

verus! {

/// Index of the first `c` in `s`, or `s.len()` when `c` does not occur.
pub open spec fn first_index_of(s: Seq<char>, c: char) -> int
    decreases s.len(),
{
    if s.len() == 0 {
        0
    } else if s[0] == c {
        0
    } else {
        1 + first_index_of(s.drop_first(), c)
    }
}

pub proof fn lemma_first_index_bounds(s: Seq<char>, c: char)
    ensures
        0 <= first_index_of(s, c) <= s.len(),
        first_index_of(s, c) < s.len() ==> s[first_index_of(s, c)] == c,
        forall|k: int| 0 <= k < first_index_of(s, c) ==> s[k] != c,
    decreases s.len(),
{
    if s.len() > 0 && s[0] != c {
        lemma_first_index_bounds(s.drop_first(), c);
        assert forall|k: int| 0 <= k < first_index_of(s, c) implies s[k] != c by {
            if k > 0 {
                assert(s[k] == s.drop_first()[k - 1]);
            }
        }
    }
}

/// A line without its trailing carriage return, as `str::lines` yields it.
pub open spec fn strip_cr(line: Seq<char>) -> Seq<char> {
    if line.len() > 0 && line.last() == '\r' {
        line.drop_last()
    } else {
        line
    }
}

/// `str::lines`: pieces between `\n`, each without a `\r` before its `\n`;
/// a final line ending is optional.
pub open spec fn lines_of(s: Seq<char>) -> Seq<Seq<char>>
    decreases s.len(),
{
    if s.len() == 0 {
        seq![]
    } else {
        let i = first_index_of(s, '\n');
        proof {
            lemma_first_index_bounds(s, '\n');
        }
        if i >= s.len() {
            seq![s]
        } else {
            seq![strip_cr(s.take(i))] + lines_of(s.skip(i + 1))
        }
    }
}

/// `line.strip_prefix(name).and_then(|value| value.strip_prefix('='))`.
pub open spec fn key_value(line: Seq<char>, name: Seq<char>) -> Option<Seq<char>> {
    if line.len() > name.len() && line.take(name.len() as int) == name && line[name.len() as int]
        == '=' {
        Some(line.skip(name.len() as int + 1))
    } else {
        None
    }
}

/// The value of the first line that reads `name=value`.
pub open spec fn field_value(lines: Seq<Seq<char>>, name: Seq<char>) -> Option<Seq<char>>
    decreases lines.len(),
{
    if lines.len() == 0 {
        None
    } else {
        match key_value(lines[0], name) {
            Some(value) => Some(value),
            None => field_value(lines.drop_first(), name),
        }
    }
}

proof fn lemma_first_newline_at(t: Seq<char>, j: int)
    requires
        0 <= j < t.len(),
        t[j] == '\n',
        forall|k: int| 0 <= k < j ==> t[k] != '\n',
    ensures
        first_index_of(t, '\n') == j,
    decreases j,
{
    if j > 0 {
        assert forall|k: int| 0 <= k < j - 1 implies t.drop_first()[k] != '\n' by {
            assert(t.drop_first()[k] == t[k + 1]);
        }
        lemma_first_newline_at(t.drop_first(), j - 1);
    }
}

proof fn lemma_no_newline(t: Seq<char>)
    requires
        forall|k: int| 0 <= k < t.len() ==> t[k] != '\n',
    ensures
        first_index_of(t, '\n') == t.len(),
    decreases t.len(),
{
    if t.len() > 0 {
        assert forall|k: int| 0 <= k < t.len() - 1 implies t.drop_first()[k] != '\n' by {
            assert(t.drop_first()[k] == t[k + 1]);
        }
        lemma_no_newline(t.drop_first());
    }
}

/// A line followed by `\n` contributes exactly that line.
pub proof fn lemma_lines_cons(line: Seq<char>, rest: Seq<char>)
    requires
        forall|k: int| 0 <= k < line.len() ==> line[k] != '\n',
        strip_cr(line) == line,
    ensures
        lines_of(line + seq!['\n'] + rest) == seq![line] + lines_of(rest),
{
    let t = line + seq!['\n'] + rest;
    assert forall|k: int| 0 <= k < line.len() implies t[k] != '\n' by {
        assert(t[k] == line[k]);
    }
    lemma_first_newline_at(t, line.len() as int);
    assert(t.take(line.len() as int) =~= line);
    assert(t.skip(line.len() as int + 1) =~= rest);
}

proof fn lemma_push_deep_view(before: Seq<Vec<char>>, after: Seq<Vec<char>>, before_deep: Seq<Seq<char>>)
    requires
        after.len() == before.len() + 1,
        forall|k: int| 0 <= k < before.len() ==> after[k] == before[k],
        before_deep =~= Seq::new(before.len(), |k: int| before[k].deep_view()),
    ensures
        Seq::new(after.len(), |k: int| after[k].deep_view()) =~= before_deep.push(after.last()@),
{
    assert(after.last().deep_view() =~= after.last()@);
}

fn strip_cr_vec(line: Vec<char>) -> (r: Vec<char>)
    ensures
        r@ == strip_cr(line@),
{
    let mut line = line;
    if line.len() > 0 && line[line.len() - 1] == '\r' {
        line.pop();
    }
    line
}

/// `str::lines`, on the characters of a string.
pub fn split_lines(chars: &Vec<char>) -> (lines: Vec<Vec<char>>)
    ensures
        lines.deep_view() == lines_of(chars@),
{
    let mut lines: Vec<Vec<char>> = Vec::new();
    assert(chars@.skip(0) =~= chars@);
    assert(lines.deep_view() + lines_of(chars@) =~= lines_of(chars@));
    let mut current: Vec<char> = Vec::new();
    let mut start: usize = 0;
    let mut i: usize = 0;
    while i < chars.len()
        invariant
            start <= i <= chars.len(),
            current@ == chars@.subrange(start as int, i as int),
            forall|k: int| start <= k < i ==> chars@[k] != '\n',
            lines_of(chars@) == lines.deep_view() + lines_of(chars@.skip(start as int)),
        decreases chars.len() - i,
    {
        if chars[i] == '\n' {
            let ghost t = chars@.skip(start as int);
            proof {
                assert forall|k: int| 0 <= k < i - start implies t[k] != '\n' by {
                    assert(t[k] == chars@[start + k]);
                }
                lemma_first_newline_at(t, i - start);
                assert(t.take(i - start) =~= current@);
                assert(t.skip(i - start + 1) =~= chars@.skip(i + 1));
            }
            let line = strip_cr_vec(current);
            let ghost before = lines.deep_view();
            let ghost before_v = lines@;
            lines.push(line);
            proof {
                lemma_push_deep_view(before_v, lines@, before);
                assert(lines.deep_view() =~= before.push(strip_cr(t.take(i - start))));
                assert(lines_of(chars@) =~= lines.deep_view() + lines_of(chars@.skip(i + 1)));
            }
            current = Vec::new();
            start = i + 1;
        } else {
            current.push(chars[i]);
        }
        i = i + 1;
    }
    if start < chars.len() {
        let ghost t = chars@.skip(start as int);
        proof {
            assert forall|k: int| 0 <= k < t.len() implies t[k] != '\n' by {
                assert(t[k] == chars@[start + k]);
            }
            lemma_no_newline(t);
            assert(current@ =~= t);
        }
        let ghost before = lines.deep_view();
        let ghost before_v = lines@;
        lines.push(current);
        proof {
            lemma_push_deep_view(before_v, lines@, before);
        }
        assert(lines.deep_view() =~= before.push(t));
    } else {
        assert(chars@.skip(start as int) =~= Seq::<char>::empty());
        assert(lines.deep_view() + Seq::<Seq<char>>::empty() =~= lines.deep_view());
    }
    lines
}

fn key_value_exec(line: &Vec<char>, name: &Vec<char>) -> (r: Option<Vec<char>>)
    ensures
        match r {
            Some(v) => key_value(line@, name@) == Some(v@),
            None => key_value(line@, name@) is None,
        },
{
    if line.len() <= name.len() {
        return None;
    }
    let n = name.len();
    let mut k: usize = 0;
    while k < n
        invariant
            n == name@.len() < line@.len(),
            k <= n,
            forall|j: int| 0 <= j < k ==> line@[j] == name@[j],
        decreases n - k,
    {
        if line[k] != name[k] {
            assert(line@.take(n as int)[k as int] != name@[k as int]);
            return None;
        }
        k = k + 1;
    }
    assert(line@.take(n as int) =~= name@);
    if line[n] != '=' {
        return None;
    }
    let mut value: Vec<char> = Vec::new();
    let mut j = n + 1;
    while j < line.len()
        invariant
            n + 1 <= j <= line@.len(),
            value@ == line@.subrange(n + 1, j as int),
        decreases line.len() - j,
    {
        value.push(line[j]);
        j = j + 1;
    }
    assert(value@ =~= line@.skip(n + 1));
    Some(value)
}

/// The value of the first line that reads `name=value`.
pub fn find_field(lines: &Vec<Vec<char>>, name: &Vec<char>) -> (r: Option<Vec<char>>)
    ensures
        match r {
            Some(v) => field_value(lines.deep_view(), name@) == Some(v@),
            None => field_value(lines.deep_view(), name@) is None,
        },
{
    let ghost all = lines.deep_view();
    assert(all.skip(0) =~= all);
    let mut k: usize = 0;
    while k < lines.len()
        invariant
            k <= lines.len(),
            all == lines.deep_view(),
            field_value(all, name@) == field_value(all.skip(k as int), name@),
        decreases lines.len() - k,
    {
        let ghost rest = all.skip(k as int);
        assert(rest[0] == lines[k as int]@);
        match key_value_exec(&lines[k], name) {
            Some(value) => {
                return Some(value);
            },
            None => {
                assert(rest.drop_first() =~= all.skip(k + 1));
            },
        }
        k = k + 1;
    }
    assert(all.skip(k as int) =~= Seq::<Seq<char>>::empty());
    None
}

/// Unicode `White_Space`, which `char::is_whitespace` tests.
pub open spec fn is_whitespace(c: char) -> bool {
    let v = c as u32;
    (0x09 <= v && v <= 0x0d) || v == 0x20 || v == 0x85 || v == 0xa0 || v == 0x1680 || (0x2000
        <= v && v <= 0x200a) || v == 0x2028 || v == 0x2029 || v == 0x202f || v == 0x205f || v
        == 0x3000
}

/// `char::is_whitespace`.
pub fn char_is_whitespace(c: char) -> (r: bool)
    ensures
        r == is_whitespace(c),
{
    let v = c as u32;
    (0x09 <= v && v <= 0x0d) || v == 0x20 || v == 0x85 || v == 0xa0 || v == 0x1680 || (0x2000
        <= v && v <= 0x200a) || v == 0x2028 || v == 0x2029 || v == 0x202f || v == 0x205f || v
        == 0x3000
}

/// Length of the run of non-whitespace characters that starts `s`.
pub open spec fn word_len(s: Seq<char>) -> int
    decreases s.len(),
{
    if s.len() == 0 || is_whitespace(s[0]) {
        0
    } else {
        1 + word_len(s.drop_first())
    }
}

pub proof fn lemma_word_len_bounds(s: Seq<char>)
    ensures
        0 <= word_len(s) <= s.len(),
    decreases s.len(),
{
    if s.len() > 0 && !is_whitespace(s[0]) {
        lemma_word_len_bounds(s.drop_first());
    }
}

/// `str::split_whitespace`: the maximal runs of non-whitespace characters.
pub open spec fn words(s: Seq<char>) -> Seq<Seq<char>>
    decreases s.len(),
{
    if s.len() == 0 {
        seq![]
    } else if is_whitespace(s[0]) {
        words(s.drop_first())
    } else {
        let n = word_len(s);
        proof {
            lemma_word_len_bounds(s.drop_first());
        }
        seq![s.take(n)] + words(s.skip(n))
    }
}

proof fn lemma_word_len_at(t: Seq<char>, j: int)
    requires
        0 <= j <= t.len(),
        j == t.len() || is_whitespace(t[j]),
        forall|k: int| 0 <= k < j ==> !is_whitespace(t[k]),
    ensures
        word_len(t) == j,
    decreases j,
{
    if j > 0 {
        assert forall|k: int| 0 <= k < j - 1 implies !is_whitespace(t.drop_first()[k]) by {
            assert(t.drop_first()[k] == t[k + 1]);
        }
        if j < t.len() {
            assert(t.drop_first()[j - 1] == t[j]);
        }
        lemma_word_len_at(t.drop_first(), j - 1);
    }
}

/// `str::split_whitespace`, on the characters of a string.
pub fn split_whitespace(chars: &Vec<char>) -> (pieces: Vec<Vec<char>>)
    ensures
        pieces.deep_view() == words(chars@),
{
    let mut pieces: Vec<Vec<char>> = Vec::new();
    let mut current: Vec<char> = Vec::new();
    let mut in_word = false;
    let mut start: usize = 0;
    let mut i: usize = 0;
    assert(chars@.skip(0) =~= chars@);
    assert(pieces.deep_view() + words(chars@) =~= words(chars@));
    while i < chars.len()
        invariant
            start <= i <= chars.len(),
            !in_word ==> start == i,
            in_word ==> start < i,
            current@ == chars@.subrange(start as int, i as int),
            forall|k: int| start <= k < i ==> !is_whitespace(chars@[k]),
            words(chars@) == pieces.deep_view() + words(chars@.skip(start as int)),
        decreases chars.len() - i,
    {
        let c = chars[i];
        if char_is_whitespace(c) {
            if in_word {
                let ghost t = chars@.skip(start as int);
                proof {
                    assert forall|k: int| 0 <= k < i - start implies !is_whitespace(t[k]) by {
                        assert(t[k] == chars@[start + k]);
                    }
                    assert(t[i - start] == c);
                    lemma_word_len_at(t, i - start);
                    assert(t.take(i - start) =~= current@);
                    assert(t.skip(i - start) =~= chars@.skip(i as int));
                }
                let ghost before = pieces.deep_view();
                let ghost before_v = pieces@;
                pieces.push(current);
                proof {
                    lemma_push_deep_view(before_v, pieces@, before);
                    assert(words(chars@) =~= pieces.deep_view() + words(chars@.skip(i as int)));
                }
                current = Vec::new();
                in_word = false;
            }
            proof {
                let t = chars@.skip(i as int);
                assert(t[0] == c);
                assert(t.drop_first() =~= chars@.skip(i + 1));
            }
            start = i + 1;
        } else {
            current.push(c);
            in_word = true;
        }
        i = i + 1;
    }
    if in_word {
        let ghost t = chars@.skip(start as int);
        proof {
            assert forall|k: int| 0 <= k < t.len() implies !is_whitespace(t[k]) by {
                assert(t[k] == chars@[start + k]);
            }
            lemma_word_len_at(t, t.len() as int);
            assert(t.take(t.len() as int) =~= current@);
            assert(t.skip(t.len() as int) =~= Seq::<char>::empty());
            assert(!is_whitespace(t[0]));
            assert(words(t) =~= seq![t.take(t.len() as int)] + words(t.skip(t.len() as int)));
            assert(words(t) =~= seq![t]);
        }
        let ghost before = pieces.deep_view();
        let ghost before_v = pieces@;
        pieces.push(current);
        proof {
            lemma_push_deep_view(before_v, pieces@, before);
        }
        assert(pieces.deep_view() =~= before + seq![t]);
    } else {
        assert(chars@.skip(start as int) =~= Seq::<char>::empty());
        assert(pieces.deep_view() + Seq::<Seq<char>>::empty() =~= pieces.deep_view());
    }
    pieces
}

/// Index of the last `c` in `s`.
pub open spec fn last_index_of(s: Seq<char>, c: char) -> Option<int>
    decreases s.len(),
{
    if s.len() == 0 {
        None
    } else if s.last() == c {
        Some(s.len() - 1)
    } else {
        last_index_of(s.drop_last(), c)
    }
}

/// `str::rfind` of a character, counted in characters.
pub fn rfind_char(chars: &Vec<char>, c: char) -> (r: Option<usize>)
    ensures
        match r {
            Some(i) => last_index_of(chars@, c) == Some(i as int) && i < chars.len(),
            None => last_index_of(chars@, c) is None,
        },
{
    let mut n = chars.len();
    assert(chars@.take(n as int) =~= chars@);
    while n > 0
        invariant
            n <= chars.len(),
            last_index_of(chars@, c) == last_index_of(chars@.take(n as int), c),
        decreases n,
    {
        let ghost t = chars@.take(n as int);
        if chars[n - 1] == c {
            assert(t.last() == c);
            return Some(n - 1);
        }
        assert(t.drop_last() =~= chars@.take(n - 1));
        n = n - 1;
    }
    None
}

/// The characters of `chars` from index `start` on.
pub fn chars_from(chars: &Vec<char>, start: usize) -> (rest: Vec<char>)
    requires
        start <= chars.len(),
    ensures
        rest@ == chars@.skip(start as int),
{
    let mut rest: Vec<char> = Vec::new();
    let mut i = start;
    while i < chars.len()
        invariant
            start <= i <= chars.len(),
            rest@ == chars@.subrange(start as int, i as int),
        decreases chars.len() - i,
    {
        rest.push(chars[i]);
        i = i + 1;
    }
    assert(rest@ =~= chars@.skip(start as int));
    rest
}

/// `str::trim_start`.
pub open spec fn trim_start(s: Seq<char>) -> Seq<char>
    decreases s.len(),
{
    if s.len() > 0 && is_whitespace(s[0]) {
        trim_start(s.drop_first())
    } else {
        s
    }
}

/// `str::trim_end`.
pub open spec fn trim_end(s: Seq<char>) -> Seq<char>
    decreases s.len(),
{
    if s.len() > 0 && is_whitespace(s.last()) {
        trim_end(s.drop_last())
    } else {
        s
    }
}

/// `str::trim`: without leading and trailing whitespace.
pub open spec fn trim(s: Seq<char>) -> Seq<char> {
    trim_end(trim_start(s))
}

proof fn lemma_trim_start_at(s: Seq<char>, i: int)
    requires
        0 <= i <= s.len(),
        forall|k: int| 0 <= k < i ==> is_whitespace(s[k]),
        i == s.len() || !is_whitespace(s[i]),
    ensures
        trim_start(s) == s.skip(i),
    decreases i,
{
    if i == 0 {
        assert(s.skip(0) =~= s);
    } else {
        let rest = s.drop_first();
        assert forall|k: int| 0 <= k < i - 1 implies is_whitespace(rest[k]) by {
            assert(rest[k] == s[k + 1]);
        }
        if i < s.len() {
            assert(rest[i - 1] == s[i]);
        }
        lemma_trim_start_at(rest, i - 1);
        assert(rest.skip(i - 1) =~= s.skip(i));
    }
}

proof fn lemma_trim_end_at(s: Seq<char>, j: int)
    requires
        0 <= j <= s.len(),
        forall|k: int| j <= k < s.len() ==> is_whitespace(s[k]),
        j == 0 || !is_whitespace(s[j - 1]),
    ensures
        trim_end(s) == s.take(j),
    decreases s.len() - j,
{
    if j == s.len() {
        assert(s.take(j) =~= s);
    } else {
        let rest = s.drop_last();
        assert forall|k: int| j <= k < rest.len() implies is_whitespace(rest[k]) by {
            assert(rest[k] == s[k]);
        }
        if j > 0 {
            assert(rest[j - 1] == s[j - 1]);
        }
        lemma_trim_end_at(rest, j);
        assert(rest.take(j) =~= s.take(j));
    }
}

/// `str::trim`, on characters.
pub fn trim_chars(chars: &Vec<char>) -> (trimmed: Vec<char>)
    ensures
        trimmed@ == trim(chars@),
{
    let n = chars.len();
    let mut start: usize = 0;
    while start < n && char_is_whitespace(chars[start])
        invariant
            start <= n == chars@.len(),
            forall|k: int| 0 <= k < start ==> is_whitespace(chars@[k]),
        decreases n - start,
    {
        start = start + 1;
    }
    proof {
        lemma_trim_start_at(chars@, start as int);
    }
    let rest = chars_from(chars, start);
    let mut end: usize = rest.len();
    while end > 0 && char_is_whitespace(rest[end - 1])
        invariant
            end <= rest@.len(),
            forall|k: int| end <= k < rest@.len() ==> is_whitespace(rest@[k]),
        decreases end,
    {
        end = end - 1;
    }
    proof {
        lemma_trim_end_at(rest@, end as int);
    }
    let mut out: Vec<char> = Vec::new();
    let mut k: usize = 0;
    while k < end
        invariant
            k <= end <= rest@.len(),
            out@ == rest@.take(k as int),
        decreases end - k,
    {
        out.push(rest[k]);
        k = k + 1;
        assert(rest@.take(k as int) =~= rest@.take(k - 1).push(rest@[k - 1]));
    }
    out
}

} // verus!
