//! Text as sequences of characters: the operations that the rest of the crate
//! states its contracts over, each with an executable counterpart.

use vstd::prelude::*;

verus! {

/// The views of the elements of `s`, in order.
pub open spec fn views<T: View>(s: Seq<T>) -> Seq<T::V> {
    Seq::new(s.len(), |i: int| s[i]@)
}

/// The views of a sequence with one element more.
pub proof fn lemma_views_push<T: View>(s: Seq<T>, x: T)
    ensures
        views(s.push(x)) == views(s).push(x@),
{
    assert(views(s.push(x)) =~= views(s).push(x@));
}

/// Whether `c` is white space: the code points that carry the Unicode
/// property `White_Space`.
pub open spec fn is_space(c: char) -> bool {
    let n = c as u32;
    ||| 0x09 <= n <= 0x0d
    ||| n == 0x20
    ||| n == 0x85
    ||| n == 0xa0
    ||| n == 0x1680
    ||| 0x2000 <= n <= 0x200a
    ||| n == 0x2028
    ||| n == 0x2029
    ||| n == 0x202f
    ||| n == 0x205f
    ||| n == 0x3000
}

/// `s` without its leading white space.
pub open spec fn trimmed_start(s: Seq<char>) -> Seq<char>
    decreases s.len(),
{
    if s.len() > 0 && is_space(s[0]) {
        trimmed_start(s.drop_first())
    } else {
        s
    }
}

/// `s` without its trailing white space.
pub open spec fn trimmed_end(s: Seq<char>) -> Seq<char>
    decreases s.len(),
{
    if s.len() > 0 && is_space(s.last()) {
        trimmed_end(s.drop_last())
    } else {
        s
    }
}

/// `s` without its leading and trailing white space.
pub open spec fn trimmed(s: Seq<char>) -> Seq<char> {
    trimmed_end(trimmed_start(s))
}

/// Whether `d` stands in `s` at position `i`.
pub open spec fn occurs_at(s: Seq<char>, d: Seq<char>, i: int) -> bool {
    0 <= i && i + d.len() <= s.len() && s.subrange(i, i + d.len()) == d
}

/// Whether `i` is the leftmost position at which `d` stands in `s`.
pub open spec fn is_first_occurrence(s: Seq<char>, d: Seq<char>, i: int) -> bool {
    occurs_at(s, d, i) && forall|j: int| 0 <= j < i ==> !occurs_at(s, d, j)
}

/// The leftmost position at which `d` stands in `s`, if it stands there at
/// all.
pub open spec fn first_occurrence(s: Seq<char>, d: Seq<char>) -> Option<int> {
    if exists|i: int| is_first_occurrence(s, d, i) {
        Some(choose|i: int| is_first_occurrence(s, d, i))
    } else {
        None
    }
}

/// Whether `d` stands somewhere in `s`.
pub open spec fn contains(s: Seq<char>, d: Seq<char>) -> bool {
    exists|i: int| occurs_at(s, d, i)
}

/// The pieces of `s` between the occurrences of a non-empty delimiter `d`,
/// taken from the left and without overlap. A text without the delimiter is
/// one piece; with an empty `d` nothing is split.
pub open spec fn split_on(s: Seq<char>, d: Seq<char>) -> Seq<Seq<char>>
    decreases s.len(),
{
    match first_occurrence(s, d) {
        Some(i) => if d.len() > 0 {
            seq![s.take(i)] + split_on(s.skip(i + d.len()), d)
        } else {
            seq![s]
        },
        None => seq![s],
    }
}

/// `l` without the carriage return that ends it, if one does.
pub open spec fn without_cr(l: Seq<char>) -> Seq<char> {
    if l.len() > 0 && l.last() == '\r' {
        l.drop_last()
    } else {
        l
    }
}

/// The lines of `s`. A line ends at a line feed, or at the end of the text;
/// the line feed, and a carriage return directly before it, belong to no
/// line. A text that ends in a line feed has no empty line after it.
pub open spec fn lines_of(s: Seq<char>) -> Seq<Seq<char>>
    decreases s.len(),
{
    if s.len() == 0 {
        Seq::empty()
    } else {
        match first_occurrence(s, seq!['\n']) {
            Some(i) => seq![without_cr(s.take(i))] + lines_of(s.skip(i + 1)),
            None => seq![s],
        }
    }
}

/// `s`, followed by as many spaces as it takes to reach `width` characters.
pub open spec fn padded(s: Seq<char>, width: nat) -> Seq<char> {
    if s.len() >= width {
        s
    } else {
        s + Seq::new((width - s.len()) as nat, |i: int| ' ')
    }
}

/// The character of a decimal digit.
pub open spec fn digit(d: nat) -> char {
    if d == 0 {
        '0'
    } else if d == 1 {
        '1'
    } else if d == 2 {
        '2'
    } else if d == 3 {
        '3'
    } else if d == 4 {
        '4'
    } else if d == 5 {
        '5'
    } else if d == 6 {
        '6'
    } else if d == 7 {
        '7'
    } else if d == 8 {
        '8'
    } else {
        '9'
    }
}

/// `n` in decimal digits, without leading zeros.
pub open spec fn decimal(n: nat) -> Seq<char>
    decreases n,
{
    if n < 10 {
        seq![digit(n)]
    } else {
        decimal(n / 10).push(digit(n % 10))
    }
}

/// `words` in one text, with a space between one word and the next.
pub open spec fn joined(words: Seq<Seq<char>>) -> Seq<char>
    decreases words.len(),
{
    if words.len() == 0 {
        Seq::empty()
    } else if words.len() == 1 {
        words[0]
    } else {
        joined(words.drop_last()) + seq![' '] + words.last()
    }
}

/// The leftmost occurrence is the one that `first_occurrence` names.
pub proof fn lemma_first_occurrence(s: Seq<char>, d: Seq<char>, i: int)
    requires
        is_first_occurrence(s, d, i),
    ensures
        first_occurrence(s, d) == Some(i),
{
    let k = choose|k: int| is_first_occurrence(s, d, k);
    assert(is_first_occurrence(s, d, k));
    if k < i {
        assert(!occurs_at(s, d, k));
    }
    if i < k {
        assert(!occurs_at(s, d, i));
    }
}

/// A text in which `d` stands nowhere has no first occurrence of it.
pub proof fn lemma_no_occurrence(s: Seq<char>, d: Seq<char>)
    requires
        !contains(s, d),
    ensures
        first_occurrence(s, d) is None,
{
    if exists|i: int| is_first_occurrence(s, d, i) {
        let k = choose|k: int| is_first_occurrence(s, d, k);
        assert(occurs_at(s, d, k));
    }
}

/// Positions in a suffix of `s` are positions in `s`, moved by what was
/// skipped.
pub proof fn lemma_occurs_in_suffix(s: Seq<char>, d: Seq<char>, a: int, k: int)
    requires
        0 <= a <= s.len(),
        0 <= k,
    ensures
        occurs_at(s.skip(a), d, k) == occurs_at(s, d, a + k),
{
    if k + d.len() <= s.len() - a {
        assert(s.skip(a).subrange(k, k + d.len()) =~= s.subrange(a + k, a + k + d.len()));
    }
}

/// Whether `c` is a decimal digit.
pub open spec fn is_digit(c: char) -> bool {
    0x30 <= c as u32 <= 0x39
}

/// A number in decimal is made of digits, and of one at least.
pub proof fn lemma_decimal_digits(n: nat)
    ensures
        decimal(n).len() >= 1,
        forall|i: int| 0 <= i < decimal(n).len() ==> is_digit(#[trigger] decimal(n)[i]),
    decreases n,
{
    if n >= 10 {
        lemma_decimal_digits(n / 10);
    }
}

/// Trimming the start makes a text no longer, and shorter where it starts
/// with white space.
pub proof fn lemma_trimmed_start_len(s: Seq<char>)
    ensures
        trimmed_start(s).len() <= s.len(),
        s.len() > 0 && is_space(s[0]) ==> trimmed_start(s).len() < s.len(),
    decreases s.len(),
{
    if s.len() > 0 && is_space(s[0]) {
        lemma_trimmed_start_len(s.drop_first());
    }
}

/// Trimming the end makes a text no longer, and shorter where it ends in
/// white space.
pub proof fn lemma_trimmed_end_len(s: Seq<char>)
    ensures
        trimmed_end(s).len() <= s.len(),
        s.len() > 0 && is_space(s.last()) ==> trimmed_end(s).len() < s.len(),
    decreases s.len(),
{
    if s.len() > 0 && is_space(s.last()) {
        lemma_trimmed_end_len(s.drop_last());
    }
}

/// A text that trimming leaves as it is has no white space at either end.
pub proof fn lemma_trimmed_fixed(s: Seq<char>)
    requires
        trimmed(s) == s,
        s.len() > 0,
    ensures
        !is_space(s[0]),
        !is_space(s.last()),
        trimmed_start(s) == s,
        trimmed_end(s) == s,
{
    lemma_trimmed_start_len(s);
    lemma_trimmed_end_len(trimmed_start(s));
    lemma_trimmed_end_len(s);
}

/// A text that holds a character that is no white space is not blank.
pub proof fn lemma_not_blank(s: Seq<char>, i: int)
    requires
        0 <= i < s.len(),
        !is_space(s[i]),
    ensures
        trimmed(s).len() > 0,
{
    lemma_trimmed_start_keeps(s, i);
    let t = trimmed_start(s);
    let k = choose|k: int| 0 <= k < t.len() && #[trigger] t[k] == s[i];
    lemma_trimmed_end_keeps(t, k);
}

/// Trimming the start removes no character that is no white space.
proof fn lemma_trimmed_start_keeps(s: Seq<char>, i: int)
    requires
        0 <= i < s.len(),
        !is_space(s[i]),
    ensures
        exists|k: int| 0 <= k < trimmed_start(s).len() && #[trigger] trimmed_start(s)[k] == s[i],
    decreases s.len(),
{
    if is_space(s[0]) {
        let rest = s.drop_first();
        lemma_trimmed_start_keeps(rest, i - 1);
        let k = choose|k: int|
            0 <= k < trimmed_start(rest).len() && #[trigger] trimmed_start(rest)[k] == rest[i - 1];
        assert(trimmed_start(s)[k] == s[i]);
    } else {
        assert(trimmed_start(s)[i] == s[i]);
    }
}

/// Trimming the end removes no character that is no white space.
proof fn lemma_trimmed_end_keeps(s: Seq<char>, i: int)
    requires
        0 <= i < s.len(),
        !is_space(s[i]),
    ensures
        trimmed_end(s).len() > 0,
    decreases s.len(),
{
    if is_space(s.last()) {
        lemma_trimmed_end_keeps(s.drop_last(), i);
    }
}

/// The characters of `s`, in order.
pub fn chars_of(s: &str) -> (out: Vec<char>)
    ensures
        out@ == s@,
{
    let mut out: Vec<char> = Vec::new();
    for c in it: s.chars()
        invariant
            it.seq() == s@,
            out@.len() == it.index(),
            forall|i: int| 0 <= i < out@.len() ==> out@[i] == it.seq()[i],
    {
        out.push(c);
    }
    assert(out@ =~= s@);
    out
}

/// Tells white space from other characters.
pub fn is_whitespace(c: char) -> (yes: bool)
    ensures
        yes == is_space(c),
{
    let n: u32 = c as u32;
    (0x09 <= n && n <= 0x0d) || n == 0x20 || n == 0x85 || n == 0xa0 || n == 0x1680 || (0x2000 <= n
        && n <= 0x200a) || n == 0x2028 || n == 0x2029 || n == 0x202f || n == 0x205f || n == 0x3000
}

/// The bounds of what is left of `chars` once the white space at both ends
/// is gone.
fn trim_bounds(chars: &Vec<char>) -> (bounds: (usize, usize))
    ensures
        bounds.0 <= bounds.1 <= chars@.len(),
        chars@.subrange(bounds.0 as int, bounds.1 as int) == trimmed(chars@),
{
    let n = chars.len();
    let mut a: usize = 0;
    assert(chars@.skip(0) =~= chars@);
    while a < n && is_whitespace(chars[a])
        invariant
            a <= n == chars@.len(),
            trimmed_start(chars@) == trimmed_start(chars@.skip(a as int)),
        decreases n - a,
    {
        assert(chars@.skip(a as int).drop_first() =~= chars@.skip(a + 1));
        a += 1;
    }
    let ghost rest = chars@.skip(a as int);
    assert(rest.take(n - a) =~= rest);
    let mut b: usize = n;
    while b > a && is_whitespace(chars[b - 1])
        invariant
            a <= b <= n == chars@.len(),
            rest == chars@.skip(a as int),
            trimmed_end(rest) == trimmed_end(rest.take(b - a)),
        decreases b,
    {
        assert(rest.take(b - a).drop_last() =~= rest.take(b - a - 1));
        b -= 1;
    }
    assert(rest.take(b - a) =~= chars@.subrange(a as int, b as int));
    (a, b)
}

/// `s` without its leading and trailing white space.
pub fn trim(s: &str) -> (out: String)
    ensures
        out@ == trimmed(s@),
{
    let chars = chars_of(s);
    let (a, b) = trim_bounds(&chars);
    s.substring_char(a, b).to_owned()
}

/// Whether `d` stands in `chars` at position `i`.
fn occurs(chars: &Vec<char>, d: &Vec<char>, i: usize) -> (yes: bool)
    ensures
        yes == occurs_at(chars@, d@, i as int),
{
    let n = chars.len();
    let m = d.len();
    if m > n || i > n - m {
        return false;
    }
    let mut k: usize = 0;
    while k < m
        invariant
            k <= m == d@.len(),
            i + m <= n == chars@.len(),
            forall|j: int| 0 <= j < k ==> chars@[i + j] == d@[j],
        decreases m - k,
    {
        if chars[i + k] != d[k] {
            assert(chars@.subrange(i as int, i + m)[k as int] == chars@[i + k]);
            return false;
        }
        k += 1;
    }
    assert(chars@.subrange(i as int, i + m) =~= d@);
    true
}

/// The leftmost position at or after `from` at which `d` stands in `chars`.
fn find(chars: &Vec<char>, d: &Vec<char>, from: usize) -> (found: Option<usize>)
    requires
        from <= chars@.len(),
    ensures
        match found {
            Some(i) => from <= i && occurs_at(chars@, d@, i as int) && forall|j: int|
                from <= j < i ==> !occurs_at(chars@, d@, j),
            None => forall|j: int| from <= j ==> !occurs_at(chars@, d@, j),
        },
{
    let n = chars.len();
    let mut i: usize = from;
    while i <= n
        invariant
            from <= i,
            n == chars@.len(),
            forall|j: int| from <= j < i ==> !occurs_at(chars@, d@, j),
        decreases n + 1 - i,
    {
        if occurs(chars, d, i) {
            return Some(i);
        }
        if i == n {
            return None;
        }
        i += 1;
    }
    None
}

/// The bounds in `chars` of the pieces that `split_on` gives.
fn split_bounds(chars: &Vec<char>, d: &Vec<char>) -> (bounds: Vec<(usize, usize)>)
    requires
        d@.len() > 0,
    ensures
        bounds@.len() == split_on(chars@, d@).len(),
        forall|k: int|
            #![trigger bounds@[k]]
            0 <= k < bounds@.len() ==> bounds@[k].0 <= bounds@[k].1 <= chars@.len() && split_on(
                chars@,
                d@,
            )[k] == chars@.subrange(bounds@[k].0 as int, bounds@[k].1 as int),
{
    let n = chars.len();
    let m = d.len();
    let mut bounds: Vec<(usize, usize)> = Vec::new();
    let mut start: usize = 0;
    let ghost mut done: Seq<Seq<char>> = Seq::empty();
    assert(chars@.skip(0) =~= chars@);
    assert(done + split_on(chars@, d@) =~= split_on(chars@, d@));
    loop
        invariant_except_break
            start <= n,
            split_on(chars@, d@) == done + split_on(chars@.skip(start as int), d@),
        invariant
            n == chars@.len(),
            m == d@.len(),
            m > 0,
            done.len() == bounds@.len(),
            forall|k: int|
                #![trigger bounds@[k]]
                0 <= k < bounds@.len() ==> bounds@[k].0 <= bounds@[k].1 <= n && done[k]
                    == chars@.subrange(bounds@[k].0 as int, bounds@[k].1 as int),
        ensures
            split_on(chars@, d@) == done,
        decreases n - start,
    {
        let ghost rest = chars@.skip(start as int);
        match find(chars, d, start) {
            Some(i) => {
                proof {
                    assert forall|j: int| 0 <= j < i - start implies !occurs_at(rest, d@, j) by {
                        lemma_occurs_in_suffix(chars@, d@, start as int, j);
                    }
                    lemma_occurs_in_suffix(chars@, d@, start as int, i - start);
                    lemma_first_occurrence(rest, d@, i - start);
                    assert(rest.take(i - start) =~= chars@.subrange(start as int, i as int));
                    assert(rest.skip(i - start + m) =~= chars@.skip(i + m));
                    assert(done + (seq![rest.take(i - start)] + split_on(chars@.skip(i + m), d@))
                        =~= done.push(chars@.subrange(start as int, i as int)) + split_on(
                        chars@.skip(i + m),
                        d@,
                    ));
                    done = done.push(chars@.subrange(start as int, i as int));
                }
                bounds.push((start, i));
                start = i + m;
            },
            None => {
                proof {
                    assert forall|j: int| !occurs_at(rest, d@, j) by {
                        if 0 <= j {
                            lemma_occurs_in_suffix(chars@, d@, start as int, j);
                        }
                    }
                    lemma_no_occurrence(rest, d@);
                    assert(rest =~= chars@.subrange(start as int, n as int));
                    assert(done + seq![rest] =~= done.push(rest));
                    done = done.push(rest);
                }
                bounds.push((start, n));
                break ;
            },
        }
    }
    bounds
}

/// The pieces of `s` between the occurrences of `d`; `s` in one piece where
/// `d` is empty.
pub fn split(s: &str, d: &str) -> (parts: Vec<String>)
    ensures
        views(parts@) == split_on(s@, d@),
{
    let chars = chars_of(s);
    let delim = chars_of(d);
    let mut parts: Vec<String> = Vec::new();
    if delim.len() == 0 {
        parts.push(s.to_owned());
        assert(views(parts@) =~= seq![s@]);
        return parts;
    }
    let bounds = split_bounds(&chars, &delim);
    let mut k: usize = 0;
    while k < bounds.len()
        invariant
            k <= bounds@.len(),
            parts@.len() == k,
            chars@ == s@,
            delim@ == d@,
            bounds@.len() == split_on(s@, d@).len(),
            forall|j: int|
                #![trigger bounds@[j]]
                0 <= j < bounds@.len() ==> bounds@[j].0 <= bounds@[j].1 <= chars@.len()
                    && split_on(chars@, delim@)[j] == chars@.subrange(
                    bounds@[j].0 as int,
                    bounds@[j].1 as int,
                ),
            forall|j: int| 0 <= j < k ==> #[trigger] parts@[j]@ == split_on(s@, d@)[j],
        decreases bounds@.len() - k,
    {
        let (a, b) = bounds[k];
        parts.push(s.substring_char(a, b).to_owned());
        k += 1;
    }
    assert(views(parts@) =~= split_on(s@, d@));
    parts
}

/// The lines of `s`.
pub fn lines(s: &str) -> (out: Vec<String>)
    ensures
        views(out@) == lines_of(s@),
{
    let chars = chars_of(s);
    let mut feed: Vec<char> = Vec::new();
    feed.push('\n');
    assert(feed@ =~= seq!['\n']);
    let n = chars.len();
    let mut out: Vec<String> = Vec::new();
    let mut start: usize = 0;
    let ghost mut done: Seq<Seq<char>> = Seq::empty();
    assert(chars@.skip(0) =~= chars@);
    assert(done + lines_of(chars@) =~= lines_of(chars@));
    while start < n
        invariant
            start <= n == chars@.len(),
            chars@ == s@,
            feed@ == seq!['\n'],
            lines_of(chars@) == done + lines_of(chars@.skip(start as int)),
            done.len() == out@.len(),
            forall|k: int| 0 <= k < out@.len() ==> #[trigger] out@[k]@ == done[k],
        decreases n - start,
    {
        let ghost rest = chars@.skip(start as int);
        let ghost line: Seq<char>;
        match find(&chars, &feed, start) {
            Some(i) => {
                let end: usize = if i > start && chars[i - 1] == '\r' {
                    i - 1
                } else {
                    i
                };
                proof {
                    assert forall|j: int| 0 <= j < i - start implies !occurs_at(rest, feed@, j) by {
                        lemma_occurs_in_suffix(chars@, feed@, start as int, j);
                    }
                    lemma_occurs_in_suffix(chars@, feed@, start as int, i - start);
                    lemma_first_occurrence(rest, feed@, i - start);
                    assert(rest.take(i - start) =~= chars@.subrange(start as int, i as int));
                    assert(rest.skip(i - start + 1) =~= chars@.skip(i + 1));
                    line = chars@.subrange(start as int, end as int);
                    assert(without_cr(rest.take(i - start)) =~= line);
                    assert(done + (seq![line] + lines_of(chars@.skip(i + 1))) =~= done.push(line)
                        + lines_of(chars@.skip(i + 1)));
                    done = done.push(line);
                }
                out.push(s.substring_char(start, end).to_owned());
                start = i + 1;
            },
            None => {
                proof {
                    assert forall|j: int| !occurs_at(rest, feed@, j) by {
                        if 0 <= j {
                            lemma_occurs_in_suffix(chars@, feed@, start as int, j);
                        }
                    }
                    lemma_no_occurrence(rest, feed@);
                    assert(rest =~= chars@.subrange(start as int, n as int));
                    assert(chars@.skip(n as int).len() == 0);
                    assert(done + (seq![rest] + lines_of(chars@.skip(n as int))) =~= done.push(
                        rest,
                    ));
                    assert(seq![rest] + lines_of(chars@.skip(n as int)) =~= seq![rest]);
                    done = done.push(rest);
                }
                out.push(s.substring_char(start, n).to_owned());
                start = n;
            },
        }
    }
    assert(done + lines_of(chars@.skip(start as int)) =~= done);
    assert(views(out@) =~= done);
    out
}

/// Whether `needle` stands somewhere in `s`.
pub fn has(s: &str, needle: &str) -> (yes: bool)
    ensures
        yes == contains(s@, needle@),
{
    let chars = chars_of(s);
    let wanted = chars_of(needle);
    find(&chars, &wanted, 0).is_some()
}

/// Whether two texts hold the same characters.
pub fn same(a: &str, b: &str) -> (yes: bool)
    ensures
        yes == (a@ == b@),
{
    a.to_owned() == b.to_owned()
}

/// `s`, followed by as many spaces as it takes to reach `width` characters.
pub fn pad_right(s: &str, width: usize) -> (out: String)
    ensures
        out@ == padded(s@, width as nat),
{
    let mut out = s.to_owned();
    let mut n = s.unicode_len();
    if n >= width {
        return out;
    }
    let ghost len = n;
    proof {
        reveal_strlit(" ");
    }
    assert(out@ =~= s@ + Seq::new(0, |i: int| ' '));
    while n < width
        invariant
            len == s@.len() <= n <= width,
            out@ == s@ + Seq::new((n - len) as nat, |i: int| ' '),
            " "@ == seq![' '],
        decreases width - n,
    {
        out.append(" ");
        assert(out@ =~= s@ + Seq::new((n + 1 - len) as nat, |i: int| ' '));
        n += 1;
    }
    out
}

/// The text of one decimal digit.
fn digit_text(d: u64) -> (out: &'static str)
    requires
        d < 10,
    ensures
        out@ == seq![digit(d as nat)],
{
    proof {
        reveal_strlit("0");
        reveal_strlit("1");
        reveal_strlit("2");
        reveal_strlit("3");
        reveal_strlit("4");
        reveal_strlit("5");
        reveal_strlit("6");
        reveal_strlit("7");
        reveal_strlit("8");
        reveal_strlit("9");
    }
    let out = if d == 0 {
        "0"
    } else if d == 1 {
        "1"
    } else if d == 2 {
        "2"
    } else if d == 3 {
        "3"
    } else if d == 4 {
        "4"
    } else if d == 5 {
        "5"
    } else if d == 6 {
        "6"
    } else if d == 7 {
        "7"
    } else if d == 8 {
        "8"
    } else {
        "9"
    };
    assert(out@ =~= seq![digit(d as nat)]);
    out
}

/// `n` in decimal digits.
pub fn decimal_text(n: u64) -> (out: String)
    ensures
        out@ == decimal(n as nat),
    decreases n,
{
    if n < 10 {
        digit_text(n).to_owned()
    } else {
        let mut out = decimal_text(n / 10);
        out.append(digit_text(n % 10));
        assert(out@ =~= decimal(n as nat));
        out
    }
}

/// `words` in one text, with a space between one word and the next.
pub fn join_words(words: &Vec<String>) -> (out: String)
    ensures
        out@ == joined(views(words@)),
{
    let mut out = String::new();
    let mut k: usize = 0;
    proof {
        reveal_strlit(" ");
    }
    assert(views(words@).take(0) =~= Seq::<Seq<char>>::empty());
    while k < words.len()
        invariant
            k <= words@.len(),
            out@ == joined(views(words@).take(k as int)),
            " "@ == seq![' '],
        decreases words@.len() - k,
    {
        proof {
            assert(views(words@).take(k + 1).drop_last() =~= views(words@).take(k as int));
            assert(views(words@).take(k + 1).last() == words@[k as int]@);
        }
        if k > 0 {
            out.append(" ");
        }
        out.append(words[k].as_str());
        assert(out@ =~= joined(views(words@).take(k + 1)));
        k += 1;
    }
    assert(views(words@).take(k as int) =~= views(words@));
    out
}

} // verus!
