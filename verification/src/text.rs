//! The handful of string operations that the rules of this crate are stated in.

use vstd::prelude::*;
use vstd::string::*;

verus! {

/// Unicode's `White_Space` property.
pub open spec fn white_space(c: char) -> bool {
    let n = c as u32;
    ||| 0x9 <= n <= 0xd
    ||| n == 0x20
    ||| n == 0x85
    ||| n == 0xa0
    ||| n == 0x1680
    ||| 0x2000 <= n <= 0x200a
    ||| n == 0x2028
    ||| n == 0x2029
    ||| n == 0x202f
    ||| n == 0x205f
    ||| n == 0x3000
}

/// Nothing but white space.
pub open spec fn blank(s: Seq<char>) -> bool {
    forall|i: int| 0 <= i < s.len() ==> white_space(#[trigger] s[i])
}

/// `phrase` stands in `s`, starting at some position.
pub open spec fn occurs(phrase: Seq<char>, s: Seq<char>) -> bool {
    exists|at: int| occurs_at(phrase, s, at)
}

/// `phrase` stands in `s`, starting at `at`.
pub open spec fn occurs_at(phrase: Seq<char>, s: Seq<char>, at: int) -> bool {
    0 <= at && at + phrase.len() <= s.len() && s.subrange(at, at + phrase.len()) == phrase
}

/// `s` without the run of `c` that ends it.
pub open spec fn without_trailing(s: Seq<char>, c: char) -> Seq<char>
    decreases s.len(),
{
    if s.len() > 0 && s.last() == c {
        without_trailing(s.drop_last(), c)
    } else {
        s
    }
}

/// What is left does not end in `c`, and `s` is what is left followed by a run of `c`.
pub proof fn law_without_trailing(s: Seq<char>, c: char)
    ensures
        ({
            let left = without_trailing(s, c);
            &&& left.len() <= s.len()
            &&& left == s.take(left.len() as int)
            &&& left.len() > 0 ==> left.last() != c
            &&& forall|i: int| left.len() <= i < s.len() ==> s[i] == c
        }),
    decreases s.len(),
{
    if s.len() > 0 && s.last() == c {
        law_without_trailing(s.drop_last(), c);
        let left = without_trailing(s, c);
        assert(left == s.drop_last().take(left.len() as int));
        assert(s.drop_last().take(left.len() as int) =~= s.take(left.len() as int));
        assert forall|i: int| left.len() <= i < s.len() implies s[i] == c by {
            if i < s.len() - 1 {
                assert(s.drop_last()[i] == s[i]);
            }
        }
    } else {
        assert(s.take(s.len() as int) =~= s);
    }
}

/// Whether two texts are the same.
pub fn text_eq(a: &str, b: &str) -> (same: bool)
    ensures
        same == (a@ == b@),
{
    a.to_owned() == b.to_owned()
}

/// The characters of a text.
pub fn chars_of(s: &str) -> (chars: Vec<char>)
    ensures
        chars@ == s@,
{
    let mut chars: Vec<char> = Vec::new();
    for c in it: s.chars()
        invariant
            it.seq() == s@,
            chars@ == s@.take(it.index() as int),
    {
        proof {
            assert(s@.take(it.index() + 1) =~= s@.take(it.index() as int).push(c));
        }
        chars.push(c);
    }
    proof {
        assert(s@.take(s@.len() as int) =~= s@);
    }
    chars
}

/// Whether `phrase` stands in `s` at `at`.
fn matches_at(phrase: &Vec<char>, s: &Vec<char>, at: usize) -> (yes: bool)
    requires
        at + phrase@.len() <= s@.len(),
    ensures
        yes == occurs_at(phrase@, s@, at as int),
{
    let mut i: usize = 0;
    while i < phrase.len()
        invariant
            i <= phrase@.len(),
            at + phrase@.len() <= s.len(),
            forall|j: int| 0 <= j < i ==> s@[at + j] == phrase@[j],
        decreases phrase@.len() - i,
    {
        if s[at + i] != phrase[i] {
            proof {
                let part = s@.subrange(at as int, at + phrase@.len());
                assert(part[i as int] == s@[at + i]);
            }
            return false;
        }
        i += 1;
    }
    proof {
        assert(s@.subrange(at as int, at + phrase@.len()) =~= phrase@);
    }
    true
}

/// Whether `s` ends in `suffix`.
pub fn ends_with(s: &str, suffix: &str) -> (yes: bool)
    ensures
        yes == suffix@.is_suffix_of(s@),
{
    let whole = chars_of(s);
    let end = chars_of(suffix);
    if end.len() > whole.len() {
        return false;
    }
    let at: usize = whole.len() - end.len();
    matches_at(&end, &whole, at)
}

/// Whether `s` starts with `prefix`.
pub fn starts_with(s: &str, prefix: &str) -> (yes: bool)
    ensures
        yes == prefix@.is_prefix_of(s@),
{
    let whole = chars_of(s);
    let start = chars_of(prefix);
    if start.len() > whole.len() {
        return false;
    }
    matches_at(&start, &whole, 0)
}

/// Whether `phrase` stands anywhere in `s`.
pub fn contains(s: &str, phrase: &str) -> (yes: bool)
    ensures
        yes == occurs(phrase@, s@),
{
    let whole = chars_of(s);
    let part = chars_of(phrase);
    if part.len() > whole.len() {
        return false;
    }
    let last: usize = whole.len() - part.len();
    let mut at: usize = 0;
    loop
        invariant
            whole@ == s@,
            part@ == phrase@,
            part@.len() <= whole@.len(),
            last == whole@.len() - part@.len(),
            at <= last,
            forall|j: int| 0 <= j < at ==> !occurs_at(phrase@, s@, j),
        decreases last - at,
    {
        if matches_at(&part, &whole, at) {
            return true;
        }
        if at == last {
            return false;
        }
        at += 1;
    }
}

/// `s` without the run of `c` that ends it.
pub fn trim_end_matches<'a>(s: &'a str, c: char) -> (left: &'a str)
    ensures
        left@ == without_trailing(s@, c),
{
    let chars = chars_of(s);
    let mut len: usize = chars.len();
    proof {
        assert(s@.take(s@.len() as int) =~= s@);
    }
    while len > 0 && chars[len - 1] == c
        invariant
            chars@ == s@,
            len <= s@.len(),
            without_trailing(s@.take(len as int), c) == without_trailing(s@, c),
        ensures
            len <= s@.len(),
            without_trailing(s@.take(len as int), c) == without_trailing(s@, c),
            len == 0 || s@[len - 1] != c,
        decreases len,
    {
        proof {
            assert(s@.take(len as int).drop_last() =~= s@.take(len - 1));
        }
        len -= 1;
    }
    s.substring_char(0, len)
}

/// Whether a character is white space.
pub fn is_white_space(c: char) -> (yes: bool)
    ensures
        yes == white_space(c),
{
    let n: u32 = c as u32;
    (0x9 <= n && n <= 0xd) || n == 0x20 || n == 0x85 || n == 0xa0 || n == 0x1680 || (0x2000 <= n && n
        <= 0x200a) || n == 0x2028 || n == 0x2029 || n == 0x202f || n == 0x205f || n == 0x3000
}

/// `s` without the white space that leads it.
pub open spec fn without_lead(s: Seq<char>) -> Seq<char>
    decreases s.len(),
{
    if s.len() > 0 && white_space(s[0]) {
        without_lead(s.drop_first())
    } else {
        s
    }
}

/// `s` without the white space that ends it.
pub open spec fn without_tail(s: Seq<char>) -> Seq<char>
    decreases s.len(),
{
    if s.len() > 0 && white_space(s.last()) {
        without_tail(s.drop_last())
    } else {
        s
    }
}

/// `s` without the white space around it.
pub fn trim<'a>(s: &'a str) -> (inner: &'a str)
    ensures
        inner@ == without_tail(without_lead(s@)),
{
    let chars = chars_of(s);
    let mut from: usize = 0;
    proof {
        assert(s@.skip(0) =~= s@);
    }
    while from < chars.len() && is_white_space(chars[from])
        invariant
            chars@ == s@,
            from <= s@.len(),
            without_lead(s@.skip(from as int)) == without_lead(s@),
        ensures
            from <= s@.len(),
            without_lead(s@.skip(from as int)) == without_lead(s@),
            from == s@.len() || !white_space(s@[from as int]),
        decreases s@.len() - from,
    {
        proof {
            assert(s@.skip(from as int).drop_first() =~= s@.skip(from + 1));
        }
        from += 1;
    }
    let ghost led = s@.skip(from as int);
    assert(without_lead(s@) == led);
    let mut to: usize = chars.len();
    proof {
        assert(led.take(to - from) =~= led);
    }
    while to > from && is_white_space(chars[to - 1])
        invariant
            chars@ == s@,
            led == s@.skip(from as int),
            from <= to <= s@.len(),
            without_tail(led.take(to - from)) == without_tail(led),
        ensures
            from <= to <= s@.len(),
            without_tail(led.take(to - from)) == without_tail(led),
            to == from || !white_space(s@[to - 1]),
        decreases to,
    {
        proof {
            assert(led.take(to - from).drop_last() =~= led.take(to - from - 1));
            assert(led.take(to - from).last() == s@[to - 1]);
        }
        to -= 1;
    }
    let inner = s.substring_char(from, to);
    proof {
        assert(inner@ =~= led.take(to - from));
        if to > from {
            assert(led.take(to - from).last() == s@[to - 1]);
        }
    }
    inner
}

/// Whether a text holds nothing but white space.
pub fn is_blank(s: &str) -> (yes: bool)
    ensures
        yes == blank(s@),
{
    let chars = chars_of(s);
    let mut i: usize = 0;
    while i < chars.len()
        invariant
            chars@ == s@,
            i <= chars@.len(),
            forall|j: int| 0 <= j < i ==> white_space(#[trigger] s@[j]),
        decreases chars@.len() - i,
    {
        if !is_white_space(chars[i]) {
            return false;
        }
        i += 1;
    }
    true
}

/// Two texts, one after the other.
pub fn concat(a: &str, b: &str) -> (both: String)
    ensures
        both@ == a@ + b@,
{
    let mut both = a.to_owned();
    both.append(b);
    both
}

/// Blankness is settled character by character: nothing is blank, one character is
/// blank where it is white space, and two texts together where each is.
pub proof fn law_blank(a: Seq<char>, b: Seq<char>, c: char)
    ensures
        blank(seq![]),
        blank(seq![c]) <==> white_space(c),
        blank(a + b) <==> blank(a) && blank(b),
{
    if blank(seq![c]) {
        assert(white_space(seq![c][0]));
    }
    if blank(a + b) {
        assert forall|i: int| 0 <= i < a.len() implies white_space(#[trigger] a[i]) by {
            assert(a[i] == (a + b)[i]);
        }
        assert forall|i: int| 0 <= i < b.len() implies white_space(#[trigger] b[i]) by {
            assert(b[i] == (a + b)[a.len() + i]);
        }
    }
}

/// A phrase stands in a text wherever something is written around it, and only
/// there: a text that holds it is something before it, the phrase, something after.
pub proof fn law_occurs(phrase: Seq<char>, before: Seq<char>, after: Seq<char>, s: Seq<char>)
    ensures
        occurs(phrase, before + phrase + after),
        occurs(phrase, s) ==> exists|i: int|
            0 <= i <= s.len() - phrase.len() && #[trigger] s.subrange(i, i + phrase.len())
                == phrase,
{
    let whole = before + phrase + after;
    assert(whole.subrange(before.len() as int, before.len() as int + phrase.len()) =~= phrase);
    assert(occurs_at(phrase, whole, before.len() as int));
    if occurs(phrase, s) {
        let at = choose|at: int| occurs_at(phrase, s, at);
        assert(s.subrange(at, at + phrase.len()) == phrase);
    }
}

/// White space in front is all that leading takes off: whatever white space leads,
/// what follows from its first other character on is left, and of white space alone
/// nothing.
pub proof fn law_without_lead(space: Seq<char>, rest: Seq<char>)
    requires
        blank(space),
        rest.len() > 0 ==> !white_space(rest[0]),
    ensures
        without_lead(space + rest) == rest,
    decreases space.len(),
{
    if space.len() > 0 {
        assert((space + rest)[0] == space[0]);
        assert((space + rest).drop_first() =~= space.drop_first() + rest);
        assert forall|i: int| 0 <= i < space.drop_first().len() implies white_space(
            #[trigger] space.drop_first()[i],
        ) by {
            assert(space.drop_first()[i] == space[i + 1]);
        }
        law_without_lead(space.drop_first(), rest);
    } else {
        assert(space + rest =~= rest);
    }
}

/// White space behind is all that ending takes off.
pub proof fn law_without_tail(rest: Seq<char>, space: Seq<char>)
    requires
        blank(space),
        rest.len() > 0 ==> !white_space(rest.last()),
    ensures
        without_tail(rest + space) == rest,
    decreases space.len(),
{
    if space.len() > 0 {
        assert((rest + space).last() == space.last());
        assert((rest + space).drop_last() =~= rest + space.drop_last());
        assert forall|i: int| 0 <= i < space.drop_last().len() implies white_space(
            #[trigger] space.drop_last()[i],
        ) by {
            assert(space.drop_last()[i] == space[i]);
        }
        law_without_tail(rest, space.drop_last());
    } else {
        assert(rest + space =~= rest);
    }
}

/// Slashes, or whatever is taken off an end, make no difference: with any run of it
/// behind, the same is left.
pub proof fn law_trailing_run_makes_no_difference(s: Seq<char>, c: char, run: Seq<char>)
    requires
        forall|i: int| 0 <= i < run.len() ==> #[trigger] run[i] == c,
    ensures
        without_trailing(s + run, c) == without_trailing(s, c),
    decreases run.len(),
{
    if run.len() > 0 {
        assert((s + run).last() == run[run.len() - 1]);
        assert((s + run).drop_last() =~= s + run.drop_last());
        assert forall|i: int| 0 <= i < run.drop_last().len() implies #[trigger] run.drop_last()[i]
            == c by {
            assert(run.drop_last()[i] == run[i]);
        }
        law_trailing_run_makes_no_difference(s, c, run.drop_last());
    } else {
        assert(s + run =~= s);
    }
}

/// Which characters are white space: the six controls of ASCII and Latin-1, the
/// spaces, and the separators of lines and paragraphs.
pub proof fn law_white_space(c: char)
    ensures
        white_space(c) <==> ({
            let n = c as u32;
            ||| n == 9 || n == 10 || n == 11 || n == 12 || n == 13 || n == 32 || n == 133 || n == 160
            ||| n == 5760 || n == 8232 || n == 8233 || n == 8239 || n == 8287 || n == 12288
            ||| 8192 <= n && n <= 8202
        }),
{
}

} // verus!
