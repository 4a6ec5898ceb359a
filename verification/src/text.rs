//! Characters and strings.

use vstd::prelude::*;

verus! {

/// `String::push` of the standard library, which appends a character: the
/// string afterwards is the string before with `ch` at its end.
pub assume_specification[ String::push ](s: &mut String, ch: char)
    ensures
        final(s)@ == old(s)@.push(ch),
;

/// A decimal digit.
pub open spec fn is_digit(c: char) -> bool {
    '0' <= c <= '9'
}

/// A character of a namespace or of a package name: an ASCII letter or digit,
/// `_` or `-`.
pub open spec fn is_name_char(c: char) -> bool {
    ('a' <= c <= 'z') || ('A' <= c <= 'Z') || ('0' <= c <= '9') || c == '_' || c == '-'
}

/// A class of characters.
#[derive(Clone, Copy, Debug, PartialEq, Eq, Structural)]
pub enum CharClass {
    /// The decimal digits.
    Digit,
    /// The characters of a namespace or of a package name.
    Name,
}

impl CharClass {
    /// Whether `c` is of the class.
    pub open spec fn holds(self, c: char) -> bool {
        match self {
            CharClass::Digit => is_digit(c),
            CharClass::Name => is_name_char(c),
        }
    }

    /// Whether `c` is of the class.
    pub fn test(self, c: char) -> (r: bool)
        ensures
            r == self.holds(c),
    {
        match self {
            CharClass::Digit => c >= '0' && c <= '9',
            CharClass::Name => (c >= 'a' && c <= 'z') || (c >= 'A' && c <= 'Z') || (c >= '0' && c
                <= '9') || c == '_' || c == '-',
        }
    }
}

/// One or more characters, all of the class.
pub open spec fn is_run(s: Seq<char>, class: CharClass) -> bool {
    s.len() > 0 && forall|i: int| 0 <= i < s.len() ==> class.holds(#[trigger] s[i])
}

/// The end of the longest run of characters of the class that starts at
/// `start`: the place of the first character from there on that is not of
/// the class, or the end of the text.
pub open spec fn run_end(s: Seq<char>, start: int, class: CharClass) -> int
    decreases s.len() - start,
{
    if 0 <= start < s.len() && class.holds(s[start]) {
        run_end(s, start + 1, class)
    } else {
        start
    }
}

/// What lies between `start` and the end of the run is of the class, and
/// what stands at the end is not.
pub proof fn lemma_run_end(s: Seq<char>, start: int, class: CharClass)
    requires
        0 <= start <= s.len(),
    ensures
        start <= run_end(s, start, class) <= s.len(),
        forall|i: int| start <= i < run_end(s, start, class) ==> class.holds(#[trigger] s[i]),
        run_end(s, start, class) < s.len() ==> !class.holds(s[run_end(s, start, class)]),
    decreases s.len() - start,
{
    if start < s.len() && class.holds(s[start]) {
        lemma_run_end(s, start + 1, class);
    }
}

/// The run ends at the first place that is not of the class.
pub proof fn lemma_run_ends_at(s: Seq<char>, start: int, end: int, class: CharClass)
    requires
        0 <= start <= end <= s.len(),
        forall|i: int| start <= i < end ==> class.holds(#[trigger] s[i]),
        end < s.len() ==> !class.holds(s[end]),
    ensures
        run_end(s, start, class) == end,
    decreases end - start,
{
    if start < end {
        lemma_run_ends_at(s, start + 1, end, class);
    }
}

/// The end of the run of characters of the class that starts at `start`.
pub fn scan(chars: &Vec<char>, start: usize, class: CharClass) -> (end: usize)
    requires
        start <= chars.len(),
    ensures
        end == run_end(chars@, start as int, class),
        start <= end <= chars.len(),
{
    let mut end = start;
    while end < chars.len() && class.test(chars[end])
        invariant
            start <= end <= chars.len(),
            forall|i: int| start <= i < end ==> class.holds(#[trigger] chars[i]),
        decreases chars.len() - end,
    {
        end += 1;
    }
    proof {
        lemma_run_ends_at(chars@, start as int, end as int, class);
    }
    end
}

/// The characters of `s`, in order.
pub fn chars_of(s: &str) -> (r: Vec<char>)
    ensures
        r@ == s@,
{
    let mut v: Vec<char> = Vec::new();
    for c in it: s.chars()
        invariant
            it.seq() == s@,
            v@ == s@.take(it.index() as int),
    {
        v.push(c);
    }
    v
}

/// The string made of `chars`.
pub fn string_of(chars: &Vec<char>) -> (r: String)
    ensures
        r@ == chars@,
{
    let mut s = String::new();
    let mut i: usize = 0;
    while i < chars.len()
        invariant
            i <= chars.len(),
            s@ == chars@.take(i as int),
        decreases chars.len() - i,
    {
        s.push(chars[i]);
        i += 1;
    }
    s
}

/// The string made of the characters of `chars` from `start` up to `end`.
pub fn string_of_range(chars: &Vec<char>, start: usize, end: usize) -> (r: String)
    requires
        start <= end <= chars.len(),
    ensures
        r@ == chars@.subrange(start as int, end as int),
{
    let mut s = String::new();
    let mut i: usize = start;
    while i < end
        invariant
            start <= i <= end <= chars.len(),
            s@ == chars@.subrange(start as int, i as int),
        decreases end - i,
    {
        s.push(chars[i]);
        assert(chars@.subrange(start as int, i + 1) =~= chars@.subrange(
            start as int,
            i as int,
        ).push(chars@[i as int]));
        i += 1;
    }
    s
}

/// Whether two strings hold the same characters.
pub fn same_text(a: &str, b: &str) -> (r: bool)
    ensures
        r == (a@ == b@),
{
    let x = chars_of(a);
    let y = chars_of(b);
    if x.len() != y.len() {
        return false;
    }
    let mut i: usize = 0;
    while i < x.len()
        invariant
            x@ == a@,
            y@ == b@,
            x.len() == y.len(),
            i <= x.len(),
            forall|j: int| 0 <= j < i ==> x@[j] == y@[j],
        decreases x.len() - i,
    {
        if x[i] != y[i] {
            return false;
        }
        i += 1;
    }
    assert(x@ =~= y@);
    true
}

} // verus!
