use vstd::prelude::*;
use vstd::string::*;

verus! {

/// The code points that Unicode classes as white space.
pub open spec fn is_whitespace(c: char) -> bool {
    let n = c as u32;
    ||| 0x09 <= n <= 0x0d
    ||| n == 0x20
    ||| n == 0x85
    ||| n == 0xa0
    ||| n == 0x1680
    ||| 0x2000 <= n <= 0x200a
    ||| n == 0x2028
    ||| n == 0x2029
    ||| n == 0x202f
    ||| n == 0x205f
    ||| n == 0x3000
}

/// Tells whether `c` is a white space character.
pub fn whitespace(c: char) -> (r: bool)
    ensures
        r == is_whitespace(c),
{
    let n: u32 = c as u32;
    (0x09 <= n && n <= 0x0d) || n == 0x20 || n == 0x85 || n == 0xa0 || n == 0x1680 || (0x2000 <= n
        && n <= 0x200a) || n == 0x2028 || n == 0x2029 || n == 0x202f || n == 0x205f || n == 0x3000
}

/// The characters of `s`, in order.
pub fn chars_of(s: &str) -> (v: Vec<char>)
    ensures
        v@ == s@,
{
    let n: usize = s.unicode_len();
    let mut v: Vec<char> = Vec::new();
    let mut i: usize = 0;
    while i < n
        invariant
            n == s@.len(),
            i <= n,
            v@ == s@.subrange(0, i as int),
        decreases n - i,
    {
        v.push(s.get_char(i));
        assert(v@ =~= s@.subrange(0, i + 1));
        i += 1;
    }
    assert(v@ =~= s@);
    v
}

/// The first position at or after `from` that holds `c`, or the length of `s` where there is
/// none.
pub open spec fn find_from(s: Seq<char>, c: char, from: int) -> int
    decreases s.len() - from,
{
    if from >= s.len() {
        s.len() as int
    } else if s[from] == c {
        from
    } else {
        find_from(s, c, from + 1)
    }
}

/// What `find_from` finds lies between `from` and the end, holds `c` unless it is the end, and
/// nothing before it does.
pub proof fn lemma_find_from(s: Seq<char>, c: char, from: int)
    requires
        0 <= from <= s.len(),
    ensures
        from <= find_from(s, c, from) <= s.len(),
        find_from(s, c, from) < s.len() ==> s[find_from(s, c, from)] == c,
        forall|j: int| from <= j < find_from(s, c, from) ==> s[j] != c,
    decreases s.len() - from,
{
    if from < s.len() && s[from] != c {
        lemma_find_from(s, c, from + 1);
    }
}

/// Finds the first `c` in `cs` at or after `from`.
pub fn find_char(cs: &Vec<char>, c: char, from: usize) -> (r: usize)
    requires
        from <= cs@.len(),
    ensures
        r == find_from(cs@, c, from as int),
        from <= r <= cs@.len(),
        r < cs@.len() ==> cs@[r as int] == c,
        forall|j: int| from <= j < r ==> cs@[j] != c,
{
    let mut i: usize = from;
    while i < cs.len() && cs[i] != c
        invariant
            from <= i <= cs@.len(),
            find_from(cs@, c, i as int) == find_from(cs@, c, from as int),
        decreases cs@.len() - i,
    {
        i += 1;
    }
    proof {
        lemma_find_from(cs@, c, from as int);
    }
    i
}

/// Whether `pat` stands in `s` at position `i`.
pub open spec fn occurs_at(s: Seq<char>, pat: Seq<char>, i: int) -> bool {
    0 <= i && i + pat.len() <= s.len() && s.subrange(i, i + pat.len()) == pat
}

/// Whether `pat` stands anywhere in `s`.
pub open spec fn contains(s: Seq<char>, pat: Seq<char>) -> bool {
    exists|i: int| occurs_at(s, pat, i)
}

/// Whether `s` ends with `suffix`.
pub open spec fn ends_with(s: Seq<char>, suffix: Seq<char>) -> bool {
    occurs_at(s, suffix, s.len() - suffix.len())
}

/// Tests whether `pat` stands in `cs` at position `i`.
pub fn matches_at(cs: &Vec<char>, pat: &Vec<char>, i: usize) -> (r: bool)
    ensures
        r == occurs_at(cs@, pat@, i as int),
{
    if pat.len() > cs.len() || i > cs.len() - pat.len() {
        return false;
    }
    let mut k: usize = 0;
    while k < pat.len()
        invariant
            k <= pat@.len(),
            i + pat@.len() <= cs@.len() <= usize::MAX,
            forall|j: int| 0 <= j < k ==> cs@[i + j] == pat@[j],
        decreases pat@.len() - k,
    {
        if cs[i + k] != pat[k] {
            assert(cs@.subrange(i as int, i + pat@.len())[k as int] == cs@[i + k]);
            return false;
        }
        k += 1;
    }
    assert(cs@.subrange(i as int, i + pat@.len()) =~= pat@);
    true
}

/// Tests whether `pat` stands anywhere in `cs`.
pub fn has_pattern(cs: &Vec<char>, pat: &Vec<char>) -> (r: bool)
    ensures
        r == contains(cs@, pat@),
{
    let mut i: usize = 0;
    while i < cs.len()
        invariant
            i <= cs@.len(),
            forall|j: int| 0 <= j < i ==> !occurs_at(cs@, pat@, j),
        decreases cs@.len() - i,
    {
        if matches_at(cs, pat, i) {
            return true;
        }
        i += 1;
    }
    matches_at(cs, pat, i)
}

/// Tests whether `cs` ends with `suffix`.
pub fn has_suffix(cs: &Vec<char>, suffix: &Vec<char>) -> (r: bool)
    ensures
        r == ends_with(cs@, suffix@),
{
    if suffix.len() > cs.len() {
        return false;
    }
    matches_at(cs, suffix, cs.len() - suffix.len())
}

/// Tests whether two texts hold the same characters.
pub fn same_text(a: &str, b: &str) -> (r: bool)
    ensures
        r == (a@ == b@),
{
    let x = chars_of(a);
    let y = chars_of(b);
    if x.len() != y.len() {
        return false;
    }
    let r = matches_at(&x, &y, 0);
    assert(x@.subrange(0, x@.len() as int) =~= x@);
    r
}

/// The characters of `s` from `from` up to `to`, as a text of its own.
pub fn slice_text(s: &str, from: usize, to: usize) -> (r: String)
    requires
        from <= to <= s@.len(),
    ensures
        r@ == s@.subrange(from as int, to as int),
{
    String::from_str(s.substring_char(from, to))
}

/// The first position at or after `from` that holds no white space, or the length of `s`.
pub open spec fn skip_space(s: Seq<char>, from: int) -> int
    decreases s.len() - from,
{
    if from >= s.len() {
        s.len() as int
    } else if !is_whitespace(s[from]) {
        from
    } else {
        skip_space(s, from + 1)
    }
}

/// The first position at or after `from` that holds white space, or the length of `s`.
pub open spec fn skip_word(s: Seq<char>, from: int) -> int
    decreases s.len() - from,
{
    if from >= s.len() {
        s.len() as int
    } else if is_whitespace(s[from]) {
        from
    } else {
        skip_word(s, from + 1)
    }
}

/// The end that is left of `hi` when the white space just before it is dropped, no further
/// back than `lo`.
pub open spec fn drop_space_back(s: Seq<char>, lo: int, hi: int) -> int
    decreases hi - lo,
{
    if hi <= lo || hi > s.len() {
        lo
    } else if !is_whitespace(s[hi - 1]) {
        hi
    } else {
        drop_space_back(s, lo, hi - 1)
    }
}

/// `skip_space` stops at the first character from `from` on that is no white space.
pub proof fn lemma_skip_space(s: Seq<char>, from: int)
    requires
        0 <= from <= s.len(),
    ensures
        from <= skip_space(s, from) <= s.len(),
        skip_space(s, from) < s.len() ==> !is_whitespace(s[skip_space(s, from)]),
        forall|j: int| from <= j < skip_space(s, from) ==> is_whitespace(s[j]),
    decreases s.len() - from,
{
    if from < s.len() && is_whitespace(s[from]) {
        lemma_skip_space(s, from + 1);
    }
}

/// `skip_word` stops at the first white space from `from` on.
pub proof fn lemma_skip_word(s: Seq<char>, from: int)
    requires
        0 <= from <= s.len(),
    ensures
        from <= skip_word(s, from) <= s.len(),
        skip_word(s, from) < s.len() ==> is_whitespace(s[skip_word(s, from)]),
        forall|j: int| from <= j < skip_word(s, from) ==> !is_whitespace(s[j]),
    decreases s.len() - from,
{
    if from < s.len() && !is_whitespace(s[from]) {
        lemma_skip_word(s, from + 1);
    }
}

/// `drop_space_back` stops behind the last character before `hi` that is no white space.
pub proof fn lemma_drop_space_back(s: Seq<char>, lo: int, hi: int)
    requires
        0 <= lo <= hi <= s.len(),
    ensures
        lo <= drop_space_back(s, lo, hi) <= hi,
        drop_space_back(s, lo, hi) > lo ==> !is_whitespace(s[drop_space_back(s, lo, hi) - 1]),
        forall|j: int| drop_space_back(s, lo, hi) <= j < hi ==> is_whitespace(s[j]),
    decreases hi - lo,
{
    if hi > lo && is_whitespace(s[hi - 1]) {
        lemma_drop_space_back(s, lo, hi - 1);
    }
}

/// `s` without the white space at its two ends.
pub open spec fn trim(s: Seq<char>) -> Seq<char> {
    let a = skip_space(s, 0);
    s.subrange(a, drop_space_back(s, a, s.len() as int))
}

/// The `n`-th run of characters of `s` that holds no white space, counted from 0; empty where
/// `s` has no such run.
pub open spec fn word(s: Seq<char>, n: nat) -> Seq<char> {
    let a = word_start(s, n);
    s.subrange(a, skip_word(s, a))
}

/// Where the `n`-th word of `s` begins; the length of `s` where it has none.
pub open spec fn word_start(s: Seq<char>, n: nat) -> int
    decreases n,
{
    if n == 0 {
        skip_space(s, 0)
    } else {
        skip_space(s, skip_word(s, word_start(s, (n - 1) as nat)))
    }
}

/// A trimmed text is a part of the text it was made from, with nothing but white space left
/// out on either side, and it neither begins nor ends with white space.
pub proof fn lemma_trim(s: Seq<char>) -> (ends: (int, int))
    ensures
        0 <= ends.0 <= ends.1 <= s.len(),
        trim(s) == s.subrange(ends.0, ends.1),
        forall|j: int| 0 <= j < ends.0 ==> is_whitespace(s[j]),
        forall|j: int| ends.1 <= j < s.len() ==> is_whitespace(s[j]),
        trim(s).len() > 0 ==> !is_whitespace(trim(s).first()) && !is_whitespace(trim(s).last()),
{
    let a = skip_space(s, 0);
    lemma_skip_space(s, 0);
    let b = drop_space_back(s, a, s.len() as int);
    lemma_drop_space_back(s, a, s.len() as int);
    (a, b)
}

/// Every word begins inside the text or at its end, and holds no white space.
pub proof fn lemma_word(s: Seq<char>, n: nat)
    ensures
        0 <= word_start(s, n) <= s.len(),
        forall|j: int| 0 <= j < word(s, n).len() ==> !is_whitespace(#[trigger] word(s, n)[j]),
        word_start(s, n) < s.len() ==> word(s, n).len() > 0,
    decreases n,
{
    if n == 0 {
        lemma_skip_space(s, 0);
    } else {
        lemma_word(s, (n - 1) as nat);
        let before = word_start(s, (n - 1) as nat);
        lemma_skip_word(s, before);
        lemma_skip_space(s, skip_word(s, before));
    }
    lemma_skip_word(s, word_start(s, n));
}

/// Moves from `from` over the white space of `cs`.
pub fn pass_space(cs: &Vec<char>, from: usize) -> (r: usize)
    requires
        from <= cs@.len(),
    ensures
        r == skip_space(cs@, from as int),
        from <= r <= cs@.len(),
{
    let mut i: usize = from;
    while i < cs.len() && whitespace(cs[i])
        invariant
            from <= i <= cs@.len(),
            skip_space(cs@, i as int) == skip_space(cs@, from as int),
        decreases cs@.len() - i,
    {
        i += 1;
    }
    i
}

/// Moves from `from` over what is no white space in `cs`.
pub fn pass_word(cs: &Vec<char>, from: usize) -> (r: usize)
    requires
        from <= cs@.len(),
    ensures
        r == skip_word(cs@, from as int),
        from <= r <= cs@.len(),
{
    let mut i: usize = from;
    while i < cs.len() && !whitespace(cs[i])
        invariant
            from <= i <= cs@.len(),
            skip_word(cs@, i as int) == skip_word(cs@, from as int),
        decreases cs@.len() - i,
    {
        i += 1;
    }
    i
}

/// Moves back from `hi` over the white space of `cs`, no further than `lo`.
pub fn pass_space_back(cs: &Vec<char>, lo: usize, hi: usize) -> (r: usize)
    requires
        lo <= hi <= cs@.len(),
    ensures
        r == drop_space_back(cs@, lo as int, hi as int),
        lo <= r <= hi,
{
    let mut i: usize = hi;
    while i > lo && whitespace(cs[i - 1])
        invariant
            lo <= i <= hi,
            hi <= cs@.len(),
            drop_space_back(cs@, lo as int, i as int) == drop_space_back(cs@, lo as int, hi as int),
        decreases i - lo,
    {
        i -= 1;
    }
    i
}

/// `s` without the white space at its two ends, as a text of its own.
pub fn trimmed(s: &str) -> (r: String)
    ensures
        r@ == trim(s@),
{
    let cs = chars_of(s);
    let a = pass_space(&cs, 0);
    let b = pass_space_back(&cs, a, cs.len());
    slice_text(s, a, b)
}

/// The decimal digit that stands for `d`.
pub open spec fn digit(d: nat) -> char {
    if d == 0 {
        '0'
    } else if d == 1 {
        '1'
    } else if d == 2 {
        '2'
    } else if d == 3 {
        '3'
    } else if d == 4 {
        '4'
    } else if d == 5 {
        '5'
    } else if d == 6 {
        '6'
    } else if d == 7 {
        '7'
    } else if d == 8 {
        '8'
    } else {
        '9'
    }
}

/// `n` written in decimal digits, without leading zeros.
pub open spec fn decimal(n: nat) -> Seq<char>
    decreases n,
{
    if n < 10 {
        seq![digit(n)]
    } else {
        decimal(n / 10).push(digit(n % 10))
    }
}

/// The one-character text of a decimal digit.
pub fn digit_text(d: usize) -> (r: &'static str)
    requires
        d < 10,
    ensures
        r@ == seq![digit(d as nat)],
{
    proof {
        reveal_strlit("0");
        reveal_strlit("1");
        reveal_strlit("2");
        reveal_strlit("3");
        reveal_strlit("4");
        reveal_strlit("5");
        reveal_strlit("6");
        reveal_strlit("7");
        reveal_strlit("8");
        reveal_strlit("9");
    }
    let r = if d == 0 {
        "0"
    } else if d == 1 {
        "1"
    } else if d == 2 {
        "2"
    } else if d == 3 {
        "3"
    } else if d == 4 {
        "4"
    } else if d == 5 {
        "5"
    } else if d == 6 {
        "6"
    } else if d == 7 {
        "7"
    } else if d == 8 {
        "8"
    } else {
        "9"
    };
    assert(r@ =~= seq![digit(d as nat)]);
    r
}

/// Writes `n` in decimal digits.
pub fn decimal_text(n: usize) -> (r: String)
    ensures
        r@ == decimal(n as nat),
    decreases n,
{
    if n < 10 {
        String::from_str(digit_text(n))
    } else {
        let mut r = decimal_text(n / 10);
        r.append(digit_text(n % 10));
        assert(r@ =~= decimal(n as nat));
        r
    }
}

/// The pieces of `s` from position `from` on that the separator `sep` parts: one more than
/// the number of separators, each possibly empty.
pub open spec fn split_from(s: Seq<char>, sep: char, from: int) -> Seq<Seq<char>>
    decreases s.len() - from,
{
    let i = find_from(s, sep, from);
    if 0 <= from <= i < s.len() {
        seq![s.subrange(from, i)] + split_from(s, sep, i + 1)
    } else {
        seq![s.subrange(from, s.len() as int)]
    }
}

/// The pieces of `s` that the separator `sep` parts.
pub open spec fn split(s: Seq<char>, sep: char) -> Seq<Seq<char>> {
    split_from(s, sep, 0)
}

/// The pieces of `parts` in a row, with `sep` between each two.
pub open spec fn join(parts: Seq<Seq<char>>, sep: char) -> Seq<char>
    decreases parts.len(),
{
    if parts.len() == 0 {
        Seq::empty()
    } else if parts.len() == 1 {
        parts[0]
    } else {
        parts[0] + seq![sep] + join(parts.drop_first(), sep)
    }
}

/// Splitting loses nothing: no piece holds the separator, and the pieces joined by the
/// separator are the text again.
pub proof fn lemma_split_join(s: Seq<char>, sep: char, from: int)
    requires
        0 <= from <= s.len(),
    ensures
        split_from(s, sep, from).len() >= 1,
        forall|k: int, j: int|
            0 <= k < split_from(s, sep, from).len() && 0 <= j < split_from(s, sep, from)[k].len()
                ==> split_from(s, sep, from)[k][j] != sep,
        join(split_from(s, sep, from), sep) == s.subrange(from, s.len() as int),
    decreases s.len() - from,
{
    let i = find_from(s, sep, from);
    lemma_find_from(s, sep, from);
    let parts = split_from(s, sep, from);
    if i < s.len() {
        lemma_split_join(s, sep, i + 1);
        let rest = split_from(s, sep, i + 1);
        assert(parts =~= seq![s.subrange(from, i)] + rest);
        assert(parts.drop_first() =~= rest);
        assert(join(parts, sep) =~= s.subrange(from, s.len() as int));
        assert forall|k: int, j: int|
            0 <= k < parts.len() && 0 <= j < parts[k].len() implies parts[k][j] != sep by {
            if k > 0 {
                assert(parts[k] == rest[k - 1]);
            }
        }
    }
}

/// The texts of `v` as sequences of characters.
pub open spec fn texts(v: Seq<String>) -> Seq<Seq<char>> {
    Seq::new(v.len(), |i: int| v[i]@)
}

/// Parts `s` at each `sep`.
pub fn split_text(s: &str, sep: char) -> (parts: Vec<String>)
    ensures
        texts(parts@) == split(s@, sep),
        parts@.len() >= 1,
{
    let cs = chars_of(s);
    let mut parts: Vec<String> = Vec::new();
    let mut pos: usize = 0;
    let mut i: usize = find_char(&cs, sep, 0);
    assert(texts(parts@) + split_from(cs@, sep, 0) =~= split(cs@, sep));
    while i < cs.len()
        invariant
            cs@ == s@,
            pos <= i <= cs@.len(),
            i == find_from(cs@, sep, pos as int),
            texts(parts@) + split_from(cs@, sep, pos as int) == split(cs@, sep),
        decreases cs@.len() - pos,
    {
        let ghost before = texts(parts@);
        parts.push(slice_text(s, pos, i));
        assert(texts(parts@) =~= before + seq![cs@.subrange(pos as int, i as int)]);
        assert(texts(parts@) + split_from(cs@, sep, i + 1) =~= before + split_from(
            cs@,
            sep,
            pos as int,
        ));
        pos = i + 1;
        i = find_char(&cs, sep, pos);
    }
    let ghost before = texts(parts@);
    parts.push(slice_text(s, pos, cs.len()));
    assert(texts(parts@) =~= before + seq![cs@.subrange(pos as int, cs@.len() as int)]);
    parts
}

} // verus!
