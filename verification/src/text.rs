//! Character-level text handling: a model of strings as `Seq<char>` and the
//! executable operations (trimming, prefix tests, line splitting, decimal
//! formatting) that the document generators are built from.
use vstd::prelude::*;
use vstd::string::StringExecFns;

verus! {

/// The characters that Unicode gives the `White_Space` property.
pub open spec fn is_white_space(c: char) -> bool {
    ||| c == '\t' || c == '\n' || c == '\u{0B}' || c == '\u{0C}' || c == '\r'
    ||| c == ' ' || c == '\u{85}' || c == '\u{A0}' || c == '\u{1680}'
    ||| ('\u{2000}' <= c && c <= '\u{200A}')
    ||| c == '\u{2028}' || c == '\u{2029}' || c == '\u{202F}' || c == '\u{205F}'
    ||| c == '\u{3000}'
}

/// A set of characters that a trim removes.
#[derive(Clone, Copy)]
pub enum CharSet {
    /// Every white-space character.
    WhiteSpace,
    /// Exactly one character.
    Only(char),
    /// The space and the equals sign.
    SpaceOrEquals,
}

impl CharSet {
    pub open spec fn has(self, c: char) -> bool {
        match self {
            CharSet::WhiteSpace => is_white_space(c),
            CharSet::Only(d) => c == d,
            CharSet::SpaceOrEquals => c == ' ' || c == '=',
        }
    }

    pub fn contains(&self, c: char) -> (b: bool)
        ensures
            b == self.has(c),
    {
        match self {
            CharSet::WhiteSpace => {
                c == '\t' || c == '\n' || c == '\u{0B}' || c == '\u{0C}' || c == '\r' || c == ' '
                    || c == '\u{85}' || c == '\u{A0}' || c == '\u{1680}' || ('\u{2000}' <= c && c
                    <= '\u{200A}') || c == '\u{2028}' || c == '\u{2029}' || c == '\u{202F}' || c
                    == '\u{205F}' || c == '\u{3000}'
            },
            CharSet::Only(d) => c == *d,
            CharSet::SpaceOrEquals => c == ' ' || c == '=',
        }
    }
}

/// Every character of `s` is in `set`.
pub open spec fn all_in(s: Seq<char>, set: CharSet) -> bool {
    forall|i: int| 0 <= i < s.len() ==> set.has(#[trigger] s[i])
}

/// How many characters at the front of `s` belong to `set`.
pub open spec fn lead_len(s: Seq<char>, set: CharSet) -> int {
    if all_in(s, set) {
        s.len() as int
    } else {
        choose|k: int| 0 <= k < s.len() && !set.has(s[k]) && all_in(s.take(k), set)
    }
}

/// Where `s` ends once the characters of `set` at its back are left out.
pub open spec fn keep_end(s: Seq<char>, set: CharSet) -> int {
    if all_in(s, set) {
        0
    } else {
        choose|e: int| 1 <= e <= s.len() && !set.has(s[e - 1]) && all_in(s.skip(e), set)
    }
}

/// `s` without the characters of `set` at its front.
pub open spec fn trim_start_set(s: Seq<char>, set: CharSet) -> Seq<char> {
    s.skip(lead_len(s, set))
}

/// `s` without the characters of `set` at its back.
pub open spec fn trim_end_set(s: Seq<char>, set: CharSet) -> Seq<char> {
    s.take(keep_end(s, set))
}

/// `s` without the characters of `set` at either end.
pub open spec fn trim_set(s: Seq<char>, set: CharSet) -> Seq<char> {
    trim_end_set(trim_start_set(s, set), set)
}

/// `s` without white space at either end.
pub open spec fn trim(s: Seq<char>) -> Seq<char> {
    trim_set(s, CharSet::WhiteSpace)
}

pub open spec fn starts_with(s: Seq<char>, p: Seq<char>) -> bool {
    p.len() <= s.len() && s.take(p.len() as int) == p
}

/// The `n` characters of `s` from position `i` on.
pub open spec fn piece_at(s: Seq<char>, i: int, n: int) -> Seq<char> {
    s.subrange(i, i + n)
}

/// `p` occurs in `s` as a contiguous piece.
pub open spec fn contains_seq(s: Seq<char>, p: Seq<char>) -> bool {
    exists|i: int| 0 <= i && i + p.len() <= s.len() && #[trigger] piece_at(s, i, p.len() as int) == p
}

/// `p` does not start at any position of `s` before `k`.
pub open spec fn piece_free_before(s: Seq<char>, p: Seq<char>, k: int) -> bool {
    forall|j: int| 0 <= j < k && j + p.len() <= s.len() ==> #[trigger] piece_at(s, j, p.len() as int) != p
}

/// The position where `p` first occurs in `s`, or the length of `s` if it
/// does not occur.
pub open spec fn first_piece(s: Seq<char>, p: Seq<char>) -> int {
    if contains_seq(s, p) {
        choose|k: int|
            0 <= k && k + p.len() <= s.len() && piece_at(s, k, p.len() as int) == p
                && piece_free_before(s, p, k)
    } else {
        s.len() as int
    }
}

/// What stands before the first occurrence of `p` in `s` (all of `s` when
/// there is none).
pub open spec fn before_piece(s: Seq<char>, p: Seq<char>) -> Seq<char> {
    s.take(first_piece(s, p))
}

/// `c` does not occur in `s`.
pub open spec fn char_free(s: Seq<char>, c: char) -> bool {
    forall|i: int| 0 <= i < s.len() ==> s[i] != c
}

/// The position of the first `c` in `s`, or the length of `s` if there is none.
pub open spec fn first_index(s: Seq<char>, c: char) -> int {
    if char_free(s, c) {
        s.len() as int
    } else {
        choose|k: int| 0 <= k < s.len() && s[k] == c && char_free(s.take(k), c)
    }
}

/// What stands before the first `c` (all of `s` when there is none).
pub open spec fn before_char(s: Seq<char>, c: char) -> Seq<char> {
    s.take(first_index(s, c))
}

/// What follows the first `c` (nothing when there is none).
pub open spec fn after_char(s: Seq<char>, c: char) -> Seq<char> {
    if char_free(s, c) {
        Seq::empty()
    } else {
        s.skip(first_index(s, c) + 1)
    }
}

/// The second piece when `s` is split at `c`, or `default` when `c` does not occur.
pub open spec fn second_field(s: Seq<char>, c: char, default: Seq<char>) -> Seq<char> {
    if char_free(s, c) {
        default
    } else {
        before_char(after_char(s, c), c)
    }
}

/// Every occurrence of `from` replaced by `to`.
pub open spec fn replace_char(s: Seq<char>, from: char, to: char) -> Seq<char> {
    s.map_values(|c: char| if c == from { to } else { c })
}

/// A crate name in the form used for identifiers: `-` becomes `_`.
pub open spec fn underscored(s: Seq<char>) -> Seq<char> {
    replace_char(s, '-', '_')
}

/// A crate name in the form used for display: `_` becomes `-`.
pub open spec fn dashed(s: Seq<char>) -> Seq<char> {
    replace_char(s, '_', '-')
}

/// The pieces of `s` between `\n` characters, the last one possibly empty.
pub open spec fn newline_pieces(s: Seq<char>) -> Seq<Seq<char>>
    decreases s.len(),
{
    if s.len() == 0 {
        seq![Seq::empty()]
    } else {
        let p = newline_pieces(s.drop_last());
        if s.last() == '\n' {
            p.push(Seq::empty())
        } else {
            p.update(p.len() - 1, p.last().push(s.last()))
        }
    }
}

/// A line that ended in `\n` loses one `\r` before it.
pub open spec fn strip_cr(l: Seq<char>) -> Seq<char> {
    if l.len() > 0 && l.last() == '\r' {
        l.drop_last()
    } else {
        l
    }
}

/// The lines of a text: split at `\n`, a `\r` before a `\n` dropped, and no
/// line after a final `\n`.
pub open spec fn lines(s: Seq<char>) -> Seq<Seq<char>> {
    let p = newline_pieces(s);
    let body = p.drop_last().map_values(|l: Seq<char>| strip_cr(l));
    if p.last().len() == 0 {
        body
    } else {
        body.push(p.last())
    }
}

/// The lines of a text, each trimmed of white space.
pub open spec fn trimmed_lines(s: Seq<char>) -> Seq<Seq<char>> {
    lines(s).map_values(|l: Seq<char>| trim(l))
}

/// The text of each string of a sequence.
pub open spec fn views(v: Seq<String>) -> Seq<Seq<char>> {
    v.map_values(|s: String| s@)
}

/// The pieces of a sequence joined with a separator between them.
pub open spec fn join(parts: Seq<Seq<char>>, sep: Seq<char>) -> Seq<char>
    decreases parts.len(),
{
    if parts.len() == 0 {
        Seq::empty()
    } else if parts.len() == 1 {
        parts[0]
    } else {
        join(parts.drop_last(), sep) + sep + parts.last()
    }
}

/// The decimal digit for `d < 10`.
pub open spec fn digit(d: nat) -> char {
    if d == 0 {
        '0'
    } else if d == 1 {
        '1'
    } else if d == 2 {
        '2'
    } else if d == 3 {
        '3'
    } else if d == 4 {
        '4'
    } else if d == 5 {
        '5'
    } else if d == 6 {
        '6'
    } else if d == 7 {
        '7'
    } else if d == 8 {
        '8'
    } else {
        '9'
    }
}

/// The decimal notation of `n`, without leading zeros.
pub open spec fn decimal(n: nat) -> Seq<char>
    decreases n,
{
    if n < 10 {
        seq![digit(n)]
    } else {
        decimal(n / 10).push(digit(n % 10))
    }
}

/// The value that a sequence of decimal digits denotes.
pub open spec fn digits_value(s: Seq<char>) -> int
    decreases s.len(),
{
    if s.len() == 0 {
        0
    } else {
        digits_value(s.drop_last()) * 10 + digit_value(s.last())
    }
}

/// The value of one decimal digit (0 for any other character).
pub open spec fn digit_value(c: char) -> int {
    if '0' <= c && c <= '9' {
        (c as int) - ('0' as int)
    } else {
        0
    }
}

pub proof fn lemma_join_take(parts: Seq<Seq<char>>, sep: Seq<char>, i: int)
    requires
        0 < i < parts.len(),
    ensures
        join(parts.take(i + 1), sep) == join(parts.take(i), sep) + sep + parts[i],
{
    assert(parts.take(i + 1).drop_last() =~= parts.take(i));
}

/// Appends one character to a string.
#[verifier::external_body]
pub(crate) fn push_char(s: &mut String, c: char)
    ensures
        final(s)@ == old(s)@.push(c),
{
    s.push(c);
}

/// The characters of a string slice, in order.
pub fn chars_of(s: &str) -> (r: Vec<char>)
    ensures
        r@ == s@,
{
    let mut r: Vec<char> = Vec::new();
    for c in it: s.chars()
        invariant
            r@ == it.seq().take(it.index() as int),
            it.seq() == s@,
    {
        r.push(c);
    }
    r
}

/// A string holding the given characters.
pub fn string_of(cs: &[char]) -> (r: String)
    ensures
        r@ == cs@,
{
    let mut out = String::new();
    let mut i: usize = 0;
    while i < cs.len()
        invariant
            i <= cs.len(),
            out@ == cs@.take(i as int),
        decreases cs.len() - i,
    {
        push_char(&mut out, cs[i]);
        i = i + 1;
        assert(out@ =~= cs@.take(i as int));
    }
    assert(cs@.take(i as int) =~= cs@);
    out
}

/// Appends the given characters to a string.
pub fn append_chars(out: &mut String, cs: &[char])
    ensures
        final(out)@ == old(out)@ + cs@,
{
    let mut i: usize = 0;
    while i < cs.len()
        invariant
            i <= cs.len(),
            out@ == old(out)@ + cs@.take(i as int),
        decreases cs.len() - i,
    {
        push_char(out, cs[i]);
        i = i + 1;
        assert(out@ =~= old(out)@ + cs@.take(i as int));
    }
    assert(cs@.take(i as int) =~= cs@);
}

/// Every occurrence of `from` in `s` replaced by `to`.
pub fn replace_all(s: &str, from: char, to: char) -> (r: String)
    ensures
        r@ == replace_char(s@, from, to),
{
    let cs = chars_of(s);
    let mut out = String::new();
    let mut i: usize = 0;
    while i < cs.len()
        invariant
            i <= cs.len(),
            cs@ == s@,
            out@ == replace_char(s@.take(i as int), from, to),
        decreases cs.len() - i,
    {
        let c = cs[i];
        push_char(&mut out, if c == from { to } else { c });
        i = i + 1;
        assert(replace_char(s@.take(i as int), from, to) =~= replace_char(
            s@.take(i - 1),
            from,
            to,
        ).push(if c == from { to } else { c }));
    }
    assert(s@.take(i as int) =~= s@);
    out
}

/// The display form of a crate name (`_` becomes `-`).
pub fn dashed_name(s: &str) -> (r: String)
    ensures
        r@ == dashed(s@),
{
    replace_all(s, '_', '-')
}

/// Whether `s` begins with `p`.
pub fn has_prefix(s: &[char], p: &[char]) -> (b: bool)
    ensures
        b == starts_with(s@, p@),
{
    if p.len() > s.len() {
        return false;
    }
    let mut i: usize = 0;
    while i < p.len()
        invariant
            i <= p.len() <= s.len(),
            forall|j: int| 0 <= j < i ==> s@[j] == p@[j],
        decreases p.len() - i,
    {
        if s[i] != p[i] {
            assert(s@.take(p.len() as int)[i as int] != p@[i as int]);
            return false;
        }
        i = i + 1;
    }
    assert(s@.take(p.len() as int) =~= p@);
    true
}

/// Whether `p` starts at position `i` of `s`.
fn piece_starts_at(s: &[char], p: &[char], i: usize) -> (r: bool)
    requires
        i + p.len() <= s.len(),
    ensures
        r == (piece_at(s@, i as int, p.len() as int) == p@),
{
    let mut j: usize = 0;
    while j < p.len()
        invariant
            i + p.len() <= s.len(),
            j <= p.len(),
            forall|m: int| 0 <= m < j ==> s@[i + m] == p@[m],
        decreases p.len() - j,
    {
        if s[i + j] != p[j] {
            assert(piece_at(s@, i as int, p.len() as int)[j as int] == s@[i + j]);
            return false;
        }
        j = j + 1;
    }
    assert(piece_at(s@, i as int, p.len() as int) =~= p@);
    true
}

/// The position where `p` first occurs in `s`, or `s.len()` when it does not.
pub fn find_piece(s: &[char], p: &[char]) -> (k: usize)
    ensures
        k == first_piece(s@, p@),
        contains_seq(s@, p@) ==> k + p.len() <= s.len(),
        !contains_seq(s@, p@) ==> k == s.len(),
{
    if p.len() > s.len() {
        return s.len();
    }
    if p.len() == 0 {
        assert(piece_at(s@, 0, 0) =~= p@);
        assert(contains_seq(s@, p@));
        assert(piece_free_before(s@, p@, 0));
        let ghost k = first_piece(s@, p@);
        assert(piece_at(s@, 0, 0) == p@);
        assert(k == 0) by {
            if k > 0 {
                assert(piece_at(s@, 0, p@.len() as int) != p@);
            }
        }
        return 0;
    }
    let last = s.len() - p.len();
    let mut i: usize = 0;
    while i <= last
        invariant
            last == s.len() - p.len(),
            last < s.len(),
            i <= last + 1,
            piece_free_before(s@, p@, i as int),
        decreases last + 1 - i,
    {
        if piece_starts_at(s, p, i) {
            proof {
                assert(contains_seq(s@, p@));
                let k = first_piece(s@, p@);
                if k < i {
                    assert(piece_at(s@, k, p.len() as int) != p@);
                }
                if i < k {
                    assert(piece_at(s@, i as int, p.len() as int) != p@);
                }
            }
            return i;
        }
        i = i + 1;
    }
    proof {
        if contains_seq(s@, p@) {
            let k = choose|k: int|
                0 <= k && k + p.len() <= s.len() && #[trigger] piece_at(s@, k, p.len() as int)
                    == p@;
            assert(piece_at(s@, k, p.len() as int) != p@);
        }
    }
    s.len()
}

/// What stands before the first occurrence of `p` in `s`.
pub fn chars_before_piece(s: &[char], p: &[char]) -> (r: Vec<char>)
    ensures
        r@ == before_piece(s@, p@),
{
    let k = find_piece(s, p);
    let r = slice_chars(s, 0, k);
    assert(r@ =~= before_piece(s@, p@));
    r
}

/// Whether `p` occurs in `s`.
pub fn has_piece(s: &[char], p: &[char]) -> (b: bool)
    ensures
        b == contains_seq(s@, p@),
{
    if p.len() > s.len() {
        return false;
    }
    let last = s.len() - p.len();
    let mut i: usize = 0;
    while i <= last
        invariant
            last == s.len() - p.len(),
            i <= last + 1,
            forall|k: int| 0 <= k < i ==> #[trigger] piece_at(s@, k, p.len() as int) != p@,
        decreases last + 1 - i,
    {
        let mut j: usize = 0;
        let mut same = true;
        while j < p.len()
            invariant
                i <= last,
                last == s.len() - p.len(),
                j <= p.len(),
                same == (forall|m: int| 0 <= m < j ==> s@[i + m] == p@[m]),
            decreases p.len() - j,
        {
            if s[i + j] != p[j] {
                same = false;
            }
            j = j + 1;
        }
        if same {
            assert(piece_at(s@, i as int, p.len() as int) =~= p@);
            return true;
        }
        assert(piece_at(s@, i as int, p.len() as int) != p@) by {
            let m = choose|m: int| 0 <= m < p.len() && s@[i + m] != p@[m];
            assert(piece_at(s@, i as int, p.len() as int)[m] == s@[i + m]);
        }
        i = i + 1;
    }
    assert forall|k: int| 0 <= k && k + p.len() <= s.len() implies #[trigger] piece_at(
        s@,
        k,
        p.len() as int,
    ) != p@ by {
        assert(k < i);
    }
    false
}

/// The position of the first `c` in `s`, or `s.len()` when it does not occur.
pub fn find_char(s: &[char], c: char) -> (k: usize)
    ensures
        k == first_index(s@, c),
        k <= s.len(),
        k == s.len() <==> char_free(s@, c),
{
    let mut i: usize = 0;
    while i < s.len()
        invariant
            i <= s.len(),
            char_free(s@.take(i as int), c),
        decreases s.len() - i,
    {
        if s[i] == c {
            proof {
                assert(!char_free(s@, c));
                let k = first_index(s@, c);
                if k < i {
                    assert(s@.take(i as int)[k] == s@[k]);
                }
                if i < k {
                    assert(s@.take(k)[i as int] == s@[i as int]);
                }
            }
            return i;
        }
        i = i + 1;
        assert(char_free(s@.take(i as int), c)) by {
            assert forall|j: int| 0 <= j < i implies s@.take(i as int)[j] != c by {
                if j < i - 1 {
                    assert(s@.take(i - 1)[j] == s@[j]);
                }
            }
        }
    }
    assert(s@.take(i as int) =~= s@);
    i
}

/// A copy of `s[from..to]`.
pub fn slice_chars(s: &[char], from: usize, to: usize) -> (r: Vec<char>)
    requires
        from <= to <= s.len(),
    ensures
        r@ == s@.subrange(from as int, to as int),
{
    let mut r: Vec<char> = Vec::new();
    let mut i: usize = from;
    while i < to
        invariant
            from <= i <= to <= s.len(),
            r@ == s@.subrange(from as int, i as int),
        decreases to - i,
    {
        r.push(s[i]);
        i = i + 1;
        assert(r@ =~= s@.subrange(from as int, i as int));
    }
    r
}

/// What stands before the first `c` in `s`.
pub fn chars_before(s: &[char], c: char) -> (r: Vec<char>)
    ensures
        r@ == before_char(s@, c),
{
    let k = find_char(s, c);
    let r = slice_chars(s, 0, k);
    assert(r@ =~= before_char(s@, c));
    r
}

/// The second piece of `s` split at `c`, or `default` when `c` does not occur.
pub fn second_piece(s: &[char], c: char, default: &[char]) -> (r: Vec<char>)
    ensures
        r@ == second_field(s@, c, default@),
{
    let k = find_char(s, c);
    if k == s.len() {
        let r = slice_chars(default, 0, default.len());
        assert(r@ =~= default@);
        return r;
    }
    let rest = slice_chars(s, k + 1, s.len());
    assert(rest@ =~= after_char(s@, c));
    chars_before(&rest, c)
}

/// The characters of `set` at the front of `s` are its first `k` when
/// those are all in the set and the next is not.
pub proof fn lemma_lead(s: Seq<char>, set: CharSet, k: int)
    requires
        0 <= k <= s.len(),
        all_in(s.take(k), set),
        k == s.len() || !set.has(s[k]),
    ensures
        lead_len(s, set) == k,
{
    if all_in(s, set) {
        if k < s.len() {
            assert(set.has(s[k]));
        }
    } else {
        let j = lead_len(s, set);
        if j < k {
            assert(s.take(k)[j] == s[j]);
        }
        if k < j {
            assert(s.take(j)[k] == s[k]);
        }
    }
}

/// `s` ends at `e` once the characters of `set` at its back are left out
/// when those from `e` on are all in the set and the one before is not.
pub proof fn lemma_keep_end(s: Seq<char>, set: CharSet, e: int)
    requires
        0 <= e <= s.len(),
        all_in(s.skip(e), set),
        e == 0 || !set.has(s[e - 1]),
    ensures
        keep_end(s, set) == e,
{
    if all_in(s, set) {
        if e > 0 {
            assert(set.has(s[e - 1]));
        }
    } else {
        let j = keep_end(s, set);
        if e == 0 {
            assert(s.skip(e) =~= s);
        } else {
            if j < e {
                assert(s.skip(j)[e - 1 - j] == s[e - 1]);
            }
            if e < j {
                assert(s.skip(e)[j - 1 - e] == s[j - 1]);
            }
        }
    }
}

proof fn lemma_lead_witness(s: Seq<char>, set: CharSet)
    ensures
        0 <= lead_len(s, set) <= s.len(),
        all_in(s.take(lead_len(s, set)), set),
        lead_len(s, set) == s.len() || !set.has(s[lead_len(s, set)]),
    decreases s.len(),
{
    if all_in(s, set) {
        assert(s.take(s.len() as int) =~= s);
    } else if !set.has(s[0]) {
        lemma_lead(s, set, 0);
    } else {
        let t = s.drop_first();
        assert(!all_in(t, set)) by {
            let i = choose|i: int| 0 <= i < s.len() && !set.has(#[trigger] s[i]);
            assert(t[i - 1] == s[i]);
        }
        lemma_lead_witness(t, set);
        let k = lead_len(t, set);
        assert(all_in(s.take(k + 1), set)) by {
            assert forall|j: int| 0 <= j < k + 1 implies set.has(#[trigger] s.take(k + 1)[j]) by {
                if j > 0 {
                    assert(s.take(k + 1)[j] == t.take(k)[j - 1]);
                }
            }
        }
        assert(s[k + 1] == t[k]);
        lemma_lead(s, set, k + 1);
    }
}

proof fn lemma_keep_end_witness(s: Seq<char>, set: CharSet)
    ensures
        0 <= keep_end(s, set) <= s.len(),
        all_in(s.skip(keep_end(s, set)), set),
        keep_end(s, set) == 0 || !set.has(s[keep_end(s, set) - 1]),
    decreases s.len(),
{
    if all_in(s, set) {
        assert(s.skip(0) =~= s);
    } else if !set.has(s.last()) {
        lemma_keep_end(s, set, s.len() as int);
    } else {
        let t = s.drop_last();
        assert(!all_in(t, set)) by {
            let i = choose|i: int| 0 <= i < s.len() && !set.has(#[trigger] s[i]);
            assert(t[i] == s[i]);
        }
        lemma_keep_end_witness(t, set);
        let e = keep_end(t, set);
        assert(all_in(s.skip(e), set)) by {
            assert forall|j: int| 0 <= j < s.len() - e implies set.has(#[trigger] s.skip(e)[j]) by {
                if j < t.len() - e {
                    assert(s.skip(e)[j] == t.skip(e)[j]);
                }
            }
        }
        if e > 0 {
            assert(s[e - 1] == t[e - 1]);
        }
        lemma_keep_end(s, set, e);
    }
}

/// A trim by `set` leaves `s[k..e]` when everything before `k` and from
/// `e` on is in the set and `s[k]` and `s[e - 1]` are not.
pub proof fn lemma_trim_set_exact(s: Seq<char>, set: CharSet, k: int, e: int)
    requires
        0 <= k < e <= s.len(),
        all_in(s.take(k), set),
        all_in(s.skip(e), set),
        !set.has(s[k]),
        !set.has(s[e - 1]),
    ensures
        trim_set(s, set) == s.subrange(k, e),
{
    lemma_lead(s, set, k);
    let u = s.skip(k);
    assert(u.skip(e - k) =~= s.skip(e));
    assert(u[e - k - 1] == s[e - 1]);
    lemma_keep_end(u, set, e - k);
    assert(u.take(e - k) =~= s.subrange(k, e));
}

/// What a trim leaves starts and ends outside the set, and a text that
/// already does is left as it is.
pub proof fn lemma_trim_ends(s: Seq<char>)
    ensures
        trim(s).len() > 0 ==> !is_white_space(trim(s)[0]) && !is_white_space(trim(s).last()),
        (s.len() == 0 || (!is_white_space(s[0]) && !is_white_space(s.last()))) ==> trim(s) == s,
{
    let set = CharSet::WhiteSpace;
    lemma_lead_witness(s, set);
    let u = trim_start_set(s, set);
    lemma_keep_end_witness(u, set);
    let t = trim(s);
    if t.len() > 0 {
        assert(t[0] == u[0]);
        assert(u[0] == s[lead_len(s, set)]);
        assert(t.last() == u[keep_end(u, set) - 1]);
    }
    if s.len() == 0 || (!is_white_space(s[0]) && !is_white_space(s.last())) {
        lemma_lead(s, set, 0);
        assert(u =~= s);
        lemma_keep_end(u, set, u.len() as int);
        assert(t =~= s);
    }
}

/// `s` without the characters of `set` at its front.
pub fn trim_start_chars(s: &[char], set: CharSet) -> (r: Vec<char>)
    ensures
        r@ == trim_start_set(s@, set),
{
    let mut lo: usize = 0;
    while lo < s.len() && set.contains(s[lo])
        invariant
            lo <= s.len(),
            all_in(s@.take(lo as int), set),
        decreases s.len() - lo,
    {
        lo = lo + 1;
        assert(all_in(s@.take(lo as int), set)) by {
            assert forall|j: int| 0 <= j < lo implies set.has(#[trigger] s@.take(lo as int)[j]) by {
                if j < lo - 1 {
                    assert(s@.take(lo - 1)[j] == s@[j]);
                }
            }
        }
    }
    proof {
        lemma_lead(s@, set, lo as int);
    }
    skip_chars(s, lo)
}

/// `s` without the characters of `set` at its back.
pub fn trim_end_chars(s: &[char], set: CharSet) -> (r: Vec<char>)
    ensures
        r@ == trim_end_set(s@, set),
{
    let mut hi: usize = s.len();
    while hi > 0 && set.contains(s[hi - 1])
        invariant
            hi <= s.len(),
            all_in(s@.skip(hi as int), set),
        decreases hi,
    {
        hi = hi - 1;
        assert(all_in(s@.skip(hi as int), set)) by {
            assert forall|j: int| 0 <= j < s.len() - hi implies set.has(
                #[trigger] s@.skip(hi as int)[j],
            ) by {
                if j > 0 {
                    assert(s@.skip(hi as int)[j] == s@.skip(hi + 1)[j - 1]);
                }
            }
        }
    }
    proof {
        lemma_keep_end(s@, set, hi as int);
    }
    let r = slice_chars(s, 0, hi);
    assert(r@ =~= s@.take(hi as int));
    r
}

/// `s` without the characters of `set` at either end.
pub fn trim_chars(s: &[char], set: CharSet) -> (r: Vec<char>)
    ensures
        r@ == trim_set(s@, set),
{
    let a = trim_start_chars(s, set);
    trim_end_chars(&a, set)
}

/// `s` without white space at either end.
pub fn trim_ws(s: &[char]) -> (r: Vec<char>)
    ensures
        r@ == trim(s@),
{
    trim_chars(s, CharSet::WhiteSpace)
}

/// The characters of `s` after its first `n`.
pub fn skip_chars(s: &[char], n: usize) -> (r: Vec<char>)
    requires
        n <= s.len(),
    ensures
        r@ == s@.skip(n as int),
{
    let r = slice_chars(s, n, s.len());
    assert(r@ =~= s@.skip(n as int));
    r
}

proof fn lemma_pieces_step(s: Seq<char>, i: int)
    requires
        0 <= i < s.len(),
    ensures
        newline_pieces(s.take(i + 1)) == (if s[i] == '\n' {
            newline_pieces(s.take(i)).push(Seq::empty())
        } else {
            let p = newline_pieces(s.take(i));
            p.update(p.len() - 1, p.last().push(s[i]))
        }),
{
    assert(s.take(i + 1).drop_last() =~= s.take(i));
}

/// The lines of a text, as `str::lines` gives them.
pub fn split_lines(s: &[char]) -> (r: Vec<Vec<char>>)
    ensures
        r@.map_values(|l: Vec<char>| l@) == lines(s@),
{
    let mut done: Vec<Vec<char>> = Vec::new();
    let mut cur: Vec<char> = Vec::new();
    let mut i: usize = 0;
    while i < s.len()
        invariant
            i <= s.len(),
            newline_pieces(s@.take(i as int)) == done@.map_values(|l: Vec<char>| l@).push(cur@),
        decreases s.len() - i,
    {
        proof {
            lemma_pieces_step(s@, i as int);
        }
        let c = s[i];
        if c == '\n' {
            let ghost before = done@.map_values(|l: Vec<char>| l@);
            let ghost cv = cur@;
            done.push(cur);
            cur = Vec::new();
            assert(done@.map_values(|l: Vec<char>| l@) =~= before.push(cv));
        } else {
            cur.push(c);
        }
        i = i + 1;
        assert(newline_pieces(s@.take(i as int)) =~= done@.map_values(|l: Vec<char>| l@).push(cur@));
    }
    assert(s@.take(i as int) =~= s@);
    let ghost pieces = newline_pieces(s@);
    let mut out: Vec<Vec<char>> = Vec::new();
    let mut k: usize = 0;
    while k < done.len()
        invariant
            k <= done.len(),
            pieces == done@.map_values(|l: Vec<char>| l@).push(cur@),
            out@.len() == k,
            forall|j: int| 0 <= j < k ==> #[trigger] out@[j]@ == strip_cr(pieces[j]),
        decreases done.len() - k,
    {
        let piece = &done[k];
        assert(piece@ == pieces[k as int]);
        let line = if piece.len() > 0 && piece[piece.len() - 1] == '\r' {
            slice_chars(piece, 0, piece.len() - 1)
        } else {
            slice_chars(piece, 0, piece.len())
        };
        assert(line@ =~= strip_cr(piece@));
        out.push(line);
        k = k + 1;
    }
    assert(out@.map_values(|l: Vec<char>| l@) =~= pieces.drop_last().map_values(
        |l: Seq<char>| strip_cr(l),
    ));
    if cur.len() > 0 {
        let ghost before = out@.map_values(|l: Vec<char>| l@);
        out.push(cur);
        assert(out@.map_values(|l: Vec<char>| l@) =~= before.push(pieces.last()));
    }
    out
}

/// The lines of a text, each trimmed of white space.
pub fn trimmed_lines_of(text: &str) -> (r: Vec<Vec<char>>)
    ensures
        r@.map_values(|l: Vec<char>| l@) == trimmed_lines(text@),
{
    let cs = chars_of(text);
    let ls = split_lines(&cs);
    let ghost lv = lines(text@);
    let mut out: Vec<Vec<char>> = Vec::new();
    let mut i: usize = 0;
    while i < ls.len()
        invariant
            i <= ls.len(),
            ls@.map_values(|l: Vec<char>| l@) == lv,
            lv == lines(text@),
            out@.len() == i,
            forall|j: int| 0 <= j < i ==> #[trigger] out@[j]@ == trim(lv[j]),
        decreases ls.len() - i,
    {
        assert(ls@[i as int]@ == lv[i as int]);
        let t = trim_ws(&ls[i]);
        out.push(t);
        i = i + 1;
    }
    assert(out@.map_values(|l: Vec<char>| l@) =~= lv.map_values(|l: Seq<char>| trim(l)));
    out
}

fn digit_char(d: usize) -> (c: char)
    requires
        d < 10,
    ensures
        c == digit(d as nat),
{
    if d == 0 {
        '0'
    } else if d == 1 {
        '1'
    } else if d == 2 {
        '2'
    } else if d == 3 {
        '3'
    } else if d == 4 {
        '4'
    } else if d == 5 {
        '5'
    } else if d == 6 {
        '6'
    } else if d == 7 {
        '7'
    } else if d == 8 {
        '8'
    } else {
        '9'
    }
}

/// The decimal notation of `n`.
pub fn decimal_string(n: usize) -> (r: String)
    ensures
        r@ == decimal(n as nat),
    decreases n,
{
    if n < 10 {
        let mut s = String::new();
        push_char(&mut s, digit_char(n));
        assert(s@ =~= seq![digit(n as nat)]);
        s
    } else {
        let mut s = decimal_string(n / 10);
        push_char(&mut s, digit_char(n % 10));
        s
    }
}

/// Appends the decimal notation of `n`.
pub fn append_decimal(out: &mut String, n: usize)
    ensures
        final(out)@ == old(out)@ + decimal(n as nat),
{
    let d = decimal_string(n);
    out.append(d.as_str());
}

/// Appends two pieces of text.
pub fn append2(out: &mut String, a: &str, b: &str)
    ensures
        final(out)@ == old(out)@ + a@ + b@,
{
    out.append(a);
    out.append(b);
}

/// Appends three pieces of text.
pub fn append3(out: &mut String, a: &str, b: &str, c: &str)
    ensures
        final(out)@ == old(out)@ + a@ + b@ + c@,
{
    out.append(a);
    out.append(b);
    out.append(c);
}

/// Appends four pieces of text.
pub fn append4(out: &mut String, a: &str, b: &str, c: &str, d: &str)
    ensures
        final(out)@ == old(out)@ + a@ + b@ + c@ + d@,
{
    out.append(a);
    out.append(b);
    out.append(c);
    out.append(d);
}

/// Appends five pieces of text.
pub fn append5(out: &mut String, a: &str, b: &str, c: &str, d: &str, e: &str)
    ensures
        final(out)@ == old(out)@ + a@ + b@ + c@ + d@ + e@,
{
    out.append(a);
    out.append(b);
    out.append(c);
    out.append(d);
    out.append(e);
}

/// How a name is shown in a line of output.
#[derive(Clone, Copy)]
pub enum Form {
    /// As it is.
    Same,
    /// With `_` shown as `-`.
    Dashed,
    /// With `-` shown as `_`.
    Underscored,
}

pub open spec fn form(f: Form, s: Seq<char>) -> Seq<char> {
    match f {
        Form::Same => s,
        Form::Dashed => dashed(s),
        Form::Underscored => underscored(s),
    }
}

/// `s` in the form `f`.
pub fn apply_form(f: Form, s: &str) -> (r: String)
    ensures
        r@ == form(f, s@),
{
    match f {
        Form::Same => String::from_str(s),
        Form::Dashed => replace_all(s, '_', '-'),
        Form::Underscored => replace_all(s, '-', '_'),
    }
}

/// `acc` followed by one line per item: `pre`, the item in form `f`, `suf`.
pub open spec fn item_lines(
    acc: Seq<char>,
    items: Seq<Seq<char>>,
    pre: Seq<char>,
    f: Form,
    suf: Seq<char>,
) -> Seq<char>
    decreases items.len(),
{
    if items.len() == 0 {
        acc
    } else {
        item_lines(acc, items.drop_last(), pre, f, suf) + pre + form(f, items.last()) + suf
    }
}

/// `acc` followed by one line per item: `pre`, the item in form `f1`, `mid`,
/// the item in form `f2`, `suf`.
pub open spec fn pair_lines(
    acc: Seq<char>,
    items: Seq<Seq<char>>,
    pre: Seq<char>,
    f1: Form,
    mid: Seq<char>,
    f2: Form,
    suf: Seq<char>,
) -> Seq<char>
    decreases items.len(),
{
    if items.len() == 0 {
        acc
    } else {
        pair_lines(acc, items.drop_last(), pre, f1, mid, f2, suf) + pre + form(f1, items.last())
            + mid + form(f2, items.last()) + suf
    }
}

/// `acc` followed by one line per item: `pre`, the item's position in
/// decimal, `mid`, the item, `suf`.
pub open spec fn numbered_lines(
    acc: Seq<char>,
    items: Seq<Seq<char>>,
    pre: Seq<char>,
    mid: Seq<char>,
    suf: Seq<char>,
) -> Seq<char>
    decreases items.len(),
{
    if items.len() == 0 {
        acc
    } else {
        numbered_lines(acc, items.drop_last(), pre, mid, suf) + pre + decimal(
            (items.len() - 1) as nat,
        ) + mid + items.last() + suf
    }
}

/// Appends one line per item: `pre`, the item in form `f`, `suf`.
pub fn append_item_lines(out: &mut String, items: &Vec<String>, pre: &str, f: Form, suf: &str)
    ensures
        final(out)@ == item_lines(old(out)@, views(items@), pre@, f, suf@),
{
    let mut i: usize = 0;
    while i < items.len()
        invariant
            i <= items.len(),
            out@ == item_lines(old(out)@, views(items@).take(i as int), pre@, f, suf@),
        decreases items.len() - i,
    {
        assert(views(items@).take(i + 1).drop_last() =~= views(items@).take(i as int));
        let x = apply_form(f, items[i].as_str());
        append3(out, pre, x.as_str(), suf);
        i = i + 1;
    }
    assert(views(items@).take(i as int) =~= views(items@));
}

/// Appends one line per item: `pre`, the item in form `f1`, `mid`, the item
/// in form `f2`, `suf`.
pub fn append_pair_lines(
    out: &mut String,
    items: &Vec<String>,
    pre: &str,
    f1: Form,
    mid: &str,
    f2: Form,
    suf: &str,
)
    ensures
        final(out)@ == pair_lines(old(out)@, views(items@), pre@, f1, mid@, f2, suf@),
{
    let mut i: usize = 0;
    while i < items.len()
        invariant
            i <= items.len(),
            out@ == pair_lines(old(out)@, views(items@).take(i as int), pre@, f1, mid@, f2, suf@),
        decreases items.len() - i,
    {
        assert(views(items@).take(i + 1).drop_last() =~= views(items@).take(i as int));
        let x = apply_form(f1, items[i].as_str());
        let y = apply_form(f2, items[i].as_str());
        append5(out, pre, x.as_str(), mid, y.as_str(), suf);
        i = i + 1;
    }
    assert(views(items@).take(i as int) =~= views(items@));
}

/// Appends one line per item: `pre`, the item's position, `mid`, the item, `suf`.
pub fn append_numbered_lines(out: &mut String, items: &Vec<String>, pre: &str, mid: &str, suf: &str)
    ensures
        final(out)@ == numbered_lines(old(out)@, views(items@), pre@, mid@, suf@),
{
    let mut i: usize = 0;
    while i < items.len()
        invariant
            i <= items.len(),
            out@ == numbered_lines(old(out)@, views(items@).take(i as int), pre@, mid@, suf@),
        decreases items.len() - i,
    {
        assert(views(items@).take(i + 1).drop_last() =~= views(items@).take(i as int));
        out.append(pre);
        append_decimal(out, i);
        append3(out, mid, items[i].as_str(), suf);
        i = i + 1;
    }
    assert(views(items@).take(i as int) =~= views(items@));
}

/// `a` comes before `b` in code-point order, character by character, a
/// proper prefix first.
pub open spec fn text_less(a: Seq<char>, b: Seq<char>) -> bool
    decreases a.len(),
{
    if a.len() == 0 {
        b.len() > 0
    } else if b.len() == 0 {
        false
    } else if a[0] != b[0] {
        (a[0] as int) < (b[0] as int)
    } else {
        text_less(a.drop_first(), b.drop_first())
    }
}

/// Whether `a` comes before `b` in code-point order.
pub fn is_text_less(a: &[char], b: &[char]) -> (r: bool)
    ensures
        r == text_less(a@, b@),
{
    let mut i: usize = 0;
    assert(a@.skip(0) =~= a@);
    assert(b@.skip(0) =~= b@);
    while i < a.len() && i < b.len() && a[i] == b[i]
        invariant
            i <= a.len(),
            i <= b.len(),
            text_less(a@, b@) == text_less(a@.skip(i as int), b@.skip(i as int)),
        decreases a.len() - i,
    {
        assert(a@.skip(i as int).drop_first() =~= a@.skip(i + 1));
        assert(b@.skip(i as int).drop_first() =~= b@.skip(i + 1));
        i = i + 1;
    }
    let ghost sa = a@.skip(i as int);
    let ghost sb = b@.skip(i as int);
    if i == a.len() {
        assert(sa.len() == 0);
        i < b.len()
    } else if i == b.len() {
        assert(sb.len() == 0);
        false
    } else {
        assert(sa[0] == a@[i as int] && sb[0] == b@[i as int]);
        a[i] < b[i]
    }
}

/// Appends the items joined with `sep` between them.
pub fn append_joined(out: &mut String, items: &Vec<String>, sep: &str)
    ensures
        final(out)@ == old(out)@ + join(views(items@), sep@),
{
    if items.len() == 0 {
        assert(old(out)@ + join(views(items@), sep@) =~= old(out)@);
        return;
    }
    let mut acc = String::from_str(items[0].as_str());
    assert(join(views(items@).take(1), sep@) == views(items@)[0]);
    let mut i: usize = 1;
    while i < items.len()
        invariant
            1 <= i <= items.len(),
            acc@ == join(views(items@).take(i as int), sep@),
        decreases items.len() - i,
    {
        proof {
            lemma_join_take(views(items@), sep@, i as int);
        }
        append2(&mut acc, sep, items[i].as_str());
        i = i + 1;
    }
    assert(views(items@).take(i as int) =~= views(items@));
    out.append(acc.as_str());
}

/// Whether two strings hold the same text.
pub fn same_text(a: &String, b: &String) -> (r: bool)
    ensures
        r == (a@ == b@),
{
    a.eq(b)
}

/// A copy of a list of strings.
pub fn copy_strings(v: &Vec<String>) -> (r: Vec<String>)
    ensures
        views(r@) == views(v@),
        r@.len() == v@.len(),
{
    let mut r: Vec<String> = Vec::new();
    let mut i: usize = 0;
    while i < v.len()
        invariant
            i <= v.len(),
            r@.len() == i,
            forall|j: int| 0 <= j < i ==> #[trigger] r@[j]@ == v@[j]@,
        decreases v.len() - i,
    {
        r.push(v[i].clone());
        i = i + 1;
    }
    assert(views(r@) =~= views(v@));
    r
}

/// Whether `v` holds a string with the text of `s`.
pub fn holds_text(v: &Vec<String>, s: &String) -> (r: bool)
    ensures
        r == views(v@).contains(s@),
{
    let mut i: usize = 0;
    while i < v.len()
        invariant
            i <= v.len(),
            forall|j: int| 0 <= j < i ==> v@[j]@ != s@,
        decreases v.len() - i,
    {
        if same_text(&v[i], s) {
            assert(views(v@)[i as int] == s@);
            return true;
        }
        i = i + 1;
    }
    assert forall|j: int| 0 <= j < views(v@).len() implies views(v@)[j] != s@ by {
        assert(views(v@)[j] == v@[j]@);
    }
    false
}

} // verus!
