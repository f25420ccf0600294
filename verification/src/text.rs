//! Text primitives shared by the parsers: characters, UTF-8 bytes, and the
//! handful of `str` operations the rest of the library builds on.
use vstd::prelude::*;
use vstd::utf8::*;

verus! {

broadcast use vstd::utf8::encode_utf8_valid_utf8, vstd::utf8::encode_utf8_decode_utf8;

/// Appends one character to a string (`String::push`).
#[verifier::external_body]
pub(crate) fn push_char(s: &mut String, c: char)
    ensures
        final(s)@ == old(s)@.push(c),
{
    s.push(c);
}

/// Turns bytes into a string when they are valid UTF-8 (`String::from_utf8`).
#[verifier::external_body]
pub(crate) fn string_from_utf8(bytes: Vec<u8>) -> (res: Option<String>)
    ensures
        res is Some <==> valid_utf8(bytes@),
        res matches Some(s) ==> s@ == decode_utf8(bytes@),
{
    String::from_utf8(bytes).ok()
}

/// The UTF-8 bytes of a character sequence.
pub open spec fn utf8(cs: Seq<char>) -> Seq<u8> {
    encode_utf8(cs)
}

/// Encoding distributes over concatenation.
pub proof fn lemma_utf8_concat(a: Seq<char>, b: Seq<char>)
    ensures
        utf8(a + b) == utf8(a) + utf8(b),
    decreases a.len(),
{
    if a.len() == 0 {
        assert(a + b =~= b);
        assert(utf8(a) =~= Seq::<u8>::empty());
        assert(utf8(a) + utf8(b) =~= utf8(b));
    } else {
        assert((a + b).drop_first() =~= a.drop_first() + b);
        lemma_utf8_concat(a.drop_first(), b);
        assert((a + b)[0] == a[0]);
        assert(encode_scalar(a[0] as u32) + (utf8(a.drop_first()) + utf8(b)) =~= (
        encode_scalar(a[0] as u32) + utf8(a.drop_first())) + utf8(b));
    }
}

/// Equal encodings mean equal characters.
pub proof fn lemma_utf8_injective(a: Seq<char>, b: Seq<char>)
    requires
        utf8(a) == utf8(b),
    ensures
        a == b,
{
    assert(decode_utf8(encode_utf8(a)) == a);
    assert(decode_utf8(encode_utf8(b)) == b);
}

/// The characters of a string slice, in order.
pub fn chars_of(s: &str) -> (v: Vec<char>)
    ensures
        v@ == s@,
{
    let mut v: Vec<char> = Vec::new();
    for c in it: s.chars()
        invariant
            v@ == it.seq().take(it.index() as int),
    {
        v.push(c);
    }
    v
}

/// A string holding exactly the given characters.
pub fn string_from_chars(cs: &[char]) -> (s: String)
    ensures
        s@ == cs@,
{
    let mut s = String::new();
    let mut i: usize = 0;
    while i < cs.len()
        invariant
            i <= cs@.len(),
            s@ == cs@.take(i as int),
        decreases cs@.len() - i,
    {
        push_char(&mut s, cs[i]);
        assert(cs@.take(i + 1) =~= cs@.take(i as int).push(cs@[i as int]));
        i = i + 1;
    }
    assert(cs@.take(cs@.len() as int) =~= cs@);
    s
}

/// A string holding the characters `cs[from..to]`.
pub fn string_from_char_range(cs: &[char], from: usize, to: usize) -> (s: String)
    requires
        from <= to <= cs@.len(),
    ensures
        s@ == cs@.subrange(from as int, to as int),
{
    let mut s = String::new();
    let mut i: usize = from;
    while i < to
        invariant
            from <= i <= to <= cs@.len(),
            s@ == cs@.subrange(from as int, i as int),
        decreases to - i,
    {
        push_char(&mut s, cs[i]);
        assert(cs@.subrange(from as int, i + 1) =~= cs@.subrange(from as int, i as int).push(
            cs@[i as int],
        ));
        i = i + 1;
    }
    s
}

/// Unicode `White_Space`, the set `char::is_whitespace` tests.
pub open spec fn is_whitespace(c: char) -> bool {
    let u = c as u32;
    ||| 0x9 <= u <= 0xd
    ||| u == 0x20
    ||| u == 0x85
    ||| u == 0xa0
    ||| u == 0x1680
    ||| 0x2000 <= u <= 0x200a
    ||| u == 0x2028
    ||| u == 0x2029
    ||| u == 0x202f
    ||| u == 0x205f
    ||| u == 0x3000
}

pub fn is_whitespace_char(c: char) -> (b: bool)
    ensures
        b == is_whitespace(c),
{
    let u = c as u32;
    (0x9 <= u && u <= 0xd) || u == 0x20 || u == 0x85 || u == 0xa0 || u == 0x1680 || (0x2000 <= u
        && u <= 0x200a) || u == 0x2028 || u == 0x2029 || u == 0x202f || u == 0x205f || u == 0x3000
}

pub open spec fn is_ascii_digit(c: char) -> bool {
    '0' <= c <= '9'
}

pub open spec fn is_ascii_alpha(c: char) -> bool {
    ('a' <= c <= 'z') || ('A' <= c <= 'Z')
}

/// Removes leading whitespace.
pub open spec fn trim_start(cs: Seq<char>) -> Seq<char>
    decreases cs.len(),
{
    if cs.len() > 0 && is_whitespace(cs[0]) {
        trim_start(cs.drop_first())
    } else {
        cs
    }
}

/// Removes trailing whitespace.
pub open spec fn trim_end(cs: Seq<char>) -> Seq<char>
    decreases cs.len(),
{
    if cs.len() > 0 && is_whitespace(cs.last()) {
        trim_end(cs.drop_last())
    } else {
        cs
    }
}

/// `str::trim`: whitespace removed from both ends.
pub open spec fn trim(cs: Seq<char>) -> Seq<char> {
    trim_end(trim_start(cs))
}

/// Removes trailing `/` and `\` characters.
pub open spec fn trim_end_slashes(cs: Seq<char>) -> Seq<char>
    decreases cs.len(),
{
    if cs.len() > 0 && (cs.last() == '/' || cs.last() == '\\') {
        trim_end_slashes(cs.drop_last())
    } else {
        cs
    }
}

/// Index of the first character of `cs[from..]` that is not whitespace.
pub fn skip_whitespace(cs: &[char], from: usize) -> (i: usize)
    requires
        from <= cs@.len(),
    ensures
        from <= i <= cs@.len(),
        trim_start(cs@.subrange(from as int, cs@.len() as int)) == cs@.subrange(
            i as int,
            cs@.len() as int,
        ),
{
    let mut i = from;
    while i < cs.len() && is_whitespace_char(cs[i])
        invariant
            from <= i <= cs@.len(),
            trim_start(cs@.subrange(from as int, cs@.len() as int)) == trim_start(
                cs@.subrange(i as int, cs@.len() as int),
            ),
        decreases cs@.len() - i,
    {
        assert(cs@.subrange(i as int, cs@.len() as int).drop_first() =~= cs@.subrange(
            i + 1,
            cs@.len() as int,
        ));
        i = i + 1;
    }
    i
}

/// End of `cs[from..to]` once trailing whitespace is removed.
pub fn trailing_whitespace_start(cs: &[char], from: usize, to: usize) -> (j: usize)
    requires
        from <= to <= cs@.len(),
    ensures
        from <= j <= to,
        trim_end(cs@.subrange(from as int, to as int)) == cs@.subrange(from as int, j as int),
{
    let mut j = to;
    while j > from && is_whitespace_char(cs[j - 1])
        invariant
            from <= j <= to <= cs@.len(),
            trim_end(cs@.subrange(from as int, to as int)) == trim_end(
                cs@.subrange(from as int, j as int),
            ),
        decreases j,
    {
        assert(cs@.subrange(from as int, j as int).drop_last() =~= cs@.subrange(
            from as int,
            j - 1,
        ));
        j = j - 1;
    }
    j
}

/// Start and end of `str::trim` applied to `cs[from..to]`.
pub fn trim_bounds(cs: &[char], from: usize, to: usize) -> (r: (usize, usize))
    requires
        from <= to <= cs@.len(),
    ensures
        from <= r.0 <= r.1 <= to,
        trim(cs@.subrange(from as int, to as int)) == cs@.subrange(r.0 as int, r.1 as int),
{
    let ghost s = cs@.subrange(from as int, to as int);
    let mut i = from;
    while i < to && is_whitespace_char(cs[i])
        invariant
            from <= i <= to <= cs@.len(),
            trim_start(s) == trim_start(cs@.subrange(i as int, to as int)),
        decreases to - i,
    {
        assert(cs@.subrange(i as int, to as int).drop_first() =~= cs@.subrange(i + 1, to as int));
        i = i + 1;
    }
    proof {
        if i < to {
            assert(trim_start(cs@.subrange(i as int, to as int)) == cs@.subrange(
                i as int,
                to as int,
            ));
        } else {
            assert(trim_start(cs@.subrange(i as int, to as int)) == cs@.subrange(
                i as int,
                to as int,
            ));
        }
    }
    let j = trailing_whitespace_start(cs, i, to);
    (i, j)
}

/// End of `cs[from..to]` once trailing `/` and `\` are removed.
pub fn trailing_slashes_start(cs: &[char], from: usize, to: usize) -> (j: usize)
    requires
        from <= to <= cs@.len(),
    ensures
        from <= j <= to,
        trim_end_slashes(cs@.subrange(from as int, to as int)) == cs@.subrange(
            from as int,
            j as int,
        ),
{
    let mut j = to;
    while j > from && (cs[j - 1] == '/' || cs[j - 1] == '\\')
        invariant
            from <= j <= to <= cs@.len(),
            trim_end_slashes(cs@.subrange(from as int, to as int)) == trim_end_slashes(
                cs@.subrange(from as int, j as int),
            ),
        decreases j,
    {
        assert(cs@.subrange(from as int, j as int).drop_last() =~= cs@.subrange(
            from as int,
            j - 1,
        ));
        j = j - 1;
    }
    j
}

/// Whether every character of `cs[from..to]` is an ASCII digit.
pub fn all_digits(cs: &[char], from: usize, to: usize) -> (b: bool)
    requires
        from <= to <= cs@.len(),
    ensures
        b == (forall|k: int| from <= k < to ==> is_ascii_digit(#[trigger] cs@[k])),
{
    let mut i = from;
    while i < to
        invariant
            from <= i <= to <= cs@.len(),
            forall|k: int| from <= k < i ==> is_ascii_digit(#[trigger] cs@[k]),
        decreases to - i,
    {
        if !('0' <= cs[i] && cs[i] <= '9') {
            return false;
        }
        i = i + 1;
    }
    true
}

/// Position of the last `c` in `cs[from..to]`, if any.
pub fn rfind_char(cs: &[char], from: usize, to: usize, c: char) -> (r: Option<usize>)
    requires
        from <= to <= cs@.len(),
    ensures
        r matches Some(k) ==> from <= k < to && cs@[k as int] == c && forall|j: int|
            k < j < to ==> cs@[j] != c,
        r is None ==> forall|j: int| from <= j < to ==> cs@[j] != c,
{
    let mut j = to;
    while j > from
        invariant
            from <= j <= to <= cs@.len(),
            forall|k: int| j <= k < to ==> cs@[k] != c,
        decreases j,
    {
        if cs[j - 1] == c {
            return Some(j - 1);
        }
        j = j - 1;
    }
    None
}

/// Position of the first `c` in `cs[from..to]`, if any.
pub fn find_char(cs: &[char], from: usize, to: usize, c: char) -> (r: Option<usize>)
    requires
        from <= to <= cs@.len(),
    ensures
        r matches Some(k) ==> from <= k < to && cs@[k as int] == c && forall|j: int|
            from <= j < k ==> cs@[j] != c,
        r is None ==> forall|j: int| from <= j < to ==> cs@[j] != c,
{
    let mut i = from;
    while i < to
        invariant
            from <= i <= to <= cs@.len(),
            forall|k: int| from <= k < i ==> cs@[k] != c,
        decreases to - i,
    {
        if cs[i] == c {
            return Some(i);
        }
        i = i + 1;
    }
    None
}

/// Whether `cs` begins with `prefix`.
pub fn chars_start_with(cs: &[char], prefix: &[char]) -> (b: bool)
    ensures
        b == (prefix@.len() <= cs@.len() && cs@.subrange(0, prefix@.len() as int) == prefix@),
{
    if prefix.len() > cs.len() {
        return false;
    }
    let mut i: usize = 0;
    while i < prefix.len()
        invariant
            prefix@.len() <= cs@.len(),
            i <= prefix@.len(),
            forall|k: int| 0 <= k < i ==> cs@[k] == prefix@[k],
        decreases prefix@.len() - i,
    {
        if cs[i] != prefix[i] {
            assert(cs@.subrange(0, prefix@.len() as int)[i as int] != prefix@[i as int]);
            return false;
        }
        i = i + 1;
    }
    assert(cs@.subrange(0, prefix@.len() as int) =~= prefix@);
    true
}

/// Whether two byte sequences are equal.
pub fn bytes_eq(a: &[u8], b: &[u8]) -> (r: bool)
    ensures
        r == (a@ == b@),
{
    if a.len() != b.len() {
        return false;
    }
    let mut i: usize = 0;
    while i < a.len()
        invariant
            a@.len() == b@.len(),
            i <= a@.len(),
            forall|k: int| 0 <= k < i ==> a@[k] == b@[k],
        decreases a@.len() - i,
    {
        if a[i] != b[i] {
            return false;
        }
        i = i + 1;
    }
    assert(a@ =~= b@);
    true
}

/// Whether `a` begins with `prefix`.
pub fn bytes_start_with(a: &[u8], prefix: &[u8]) -> (r: bool)
    ensures
        r == (prefix@.len() <= a@.len() && a@.subrange(0, prefix@.len() as int) == prefix@),
{
    if prefix.len() > a.len() {
        return false;
    }
    let mut i: usize = 0;
    while i < prefix.len()
        invariant
            prefix@.len() <= a@.len(),
            i <= prefix@.len(),
            forall|k: int| 0 <= k < i ==> a@[k] == prefix@[k],
        decreases prefix@.len() - i,
    {
        if a[i] != prefix[i] {
            assert(a@.subrange(0, prefix@.len() as int)[i as int] != prefix@[i as int]);
            return false;
        }
        i = i + 1;
    }
    assert(a@.subrange(0, prefix@.len() as int) =~= prefix@);
    true
}

/// Whether `a` ends with `suffix`.
pub fn bytes_end_with(a: &[u8], suffix: &[u8]) -> (r: bool)
    ensures
        r == (suffix@.len() <= a@.len() && a@.subrange(
            a@.len() - suffix@.len(),
            a@.len() as int,
        ) == suffix@),
{
    if suffix.len() > a.len() {
        return false;
    }
    let n = a.len();
    let off = n - suffix.len();
    let mut i: usize = 0;
    while i < suffix.len()
        invariant
            n == a@.len(),
            suffix@.len() <= a@.len(),
            off == a@.len() - suffix@.len(),
            i <= suffix@.len(),
            forall|k: int| 0 <= k < i ==> a@[off + k] == suffix@[k],
        decreases suffix@.len() - i,
    {
        if a[off + i] != suffix[i] {
            assert(a@.subrange(off as int, a@.len() as int)[i as int] != suffix@[i as int]);
            return false;
        }
        i = i + 1;
    }
    assert(a@.subrange(off as int, a@.len() as int) =~= suffix@);
    true
}

/// Whether `needle` occurs in `a` starting at `at`.
pub open spec fn occurs_at(a: Seq<u8>, needle: Seq<u8>, at: int) -> bool {
    0 <= at && at + needle.len() <= a.len() && a.subrange(at, at + needle.len()) == needle
}

/// Whether `needle` occurs anywhere in `a`.
pub open spec fn contains_bytes(a: Seq<u8>, needle: Seq<u8>) -> bool {
    exists|at: int| occurs_at(a, needle, at)
}

fn occurs_at_exec(a: &[u8], needle: &[u8], at: usize) -> (r: bool)
    requires
        at + needle@.len() <= a@.len(),
    ensures
        r == occurs_at(a@, needle@, at as int),
{
    let n = a.len();
    let mut i: usize = 0;
    while i < needle.len()
        invariant
            n == a@.len(),
            at + needle@.len() <= a@.len(),
            i <= needle@.len(),
            forall|k: int| 0 <= k < i ==> a@[at + k] == needle@[k],
        decreases needle@.len() - i,
    {
        if a[at + i] != needle[i] {
            assert(a@.subrange(at as int, at + needle@.len())[i as int] != needle@[i as int]);
            return false;
        }
        i = i + 1;
    }
    assert(a@.subrange(at as int, at + needle@.len()) =~= needle@);
    true
}

/// Whether `needle` occurs anywhere in `a` (`str::contains` on bytes).
pub fn bytes_contain(a: &[u8], needle: &[u8]) -> (r: bool)
    ensures
        r == contains_bytes(a@, needle@),
{
    if needle.len() > a.len() {
        assert(forall|at: int| !occurs_at(a@, needle@, at));
        return false;
    }
    let last = a.len() - needle.len();
    let mut at: usize = 0;
    while at <= last
        invariant_except_break
            last == a@.len() - needle@.len(),
            at <= last,
            forall|k: int| 0 <= k < at ==> !occurs_at(a@, needle@, k),
        ensures
            forall|k: int| 0 <= k <= last ==> !occurs_at(a@, needle@, k),
        decreases last - at,
    {
        if occurs_at_exec(a, needle, at) {
            return true;
        }
        if at == last {
            break;
        }
        at = at + 1;
    }
    assert(forall|k: int| !occurs_at(a@, needle@, k));
    false
}

/// ASCII lowercase of one byte.
pub open spec fn lower_byte(b: u8) -> u8 {
    if 65 <= b <= 90 {
        (b + 32) as u8
    } else {
        b
    }
}

/// ASCII lowercase of every byte (`to_ascii_lowercase`).
pub open spec fn lower_bytes(bs: Seq<u8>) -> Seq<u8> {
    Seq::new(bs.len(), |i: int| lower_byte(bs[i]))
}

pub fn lowercase_bytes(bs: &[u8]) -> (r: Vec<u8>)
    ensures
        r@ == lower_bytes(bs@),
{
    let mut r: Vec<u8> = Vec::new();
    let mut i: usize = 0;
    while i < bs.len()
        invariant
            i <= bs@.len(),
            r@ =~= lower_bytes(bs@).take(i as int),
        decreases bs@.len() - i,
    {
        let b = bs[i];
        let l = if 65 <= b && b <= 90 {
            b + 32
        } else {
            b
        };
        r.push(l);
        i = i + 1;
    }
    r
}


/// An ASCII byte of valid UTF-8 starts a character.
pub proof fn lemma_boundary_at_ascii(b: Seq<u8>, i: int)
    requires
        valid_utf8(b),
        0 <= i < b.len(),
        b[i] < 128,
    ensures
        is_char_boundary(b, i),
{
    is_char_boundary_iff_not_is_continuation_byte(b, i);
}

/// The position right after an ASCII byte of valid UTF-8 starts a character.
pub proof fn lemma_boundary_after_ascii(b: Seq<u8>, i: int)
    requires
        valid_utf8(b),
        0 <= i < b.len(),
        b[i] < 128,
    ensures
        is_char_boundary(b, i + 1),
{
    if i + 1 == b.len() {
        is_char_boundary_start_end_of_seq(b);
    } else {
        lemma_boundary_at_ascii(b, i);
        valid_utf8_split(b, i);
        let suf = b.subrange(i, b.len() as int);
        assert(valid_utf8(suf));
        assert(length_of_first_scalar(suf) == 1);
        let rest = pop_first_scalar(suf);
        assert(rest.len() > 0);
        assert(valid_utf8(rest));
        assert(valid_first_scalar(rest));
        assert(rest[0] == b[i + 1]);
        is_char_boundary_iff_not_is_continuation_byte(b, i + 1);
    }
}

/// A boundary of a string is a boundary of any prefix that contains it.
pub proof fn lemma_boundary_in_prefix(b: Seq<u8>, from: int, to: int)
    requires
        valid_utf8(b),
        0 <= from <= to <= b.len(),
        is_char_boundary(b, from),
        is_char_boundary(b, to),
    ensures
        valid_utf8(b.subrange(0, to)),
        is_char_boundary(b.subrange(0, to), from),
{
    valid_utf8_split(b, to);
    let p = b.subrange(0, to);
    if from == to {
        is_char_boundary_start_end_of_seq(p);
    } else {
        is_char_boundary_iff_not_is_continuation_byte(b, from);
        is_char_boundary_iff_not_is_continuation_byte(p, from);
    }
}

/// The part of `s` between two character boundaries, given as byte offsets.
pub fn substr(s: &str, from: usize, to: usize) -> (r: &str)
    requires
        from <= to <= utf8(s@).len(),
        is_char_boundary(utf8(s@), from as int),
        is_char_boundary(utf8(s@), to as int),
    ensures
        utf8(r@) == utf8(s@).subrange(from as int, to as int),
        r@ == decode_utf8(utf8(s@).subrange(from as int, to as int)),
{
    proof {
        lemma_boundary_in_prefix(utf8(s@), from as int, to as int);
    }
    let (head, _) = s.split_at(to);
    let (_, mid) = head.split_at(from);
    proof {
        assert(utf8(mid@) =~= utf8(s@).subrange(from as int, to as int));
        assert(decode_utf8(encode_utf8(mid@)) == mid@);
    }
    mid
}

} // verus!
