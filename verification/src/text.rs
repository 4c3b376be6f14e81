use vstd::prelude::*;

verus! {

// ---------------------------------------------------------------------------
// Decimal formatting
// ---------------------------------------------------------------------------

/// The character for one decimal digit value.
pub open spec fn digit_char(d: int) -> char {
    if d == 0 {
        '0'
    } else if d == 1 {
        '1'
    } else if d == 2 {
        '2'
    } else if d == 3 {
        '3'
    } else if d == 4 {
        '4'
    } else if d == 5 {
        '5'
    } else if d == 6 {
        '6'
    } else if d == 7 {
        '7'
    } else if d == 8 {
        '8'
    } else {
        '9'
    }
}

/// Decimal text of a non-negative number, most significant digit first.
pub open spec fn dec_digits(n: int) -> Seq<char>
    decreases n,
{
    if n < 10 {
        seq![digit_char(n)]
    } else {
        dec_digits(n / 10).push(digit_char(n % 10))
    }
}

fn digit_char_exec(d: u64) -> (c: char)
    requires
        d < 10,
    ensures
        c == digit_char(d as int),
{
    if d == 0 {
        '0'
    } else if d == 1 {
        '1'
    } else if d == 2 {
        '2'
    } else if d == 3 {
        '3'
    } else if d == 4 {
        '4'
    } else if d == 5 {
        '5'
    } else if d == 6 {
        '6'
    } else if d == 7 {
        '7'
    } else if d == 8 {
        '8'
    } else {
        '9'
    }
}

fn push_dec_digits(n: u64, out: &mut Vec<char>)
    ensures
        final(out)@ == old(out)@ + dec_digits(n as int),
    decreases n,
{
    if n >= 10 {
        push_dec_digits(n / 10, out);
    }
    let c = digit_char_exec(n % 10);
    out.push(c);
    proof {
        if n >= 10 {
            assert(out@ =~= old(out)@ + dec_digits(n as int));
        } else {
            assert(out@ =~= old(out)@ + dec_digits(n as int));
        }
    }
}

/// The decimal text of `n` as a vector of characters.
pub fn u64_to_dec(n: u64) -> (r: Vec<char>)
    ensures
        r@ == dec_digits(n as int),
{
    let mut v: Vec<char> = Vec::new();
    push_dec_digits(n, &mut v);
    proof {
        assert(v@ =~= dec_digits(n as int));
    }
    v
}

/// Copies a character vector.
pub fn clone_chars(v: &Vec<char>) -> (r: Vec<char>)
    ensures
        r@ == v@,
{
    let mut out: Vec<char> = Vec::new();
    let mut i: usize = 0;
    while i < v.len()
        invariant
            i <= v@.len(),
            out@ == v@.take(i as int),
        decreases v@.len() - i,
    {
        out.push(v[i]);
        proof {
            assert(v@.take(i + 1 as int) =~= v@.take(i as int).push(v@[i as int]));
        }
        i = i + 1;
    }
    proof {
        assert(v@.take(v@.len() as int) =~= v@);
    }
    out
}

// ---------------------------------------------------------------------------
// Trusted bridges between `String` and `Vec<char>`
// ---------------------------------------------------------------------------

/// Relies on `String: FromIterator<char>` (via `Iterator::collect`): the
/// resulting string holds exactly the characters of `v`, in order.
#[verifier::external_body]
pub fn chars_to_string(v: &Vec<char>) -> (r: String)
    ensures
        r@ == v@,
{
    v.iter().collect()
}

/// Relies on `str::chars`: the iterator yields the characters of `s` in order.
#[verifier::external_body]
pub fn string_to_chars(s: &str) -> (r: Vec<char>)
    ensures
        r@ == s@,
{
    s.chars().collect()
}

/// Appends the characters of `s` to `out`.
pub fn append_str(out: &mut Vec<char>, s: &str)
    ensures
        final(out)@ == old(out)@ + s@,
{
    let mut t = string_to_chars(s);
    out.append(&mut t);
}

// ---------------------------------------------------------------------------
// Case folding
// ---------------------------------------------------------------------------

/// The Unicode lowercase form of a sequence of characters, as
/// `str::to_lowercase` computes it.
pub uninterp spec fn lower_of(s: Seq<char>) -> Seq<char>;

/// Relies on `str::to_lowercase`: the result depends on the characters alone,
/// and an empty string stays empty.
#[verifier::external_body]
pub fn lowercase(s: &str) -> (r: String)
    ensures
        r@ == lower_of(s@),
        s@.len() == 0 ==> r@.len() == 0,
{
    s.to_lowercase()
}

// ---------------------------------------------------------------------------
// Character classification
// ---------------------------------------------------------------------------

/// Whether `char::is_alphanumeric` holds of `c`: a fixed classification of
/// each character by the Unicode tables.
pub uninterp spec fn is_alnum(c: char) -> bool;

/// Relies on `char::is_alphanumeric`: true for the ASCII letters and digits,
/// false for ASCII punctuation and the space.
#[verifier::external_body]
pub fn char_is_alphanumeric(c: char) -> (r: bool)
    ensures
        r == is_alnum(c),
        ('0' <= c && c <= '9') || ('a' <= c && c <= 'z') || ('A' <= c && c <= 'Z') ==> r,
        c == '_' || c == '"' || c == '\'' || c == ' ' || c == '-' || c == '.' || c == ';' ==> !r,
{
    c.is_alphanumeric()
}

// ---------------------------------------------------------------------------
// Lexicographic order on character sequences
// ---------------------------------------------------------------------------

/// `a` comes no later than `b` in code-point lexicographic order.
pub open spec fn lex_le(a: Seq<char>, b: Seq<char>) -> bool
    decreases a.len(),
{
    if a.len() == 0 {
        true
    } else if b.len() == 0 {
        false
    } else if (a[0] as u32) < (b[0] as u32) {
        true
    } else if (b[0] as u32) < (a[0] as u32) {
        false
    } else {
        lex_le(a.drop_first(), b.drop_first())
    }
}

/// Any two character sequences are ordered one way or the other.
pub proof fn lemma_lex_total(a: Seq<char>, b: Seq<char>)
    ensures
        lex_le(a, b) || lex_le(b, a),
    decreases a.len(),
{
    if a.len() != 0 && b.len() != 0 && !((a[0] as u32) < (b[0] as u32)) && !((b[0] as u32) < (
    a[0] as u32)) {
        lemma_lex_total(a.drop_first(), b.drop_first());
    }
}

/// Every sequence is ordered no later than itself.
pub proof fn lemma_lex_refl(a: Seq<char>)
    ensures
        lex_le(a, a),
    decreases a.len(),
{
    if a.len() != 0 {
        lemma_lex_refl(a.drop_first());
    }
}

/// The order chains: what comes before `b` comes before what follows `b`.
pub proof fn lemma_lex_trans(a: Seq<char>, b: Seq<char>, c: Seq<char>)
    requires
        lex_le(a, b),
        lex_le(b, c),
    ensures
        lex_le(a, c),
    decreases a.len(),
{
    if a.len() != 0 && b.len() != 0 && c.len() != 0 {
        if !((a[0] as u32) < (b[0] as u32)) && !((b[0] as u32) < (a[0] as u32)) && !((
        b[0] as u32) < (c[0] as u32)) && !((c[0] as u32) < (b[0] as u32)) {
            lemma_lex_trans(a.drop_first(), b.drop_first(), c.drop_first());
        }
    }
}

/// Compares two character vectors in code-point lexicographic order.
pub fn lex_le_chars(a: &Vec<char>, b: &Vec<char>) -> (r: bool)
    ensures
        r == lex_le(a@, b@),
{
    let mut i: usize = 0;
    proof {
        assert(a@.skip(0) =~= a@);
        assert(b@.skip(0) =~= b@);
    }
    loop
        invariant
            i <= a@.len(),
            i <= b@.len(),
            lex_le(a@, b@) == lex_le(a@.skip(i as int), b@.skip(i as int)),
        decreases a@.len() - i,
    {
        if i == a.len() {
            return true;
        }
        if i == b.len() {
            return false;
        }
        let ca = a[i];
        let cb = b[i];
        if (ca as u32) < (cb as u32) {
            return true;
        }
        if (cb as u32) < (ca as u32) {
            return false;
        }
        proof {
            assert(a@.skip(i as int).drop_first() =~= a@.skip(i + 1 as int));
            assert(b@.skip(i as int).drop_first() =~= b@.skip(i + 1 as int));
        }
        i = i + 1;
    }
}

// ---------------------------------------------------------------------------
// File-path suffixes
// ---------------------------------------------------------------------------

/// Whether `ch` occurs in `s`.
pub open spec fn has_char(s: Seq<char>, ch: char) -> bool {
    exists|i: int| 0 <= i < s.len() && s[i] == ch
}

/// The part of `s` after the last occurrence of `ch`; all of `s` when `ch`
/// does not occur.
pub open spec fn suffix_after_last(s: Seq<char>, ch: char) -> Seq<char>
    decreases s.len(),
{
    if s.len() == 0 {
        s
    } else if s.last() == ch {
        Seq::empty()
    } else {
        suffix_after_last(s.drop_last(), ch).push(s.last())
    }
}

proof fn lemma_suffix_absent(s: Seq<char>, ch: char)
    requires
        !has_char(s, ch),
    ensures
        suffix_after_last(s, ch) == s,
    decreases s.len(),
{
    if s.len() != 0 {
        assert(!has_char(s.drop_last(), ch)) by {
            if has_char(s.drop_last(), ch) {
                let i = choose|i: int|
                    0 <= i < s.drop_last().len() && s.drop_last()[i] == ch;
                assert(s[i] == ch);
            }
        }
        lemma_suffix_absent(s.drop_last(), ch);
        assert(suffix_after_last(s, ch) =~= s);
    }
}

proof fn lemma_suffix_at(s: Seq<char>, ch: char, i: int)
    requires
        0 <= i < s.len(),
        s[i] == ch,
        forall|j: int| i < j < s.len() ==> s[j] != ch,
    ensures
        suffix_after_last(s, ch) == s.subrange(i + 1, s.len() as int),
    decreases s.len(),
{
    if i == s.len() - 1 {
        assert(suffix_after_last(s, ch) =~= s.subrange(i + 1, s.len() as int));
    } else {
        assert(s.last() != ch);
        assert(s.drop_last()[i] == ch);
        lemma_suffix_at(s.drop_last(), ch, i);
        assert(suffix_after_last(s, ch) =~= s.subrange(i + 1, s.len() as int));
    }
}

pub proof fn lemma_suffix_len(s: Seq<char>, ch: char)
    ensures
        suffix_after_last(s, ch).len() <= s.len(),
    decreases s.len(),
{
    if s.len() != 0 && s.last() != ch {
        lemma_suffix_len(s.drop_last(), ch);
    }
}

pub proof fn lemma_suffix_len_strict(s: Seq<char>, ch: char)
    requires
        has_char(s, ch),
    ensures
        suffix_after_last(s, ch).len() < s.len(),
    decreases s.len(),
{
    if s.last() != ch {
        assert(has_char(s.drop_last(), ch)) by {
            let i = choose|i: int| 0 <= i < s.len() && s[i] == ch;
            assert(i < s.len() - 1);
            assert(s.drop_last()[i] == ch);
        }
        lemma_suffix_len_strict(s.drop_last(), ch);
    }
}

/// The file name of a path: what follows the last separator.
pub open spec fn file_name_of(p: Seq<char>) -> Seq<char> {
    suffix_after_last(p, '/')
}

/// The extension of a path: what follows the last dot of the file name,
/// empty when the file name has no dot past its first character.
pub open spec fn extension_of(p: Seq<char>) -> Seq<char> {
    let name = file_name_of(p);
    if exists|i: int| 1 <= i < name.len() && name[i] == '.' {
        suffix_after_last(name, '.')
    } else {
        Seq::empty()
    }
}

fn last_index_of(v: &Vec<char>, ch: char) -> (r: Option<usize>)
    ensures
        match r {
            Option::Some(i) => i < v@.len() && v@[i as int] == ch && (forall|j: int|
                i < j < v@.len() ==> v@[j] != ch),
            Option::None => !has_char(v@, ch),
        },
{
    let mut i: usize = v.len();
    while i > 0
        invariant
            i <= v@.len(),
            forall|j: int| i <= j < v@.len() ==> v@[j] != ch,
        decreases i,
    {
        i = i - 1;
        if v[i] == ch {
            return Some(i);
        }
    }
    proof {
        if has_char(v@, ch) {
            let j = choose|j: int| 0 <= j < v@.len() && v@[j] == ch;
        }
    }
    None
}

/// The extension of a file path, as `extension_of` gives it.
pub fn path_extension(p: &str) -> (r: String)
    ensures
        r@ == extension_of(p@),
{
    let chars = string_to_chars(p);
    let _total = chars.len();
    let slash = last_index_of(&chars, '/');
    let name_start: usize = match slash {
        Some(i) => i + 1,
        None => 0,
    };
    let mut name: Vec<char> = Vec::new();
    let mut i: usize = name_start;
    while i < chars.len()
        invariant
            name_start <= i <= chars@.len(),
            name@ == chars@.subrange(name_start as int, i as int),
        decreases chars@.len() - i,
    {
        name.push(chars[i]);
        proof {
            assert(chars@.subrange(name_start as int, i + 1 as int) =~= chars@.subrange(
                name_start as int,
                i as int,
            ).push(chars@[i as int]));
        }
        i = i + 1;
    }
    proof {
        match slash {
            Option::Some(s_i) => {
                lemma_suffix_at(chars@, '/', s_i as int);
            },
            Option::None => {
                lemma_suffix_absent(chars@, '/');
            },
        }
        assert(name@ =~= file_name_of(p@));
    }
    let dot = last_index_of(&name, '.');
    match dot {
        Some(d) if d >= 1 => {
            let mut ext: Vec<char> = Vec::new();
            let mut k: usize = d + 1;
            while k < name.len()
                invariant
                    d + 1 <= k <= name@.len(),
                    ext@ == name@.subrange(d + 1 as int, k as int),
                decreases name@.len() - k,
            {
                ext.push(name[k]);
                proof {
                    assert(name@.subrange(d + 1 as int, k + 1 as int) =~= name@.subrange(
                        d + 1 as int,
                        k as int,
                    ).push(name@[k as int]));
                }
                k = k + 1;
            }
            proof {
                lemma_suffix_at(name@, '.', d as int);
                assert(ext@ =~= extension_of(p@));
            }
            chars_to_string(&ext)
        },
        _ => {
            proof {
                if exists|i: int| 1 <= i < name@.len() && name@[i] == '.' {
                    let w = choose|i: int| 1 <= i < name@.len() && name@[i] == '.';
                    assert(has_char(name@, '.'));
                    assert(match dot {
                        Option::Some(dd) => dd == 0,
                        Option::None => false,
                    });
                }
                assert(Seq::<char>::empty() =~= extension_of(p@));
            }
            String::new()
        },
    }
}

// ---------------------------------------------------------------------------
// Doubling a quote character
// ---------------------------------------------------------------------------

/// `s` with every occurrence of `q` written twice.
pub open spec fn doubled(s: Seq<char>, q: char) -> Seq<char>
    decreases s.len(),
{
    if s.len() == 0 {
        Seq::empty()
    } else {
        (if s[0] == q {
            seq![q, q]
        } else {
            seq![s[0]]
        }) + doubled(s.drop_first(), q)
    }
}

pub proof fn lemma_doubled_push(s: Seq<char>, q: char, c: char)
    ensures
        doubled(s.push(c), q) == doubled(s, q) + (if c == q {
            seq![q, q]
        } else {
            seq![c]
        }),
    decreases s.len(),
{
    let tail = if c == q {
        seq![q, q]
    } else {
        seq![c]
    };
    if s.len() == 0 {
        assert(s.push(c)[0] == c);
        assert(s =~= Seq::<char>::empty());
        assert(s.push(c).drop_first() =~= Seq::<char>::empty());
        assert(doubled(Seq::<char>::empty(), q) =~= Seq::<char>::empty());
        assert(doubled(s.push(c), q) =~= doubled(s, q) + tail);
    } else {
        assert(s.push(c)[0] == s[0]);
        assert(s.push(c).drop_first() =~= s.drop_first().push(c));
        lemma_doubled_push(s.drop_first(), q, c);
        assert(doubled(s.push(c).drop_first(), q) == doubled(s.drop_first(), q) + tail);
        let head = if s[0] == q {
            seq![q, q]
        } else {
            seq![s[0]]
        };
        assert(doubled(s.push(c), q) == head + (doubled(s.drop_first(), q) + tail));
        assert(doubled(s, q) == head + doubled(s.drop_first(), q));
        assert(head + (doubled(s.drop_first(), q) + tail) =~= (head + doubled(s.drop_first(), q))
            + tail);
    }
}

/// Copies `src`, writing every occurrence of `q` twice.
pub fn double_char(src: &Vec<char>, q: char) -> (r: Vec<char>)
    ensures
        r@ == doubled(src@, q),
{
    let mut out: Vec<char> = Vec::new();
    let mut i: usize = 0;
    while i < src.len()
        invariant
            i <= src@.len(),
            out@ == doubled(src@.take(i as int), q),
        decreases src@.len() - i,
    {
        let c = src[i];
        if c == q {
            out.push(q);
            out.push(q);
        } else {
            out.push(c);
        }
        proof {
            assert(src@.take(i + 1 as int) =~= src@.take(i as int).push(src@[i as int]));
            lemma_doubled_push(src@.take(i as int), q, src@[i as int]);
        }
        i = i + 1;
    }
    proof {
        assert(src@.take(src@.len() as int) =~= src@);
    }
    out
}

} // verus!
